//! Setting right the base classes of a generated Python stub
//!
//! The generator registers an exception's base as a builtin whatever it actually
//! is, so one deriving from another of ours comes out as
//! `class DeviceBusy(builtins.TransientError)`. There is no such name in
//! `builtins` and a type checker rejects it. Every class the file declares is
//! fair game to unqualify, so this needs no list to keep in step.

use vstd::prelude::*;

verus! {

/// Whether `pat` stands at `i`
pub open spec fn stands_at(s: Seq<char>, pat: Seq<char>, i: int) -> bool {
    i + pat.len() <= s.len() && s.subrange(i, i + pat.len()) == pat
}

/// A text from `i` on with every `pat` in it replaced by `rep`, from the left,
/// none overlapping another
pub open spec fn replaced_from(s: Seq<char>, pat: Seq<char>, rep: Seq<char>, i: int) -> Seq<char>
    decreases s.len() - i,
{
    if i >= s.len() {
        Seq::empty()
    } else if pat.len() > 0 && stands_at(s, pat, i) {
        rep + replaced_from(s, pat, rep, i + pat.len())
    } else {
        seq![s[i]] + replaced_from(s, pat, rep, i + 1)
    }
}

/// A text with every `pat` in it replaced by `rep`
pub open spec fn replaced(s: Seq<char>, pat: Seq<char>, rep: Seq<char>) -> Seq<char> {
    replaced_from(s, pat, rep, 0)
}

/// Where the line that `i` is in ends
pub open spec fn line_end(s: Seq<char>, i: int) -> int
    decreases s.len() - i,
{
    if i >= s.len() || s[i] == '\n' {
        i
    } else {
        line_end(s, i + 1)
    }
}

/// Where the name that starts at `i` ends: at its bases, at its colon, or with
/// the line
pub open spec fn name_end(s: Seq<char>, i: int) -> int
    decreases s.len() - i,
{
    if i >= s.len() || s[i] == '\n' || s[i] == '(' || s[i] == ':' {
        i
    } else {
        name_end(s, i + 1)
    }
}

/// The name that starts at `i`, without the carriage return a line may end with
pub open spec fn name_at(s: Seq<char>, i: int) -> Seq<char> {
    let end = name_end(s, i);
    if end < s.len() && s[end] == '\n' && end > i && s[end - 1] == '\r' {
        s.subrange(i, end - 1)
    } else {
        s.subrange(i, end)
    }
}

/// The classes declared from the line at `i` on, in order
pub open spec fn declared_from(s: Seq<char>, i: int) -> Seq<Seq<char>>
    decreases s.len() + 1 - i,
    via declared_decreases
{
    if i < 0 || i >= s.len() {
        Seq::empty()
    } else {
        let rest = declared_from(s, line_end(s, i) + 1);
        if stands_at(s, "class "@, i) {
            seq![name_at(s, i + 6)] + rest
        } else {
            rest
        }
    }
}

#[via_fn]
proof fn declared_decreases(s: Seq<char>, i: int) {
    lemma_line_end(s, i);
}

/// A line ends at or behind where it is looked for
proof fn lemma_line_end(s: Seq<char>, i: int)
    ensures
        i <= line_end(s, i),
        i <= s.len() ==> line_end(s, i) <= s.len(),
    decreases s.len() - i,
{
    if i < s.len() && s[i] != '\n' {
        lemma_line_end(s, i + 1);
    }
}

/// A stub with the first `n` of the declared classes unqualified
pub open spec fn unqualified_to(s: Seq<char>, names: Seq<Seq<char>>, n: int) -> Seq<char>
    decreases n,
{
    if n <= 0 {
        s
    } else {
        replaced(unqualified_to(s, names, n - 1), "builtins."@ + names[n - 1], names[n - 1])
    }
}

/// A stub with the `builtins.` dropped from every class it declares itself
pub open spec fn unqualified(s: Seq<char>) -> Seq<char> {
    let names = declared_from(s, 0);
    unqualified_to(s, names, names.len() as int)
}

/// The characters of a text
fn chars_of(s: &str) -> (r: Vec<char>)
    ensures
        r@ == s@,
{
    let mut out: Vec<char> = Vec::new();
    for c in it: s.chars()
        invariant
            out@.len() == it.index(),
            forall|j: int| 0 <= j < out@.len() ==> out@[j] == it.seq()[j],
            it.seq() == s@,
    {
        out.push(c);
    }
    assert(out@ =~= s@);
    out
}

/// The text of characters
fn text_of(chars: &Vec<char>) -> (r: String)
    ensures
        r@ == chars@,
{
    let mut s = String::new();
    let mut i: usize = 0;
    while i < chars.len()
        invariant
            i <= chars@.len(),
            s@ == chars@.take(i as int),
        decreases chars@.len() - i,
    {
        s.push(chars[i]);
        assert(s@ =~= chars@.take(i + 1));
        i += 1;
    }
    assert(chars@.take(i as int) =~= chars@);
    s
}

/// Whether `pat` stands at `i`
fn is_at(s: &Vec<char>, pat: &Vec<char>, i: usize) -> (r: bool)
    requires
        i <= s@.len(),
    ensures
        r == stands_at(s@, pat@, i as int),
{
    if pat.len() > s.len() - i {
        return false;
    }
    let mut k: usize = 0;
    while k < pat.len()
        invariant
            k <= pat@.len(),
            i + pat@.len() <= s@.len(),
            s@.len() == s.len(),
            forall|j: int| 0 <= j < k ==> s@[i + j] == #[trigger] pat@[j],
        decreases pat@.len() - k,
    {
        if s[i + k] != pat[k] {
            assert(s@.subrange(i as int, i + pat@.len())[k as int] != pat@[k as int]);
            return false;
        }
        k += 1;
    }
    assert(s@.subrange(i as int, i + pat@.len()) =~= pat@);
    true
}

/// Replace every `pat` by `rep`
fn replace(s: &Vec<char>, pat: &Vec<char>, rep: &Vec<char>) -> (r: Vec<char>)
    requires
        pat@.len() > 0,
    ensures
        r@ == replaced(s@, pat@, rep@),
{
    let mut out: Vec<char> = Vec::new();
    let mut i: usize = 0;
    let ghost want = replaced(s@, pat@, rep@);
    proof {
        assert(Seq::<char>::empty() + want =~= want);
    }
    while i < s.len()
        invariant
            pat@.len() > 0,
            i <= s@.len(),
            want == out@ + replaced_from(s@, pat@, rep@, i as int),
        decreases s@.len() - i,
    {
        let ghost before = out@;
        if is_at(s, pat, i) {
            let mut k: usize = 0;
            while k < rep.len()
                invariant
                    k <= rep@.len(),
                    out@ == before + rep@.take(k as int),
                decreases rep@.len() - k,
            {
                out.push(rep[k]);
                assert(out@ =~= before + rep@.take(k + 1));
                k += 1;
            }
            proof {
                assert(rep@.take(k as int) =~= rep@);
                let rest = replaced_from(s@, pat@, rep@, i + pat@.len());
                assert(before + (rep@ + rest) =~= before + rep@ + rest);
            }
            i += pat.len();
        } else {
            out.push(s[i]);
            proof {
                let rest = replaced_from(s@, pat@, rep@, i + 1);
                assert(before + (seq![s@[i as int]] + rest) =~= out@ + rest);
            }
            i += 1;
        }
    }
    assert(want =~= out@);
    out
}

/// The name that starts at `i`
fn read_name(s: &Vec<char>, i: usize) -> (r: Vec<char>)
    requires
        i <= s@.len(),
    ensures
        r@ == name_at(s@, i as int),
{
    let mut end: usize = i;
    while end < s.len() && s[end] != '\n' && s[end] != '(' && s[end] != ':'
        invariant
            i <= end <= s@.len(),
            name_end(s@, i as int) == name_end(s@, end as int),
        decreases s@.len() - end,
    {
        end += 1;
    }
    let stop: usize = if end < s.len() && s[end] == '\n' && end > i && s[end - 1] == '\r' {
        end - 1
    } else {
        end
    };
    let mut out: Vec<char> = Vec::new();
    let mut k: usize = i;
    while k < stop
        invariant
            i <= k <= stop <= s@.len(),
            out@ == s@.subrange(i as int, k as int),
        decreases stop - k,
    {
        out.push(s[k]);
        assert(out@ =~= s@.subrange(i as int, k + 1));
        k += 1;
    }
    out
}

/// Whether lists of characters say what is meant
pub open spec fn spells_each(a: Seq<Vec<char>>, b: Seq<Seq<char>>) -> bool {
    a.len() == b.len() && forall|i: int| 0 <= i < b.len() ==> (#[trigger] a[i])@ == b[i]
}

/// The classes a stub declares
fn declared(s: &Vec<char>) -> (r: Vec<Vec<char>>)
    ensures
        spells_each(r@, declared_from(s@, 0)),
{
    let class = chars_of("class ");
    proof {
        reveal_strlit("class ");
    }
    let mut names: Vec<Vec<char>> = Vec::new();
    let ghost all = declared_from(s@, 0);
    let mut i: usize = 0;
    while i < s.len()
        invariant
            i <= s@.len(),
            class@ == "class "@,
            class@.len() == 6,
            all == declared_from(s@, 0),
            names@.len() + declared_from(s@, i as int).len() == all.len(),
            forall|k: int| 0 <= k < names@.len() ==> (#[trigger] names@[k])@ == all[k],
            forall|k: int|
                names@.len() <= k < all.len() ==> #[trigger] all[k] == declared_from(
                    s@,
                    i as int,
                )[k - names@.len()],
        decreases s@.len() - i,
    {
        let mut end: usize = i;
        while end < s.len() && s[end] != '\n'
            invariant
                i <= end <= s@.len(),
                line_end(s@, i as int) == line_end(s@, end as int),
            decreases s@.len() - end,
        {
            end += 1;
        }
        let ghost rest = declared_from(s@, end + 1);
        let ghost here = declared_from(s@, i as int);
        let ghost found = names@.len() as int;
        if is_at(s, &class, i) {
            names.push(read_name(s, i + 6));
            proof {
                assert(here == seq![name_at(s@, i + 6)] + rest);
                assert(all[found] == here[0]);
                assert forall|k: int| found + 1 <= k < all.len() implies #[trigger] all[k]
                    == rest[k - (found + 1)] by {
                    assert(all[k] == here[k - found]);
                }
            }
        } else {
            assert(here == rest);
        }
        if end == s.len() {
            assert(rest =~= Seq::<Seq<char>>::empty());
            return names;
        }
        i = end + 1;
    }
    names
}

/// Drop the `builtins.` a locally declared class is wrongly given as a base
pub fn unqualify_local_classes(stub: &str) -> (r: String)
    ensures
        r@ == unqualified(stub@),
{
    let mut text = chars_of(stub);
    let names = declared(&text);
    let ghost start = text@;
    let ghost want = declared_from(start, 0);
    proof {
        reveal_strlit("builtins.");
    }
    let mut n: usize = 0;
    while n < names.len()
        invariant
            n <= names@.len(),
            want == declared_from(start, 0),
            spells_each(names@, want),
            "builtins."@.len() == 9,
            text@ == unqualified_to(start, want, n as int),
        decreases names@.len() - n,
    {
        let mut qualified = chars_of("builtins.");
        let mut k: usize = 0;
        let ghost name = names@[n as int]@;
        proof {
            assert(qualified@ =~= "builtins."@ + name.take(0));
        }
        while k < names[n].len()
            invariant
                n < names@.len(),
                name == names@[n as int]@,
                k <= name.len(),
                qualified@ == "builtins."@ + name.take(k as int),
            decreases name.len() - k,
        {
            qualified.push(names[n][k]);
            assert(qualified@ =~= "builtins."@ + name.take(k + 1));
            k += 1;
        }
        assert(name.take(k as int) =~= name);
        text = replace(&text, &qualified, &names[n]);
        n += 1;
    }
    text_of(&text)
}

/// A stub that declares no class is left as it is
pub proof fn law_a_stub_without_classes_stays(s: Seq<char>)
    requires
        declared_from(s, 0).len() == 0,
    ensures
        unqualified(s) == s,
{
}

/// Replacing goes from the left: up to the first place it stands a text is kept,
/// and what follows it is replaced in turn
proof fn lemma_replaced_from(s: Seq<char>, pat: Seq<char>, rep: Seq<char>, i: int, at: int)
    requires
        0 <= i <= at <= s.len(),
        forall|k: int| i <= k < at ==> !#[trigger] stands_at(s, pat, k),
    ensures
        replaced_from(s, pat, rep, i) == s.subrange(i, at) + replaced_from(s, pat, rep, at),
    decreases at - i,
{
    if i < at {
        lemma_replaced_from(s, pat, rep, i + 1, at);
        assert(!stands_at(s, pat, i));
        assert(seq![s[i]] + (s.subrange(i + 1, at) + replaced_from(s, pat, rep, at)) =~= s.subrange(
            i,
            at,
        ) + replaced_from(s, pat, rep, at));
    } else {
        assert(s.subrange(i, at) + replaced_from(s, pat, rep, at) =~= replaced_from(
            s,
            pat,
            rep,
            at,
        ));
    }
}

/// What follows a place is replaced as a text of its own
proof fn lemma_replaced_behind(s: Seq<char>, pat: Seq<char>, rep: Seq<char>, by: int, i: int)
    requires
        0 <= by,
        0 <= i,
        by <= s.len(),
    ensures
        replaced_from(s, pat, rep, by + i) == replaced_from(s.skip(by), pat, rep, i),
    decreases s.len() - by - i,
{
    let t = s.skip(by);
    if i < t.len() {
        assert(t[i] == s[by + i]);
        if by + i + pat.len() <= s.len() {
            assert(t.subrange(i, i + pat.len()) =~= s.subrange(by + i, by + i + pat.len()));
        }
        assert(stands_at(t, pat, i) == stands_at(s, pat, by + i));
        if pat.len() > 0 && stands_at(s, pat, by + i) {
            lemma_replaced_behind(s, pat, rep, by, i + pat.len());
        } else {
            lemma_replaced_behind(s, pat, rep, by, i + 1);
        }
    }
}

/// A text is kept up to the first place where it holds what is replaced, that is
/// replaced, and what follows it is treated the same; a text that does not hold
/// it stays as it is
pub proof fn law_replacing_goes_from_the_left(s: Seq<char>, pat: Seq<char>, rep: Seq<char>, at: int)
    requires
        pat.len() > 0,
        0 <= at <= s.len(),
        forall|k: int|
            0 <= k < at ==> !(k + pat.len() <= s.len() && #[trigger] s.subrange(k, k + pat.len())
                == pat),
    ensures
        at == s.len() ==> replaced(s, pat, rep) == s,
        at + pat.len() <= s.len() && s.subrange(at, at + pat.len()) == pat ==> replaced(s, pat, rep)
            == s.take(at) + rep + replaced(s.skip(at + pat.len()), pat, rep),
{
    assert forall|k: int| 0 <= k < at implies !#[trigger] stands_at(s, pat, k) by {
        if k + pat.len() <= s.len() {
            assert(s.subrange(k, k + pat.len()) != pat);
        }
    }
    lemma_replaced_from(s, pat, rep, 0, at);
    assert(s.subrange(0, at) =~= s.take(at));
    if at == s.len() {
        assert(s.take(at) + replaced_from(s, pat, rep, at) =~= s);
    }
    if at + pat.len() <= s.len() && s.subrange(at, at + pat.len()) == pat {
        assert(stands_at(s, pat, at));
        lemma_replaced_behind(s, pat, rep, at + pat.len(), 0);
        let rest = replaced(s.skip(at + pat.len()), pat, rep);
        assert(s.take(at) + (rep + rest) =~= s.take(at) + rep + rest);
    }
}

/// A line ends at the first break behind where it is looked for
pub proof fn law_where_a_line_ends(s: Seq<char>, i: int, end: int)
    requires
        0 <= i <= end <= s.len(),
        forall|k: int| i <= k < end ==> #[trigger] s[k] != '\n',
        end < s.len() ==> s[end] == '\n',
    ensures
        line_end(s, i) == end,
    decreases end - i,
{
    if i < end {
        law_where_a_line_ends(s, i + 1, end);
    }
}

/// Where a name ends
proof fn lemma_name_end(s: Seq<char>, i: int, end: int)
    requires
        0 <= i <= end <= s.len(),
        forall|k: int|
            i <= k < end ==> #[trigger] s[k] != '\n' && s[k] != '(' && s[k] != ':',
        end < s.len() ==> s[end] == '\n' || s[end] == '(' || s[end] == ':',
    ensures
        name_end(s, i) == end,
    decreases end - i,
{
    if i < end {
        lemma_name_end(s, i + 1, end);
    }
}

/// A name goes up to the bracket, the colon or the line break behind it, and a
/// carriage return in front of that break is none of it
pub proof fn law_where_a_name_ends(s: Seq<char>, i: int, end: int)
    requires
        0 <= i <= end <= s.len(),
        forall|k: int|
            i <= k < end ==> #[trigger] s[k] != '\n' && s[k] != '(' && s[k] != ':',
        end < s.len() ==> s[end] == '\n' || s[end] == '(' || s[end] == ':',
    ensures
        end == s.len() || s[end] != '\n' || end == i || s[end - 1] != '\r' ==> name_at(s, i)
            == s.subrange(i, end),
        end < s.len() && s[end] == '\n' && end > i && s[end - 1] == '\r' ==> name_at(s, i)
            == s.subrange(i, end - 1),
{
    lemma_name_end(s, i, end);
}

/// The classes are those of the lines that start with `class `, in their order
pub proof fn law_which_classes_are_declared(s: Seq<char>, i: int, end: int)
    requires
        0 <= i < s.len(),
        i <= end <= s.len(),
        forall|k: int| i <= k < end ==> #[trigger] s[k] != '\n',
        end < s.len() ==> s[end] == '\n',
    ensures
        i + 6 <= s.len() && s.subrange(i, i + 6) == seq!['c', 'l', 'a', 's', 's', ' ']
            ==> declared_from(s, i) == seq![name_at(s, i + 6)] + declared_from(s, end + 1),
        i + 6 > s.len() || s.subrange(i, i + 6) != seq!['c', 'l', 'a', 's', 's', ' ']
            ==> declared_from(s, i) == declared_from(s, end + 1),
        declared_from(s, s.len() as int).len() == 0,
        declared_from(s, s.len() as int + 1).len() == 0,
{
    law_where_a_line_ends(s, i, end);
    reveal_strlit("class ");
    assert("class "@ =~= seq!['c', 'l', 'a', 's', 's', ' ']);
}

/// Each class that a stub declares is unqualified in turn: its name behind
/// `builtins.` gives way to its name alone
pub proof fn law_classes_are_unqualified_in_turn(s: Seq<char>, n: int)
    requires
        0 <= n < declared_from(s, 0).len(),
    ensures
        ({
            let names = declared_from(s, 0);
            &&& unqualified_to(s, names, 0) == s
            &&& unqualified_to(s, names, n + 1) == replaced(
                unqualified_to(s, names, n),
                seq!['b', 'u', 'i', 'l', 't', 'i', 'n', 's', '.'] + names[n],
                names[n],
            )
            &&& unqualified(s) == unqualified_to(s, names, names.len() as int)
        }),
{
    reveal_strlit("builtins.");
    assert("builtins."@ =~= seq!['b', 'u', 'i', 'l', 't', 'i', 'n', 's', '.']);
}

} // verus!

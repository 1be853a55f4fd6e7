//! What a finished pass is written out as
//!
//! One file for the color planes and, where the pass carried infrared, one
//! beside it for that. Infrared is not a color and a fourth sample would be
//! read as alpha, so it does not share a file.

use crate::protocol::window::Channel;
use crate::search::{first_index, law_a_search_finds_the_first};
use crate::text::{decimal, decimal_text, is_digit, lemma_decimal_digits, push_decimal};
use vstd::prelude::*;

verus! {

/// What a frame's color file is named
pub open spec fn color_name(stem: Seq<char>, n: int) -> Seq<char> {
    stem + "_"@ + decimal(n as nat) + ".tiff"@
}

/// What a frame's infrared file is named
pub open spec fn infrared_name(stem: Seq<char>, n: int) -> Seq<char> {
    stem + "_"@ + decimal(n as nat) + "_IR.tiff"@
}

/// What a strip's thumbnail is named
pub open spec fn thumbnail_name(stem: Seq<char>, n: int) -> Seq<char> {
    stem + "_"@ + decimal(n as nat) + "_thumbnail.tiff"@
}

/// What a frame's files are named, one-indexed, infrared beside the color
pub fn paths(basename: &str, n: usize) -> (r: (String, String))
    ensures
        r.0@ == color_name(basename@, n as int),
        r.1@ == infrared_name(basename@, n as int),
{
    let mut color = String::from_str(basename);
    color.append("_");
    push_decimal(&mut color, n as u64);
    color.append(".tiff");
    let mut ir = String::from_str(basename);
    ir.append("_");
    push_decimal(&mut ir, n as u64);
    ir.append("_IR.tiff");
    (color, ir)
}

/// What a strip's thumbnail is named, numbered by the strip's first frame
pub fn thumbnail_path(basename: &str, n: usize) -> (r: String)
    ensures
        r@ == thumbnail_name(basename@, n as int),
{
    let mut s = String::from_str(basename);
    s.append("_");
    push_decimal(&mut s, n as u64);
    s.append("_thumbnail.tiff");
    s
}

/// What a strip's frame boundaries are named, numbered the same way
pub fn frames_path(basename: &str, n: usize) -> (r: String)
    ensures
        r@ == basename@ + "_"@ + decimal(n as nat) + "_frames.json"@,
{
    let mut s = String::from_str(basename);
    s.append("_");
    push_decimal(&mut s, n as u64);
    s.append("_frames.json");
    s
}

/// Whether `there`, asked about the file of this name, answered `answer`
pub open spec fn answered<F: Fn(&str) -> bool>(there: F, name: Seq<char>, answer: bool) -> bool {
    exists|file: &str| file@ == name && #[trigger] there.ensures((file,), answer)
}

/// Whether every file of a number was answered to be absent
pub open spec fn all_free<F: Fn(&str) -> bool>(there: F, stem: Seq<char>, n: int) -> bool {
    &&& answered(there, color_name(stem, n), false)
    &&& answered(there, infrared_name(stem, n), false)
    &&& answered(there, thumbnail_name(stem, n), false)
}

/// Whether some file of a number was answered to be there
pub open spec fn some_taken<F: Fn(&str) -> bool>(there: F, stem: Seq<char>, n: int) -> bool {
    ||| answered(there, color_name(stem, n), true)
    ||| answered(there, infrared_name(stem, n), true)
    ||| answered(there, thumbnail_name(stem, n), true)
}

/// The first frame number whose files are all free, as `there` answers for one
/// file after another: color, infrared and thumbnail
///
/// A batch appends rather than overwrites, so a second strip through the same
/// basename carries on where the first stopped. The thumbnail counts: a strip
/// with no frames on it still takes a number, and taking it again would
/// overwrite the thumbnail that says why it had none.
///
/// `None` where every number there is is taken.
pub fn next_free<F: Fn(&str) -> bool>(basename: &str, there: F) -> (r: Option<usize>)
    requires
        forall|file: &str| #[trigger] there.requires((file,)),
    ensures
        match r {
            Some(n) => n >= 1 && all_free(there, basename@, n as int) && forall|k: usize|
                1 <= k < n ==> #[trigger] some_taken(there, basename@, k as int),
            None => forall|k: usize| k >= 1 ==> #[trigger] some_taken(
                there,
                basename@,
                k as int,
            ),
        },
{
    let mut n: usize = 1;
    loop
        invariant
            n >= 1,
            forall|file: &str| #[trigger] there.requires((file,)),
            forall|k: usize| 1 <= k < n ==> #[trigger] some_taken(there, basename@, k as int),
        decreases usize::MAX - n,
    {
        let (color, ir) = paths(basename, n);
        let thumbnail = thumbnail_path(basename, n);
        if !there(color.as_str()) && !there(ir.as_str()) && !there(thumbnail.as_str()) {
            return Some(n);
        }
        if n == usize::MAX {
            return None;
        }
        n += 1;
    }
}

/// Where a channel sits among the color channels
pub open spec fn plane_index(colors: Seq<u8>, channel: Channel) -> Option<int> {
    first_index(colors.len() as int, |n: int| Channel::of(colors[n]) == channel, 0)
}

/// Where `channel` sits in the color buffer, which carries only the color
/// channels of a pass, in the same relative order
pub fn plane_of(colors: &[u8], channel: Channel) -> (r: Option<usize>)
    ensures
        match r {
            Some(n) => n < colors@.len() && plane_index(colors@, channel) == Some(n as int),
            None => plane_index(colors@, channel) is None,
        },
{
    let ghost pick = |n: int| Channel::of(colors@[n]) == channel;
    let mut n: usize = 0;
    while n < colors.len()
        invariant
            n <= colors@.len(),
            pick == (|n: int| Channel::of(colors@[n]) == channel),
            plane_index(colors@, channel) == first_index(colors@.len() as int, pick, n as int),
        decreases colors@.len() - n,
    {
        if Channel::from(colors[n]) == channel {
            return Some(n);
        }
        n += 1;
    }
    None
}

/// A plane, where there is one, behind those before it
pub open spec fn with_plane(before: Seq<int>, plane: Option<int>) -> Seq<int> {
    match plane {
        Some(n) => before.push(n),
        None => before,
    }
}

/// The planes of R, G and B, in that order, or of the default channel where
/// there is none of them
pub open spec fn visible_planes(colors: Seq<u8>) -> Seq<int> {
    let rgb = with_plane(
        with_plane(
            with_plane(Seq::empty(), plane_index(colors, Channel::Red)),
            plane_index(colors, Channel::Green),
        ),
        plane_index(colors, Channel::Blue),
    );
    if rgb.len() == 0 {
        with_plane(Seq::empty(), plane_index(colors, Channel::Default))
    } else {
        rgb
    }
}

/// Whether a list of planes is the one that is meant
pub open spec fn same_planes(a: Seq<usize>, b: Seq<int>) -> bool {
    a.len() == b.len() && forall|k: int| 0 <= k < b.len() ==> #[trigger] a[k] == b[k]
}

/// Put the plane of a channel behind those before it
fn add_plane(planes: &mut Vec<usize>, colors: &[u8], channel: Channel, before: Ghost<Seq<int>>)
    requires
        same_planes(old(planes)@, before@),
    ensures
        same_planes(final(planes)@, with_plane(before@, plane_index(colors@, channel))),
        final(planes)@.len() <= old(planes)@.len() + 1,
        forall|k: int|
            0 <= k < final(planes)@.len() ==> k < old(planes)@.len() && final(planes)@[k]
                == old(planes)@[k] || (#[trigger] final(planes)@[k]) < colors@.len(),
{
    if let Some(n) = plane_of(colors, channel) {
        planes.push(n);
    }
}

/// R, G, B whatever order the stream interleaves them in
///
/// A unit that scans one channel calls it the default rather than green
pub fn color_planes(colors: &[u8]) -> (r: Vec<usize>)
    ensures
        same_planes(r@, visible_planes(colors@)),
        r@.len() <= 3,
        forall|k: int| 0 <= k < r@.len() ==> (#[trigger] r@[k]) < colors@.len(),
{
    let ghost none = Seq::<int>::empty();
    let ghost red = with_plane(none, plane_index(colors@, Channel::Red));
    let ghost green = with_plane(red, plane_index(colors@, Channel::Green));
    let mut planes: Vec<usize> = Vec::new();
    add_plane(&mut planes, colors, Channel::Red, Ghost(none));
    add_plane(&mut planes, colors, Channel::Green, Ghost(red));
    add_plane(&mut planes, colors, Channel::Blue, Ghost(green));
    if planes.len() == 0 {
        add_plane(&mut planes, colors, Channel::Default, Ghost(none));
    }
    planes
}

/// Where a file's samples come from
#[derive(Debug, PartialEq, Eq)]
pub enum Source {
    /// These channels of the pass, as they are
    Planes(Vec<usize>),
    /// One value weighed out of three channels, which is what a gray file of a
    /// color pass is
    Luminance([usize; 3]),
}

impl Source {
    /// Samples this puts in the file for each pixel
    pub open spec fn width(&self) -> nat {
        match self {
            Source::Planes(planes) => planes@.len(),
            Source::Luminance(_) => 1,
        }
    }

    /// Samples this puts in the file for each pixel
    pub fn per_pixel(&self) -> (r: usize)
        ensures
            r == self.width(),
    {
        match self {
            Source::Planes(planes) => planes.len(),
            Source::Luminance(_) => 1,
        }
    }
}

/// The plane a monochrome file falls back to: green, which is what the default
/// channel is called where there is no other
pub open spec fn gray_plane(colors: Seq<u8>) -> Option<int> {
    match plane_index(colors, Channel::Green) {
        Some(n) => Some(n),
        None => plane_index(colors, Channel::Default),
    }
}

/// What a frame's color file is made of
///
/// Three channels and a profile to weigh them by is the only way to make
/// luminance. A monochrome write with anything less falls back to one channel.
/// Otherwise the file holds the color planes as they are, of which there have
/// to be three or one.
pub fn picture(colors: &[u8], mono: bool, profile: bool) -> (r: Result<Source, String>)
    ensures
        ({
            let planes = visible_planes(colors@);
            if mono && planes.len() == 3 && profile {
                r matches Ok(Source::Luminance(p)) && same_planes(p@, planes)
            } else if mono && gray_plane(colors@) is Some {
                r matches Ok(Source::Planes(p)) && same_planes(
                    p@,
                    seq![gray_plane(colors@)->0],
                )
            } else if planes.len() == 3 || planes.len() == 1 {
                r matches Ok(Source::Planes(p)) && same_planes(p@, planes)
            } else {
                r matches Err(e) && e@ == decimal(planes.len())
                    + " color planes is not a TIFF this writes"@
            }
        }),
{
    let planes = color_planes(colors);
    if mono && planes.len() == 3 && profile {
        let three: [usize; 3] = [planes[0], planes[1], planes[2]];
        return Ok(Source::Luminance(three));
    }
    if mono {
        let fallback = match plane_of(colors, Channel::Green) {
            Some(n) => Some(n),
            None => plane_of(colors, Channel::Default),
        };
        if let Some(gray) = fallback {
            let mut one: Vec<usize> = Vec::new();
            one.push(gray);
            return Ok(Source::Planes(one));
        }
    }
    if planes.len() == 3 || planes.len() == 1 {
        return Ok(Source::Planes(planes));
    }
    let mut e = decimal_text(planes.len() as u64);
    e.append(" color planes is not a TIFF this writes");
    Err(e)
}

/// Whether a file is one gray channel standing in for the picture, which no
/// profile is true of, rather than its planes as they are
pub fn stands_in(colors: &[u8], mono: bool) -> (r: bool)
    ensures
        r == (mono && gray_plane(colors@) is Some),
{
    mono && (plane_of(colors, Channel::Green).is_some() || plane_of(
        colors,
        Channel::Default,
    ).is_some())
}

/// What a strip's thumbnail is made of: its color planes as they are, of which
/// there have to be three or one
pub fn thumbnail_picture(colors: &[u8]) -> (r: Result<Source, String>)
    ensures
        ({
            let planes = visible_planes(colors@);
            if planes.len() == 3 || planes.len() == 1 {
                r matches Ok(Source::Planes(p)) && same_planes(p@, planes)
            } else {
                r matches Err(e) && e@ == decimal(planes.len())
                    + " color planes is not a thumbnail this writes"@
            }
        }),
{
    let planes = color_planes(colors);
    if planes.len() == 3 || planes.len() == 1 {
        return Ok(Source::Planes(planes));
    }
    let mut e = decimal_text(planes.len() as u64);
    e.append(" color planes is not a thumbnail this writes");
    Err(e)
}

/// The samples of a strip, pixel after pixel, each the chosen planes in turn
pub open spec fn strip_of(
    planes: Seq<Vec<u16>>,
    chosen: Seq<usize>,
    first: int,
    pixels: int,
) -> Seq<u16> {
    Seq::new(
        (pixels * chosen.len()) as nat,
        |i: int|
            planes[chosen[i % chosen.len() as int] as int]@[first + i / chosen.len() as int],
    )
}

/// Gather one strip of a file
///
/// The planes are never interleaved; a file holds only what is going in it, so
/// each strip is gathered rather than copied.
pub fn gather(planes: &Vec<Vec<u16>>, chosen: &[usize], first: usize, pixels: usize) -> (r: Vec<
    u16,
>)
    requires
        chosen@.len() > 0,
        first + pixels <= usize::MAX,
        pixels * chosen@.len() <= usize::MAX,
        forall|k: int|
            0 <= k < chosen@.len() ==> (#[trigger] chosen@[k]) < planes@.len()
                && planes@[chosen@[k] as int]@.len() >= first + pixels,
    ensures
        r@ == strip_of(planes@, chosen@, first as int, pixels as int),
{
    let per: usize = chosen.len();
    let count: usize = pixels * per;
    let ghost want = strip_of(planes@, chosen@, first as int, pixels as int);
    let mut strip: Vec<u16> = Vec::new();
    let mut i: usize = 0;
    while i < count
        invariant
            i <= count,
            per == chosen@.len(),
            per > 0,
            count == pixels * per,
            first + pixels <= usize::MAX,
            forall|k: int|
                0 <= k < chosen@.len() ==> (#[trigger] chosen@[k]) < planes@.len()
                    && planes@[chosen@[k] as int]@.len() >= first + pixels,
            want == strip_of(planes@, chosen@, first as int, pixels as int),
            strip@ == want.take(i as int),
        decreases count - i,
    {
        proof {
            assert(0 <= i as int / (per as int) < pixels) by (nonlinear_arith)
                requires
                    0 <= i < pixels * per,
                    0 < per,
            ;
        }
        let plane: usize = chosen[i % per];
        strip.push(planes[plane][first + i / per]);
        i += 1;
    }
    assert(want.take(count as int) =~= want);
    strip
}

/// Sample `k` of pixel `p` of a strip is that pixel of the plane chosen `k`th
pub proof fn law_strips_interleave(
    planes: Seq<Vec<u16>>,
    chosen: Seq<usize>,
    first: int,
    pixels: int,
    p: int,
    k: int,
)
    requires
        0 <= p < pixels,
        0 <= k < chosen.len(),
    ensures
        strip_of(planes, chosen, first, pixels)[p * chosen.len() + k]
            == planes[chosen[k] as int]@[first + p],
{
    let per = chosen.len() as int;
    let i = p * per + k;
    assert(0 <= p * per && p * per + per <= pixels * per) by (nonlinear_arith)
        requires
            0 <= p,
            p + 1 <= pixels,
            0 < per,
    ;
    vstd::arithmetic::div_mod::lemma_fundamental_div_mod_converse(i, per, p, k);
}

/// Numbers that are written alike between the same texts are the same
proof fn lemma_numbered_apart(stem: Seq<char>, n: nat, m: nat, end: Seq<char>)
    requires
        stem + "_"@ + decimal(n) + end == stem + "_"@ + decimal(m) + end,
    ensures
        n == m,
{
    let a = stem + "_"@ + decimal(n) + end;
    let b = stem + "_"@ + decimal(m) + end;
    let from = (stem + "_"@).len() as int;
    assert(a.len() == from + decimal(n).len() + end.len());
    assert(b.len() == from + decimal(m).len() + end.len());
    assert(decimal(n) =~= a.subrange(from, from + decimal(n).len()));
    assert(decimal(m) =~= b.subrange(from, from + decimal(m).len()));
    lemma_decimal_digits(n);
    lemma_decimal_digits(m);
}

/// A frame's files are its own: no two frames share one, and its infrared is
/// apart from every color file
pub proof fn law_files_are_apart(stem: Seq<char>, n: usize, m: usize)
    ensures
        color_name(stem, n as int) == color_name(stem, m as int) ==> n == m,
        infrared_name(stem, n as int) == infrared_name(stem, m as int) ==> n == m,
        color_name(stem, n as int) != infrared_name(stem, m as int),
{
    if color_name(stem, n as int) == color_name(stem, m as int) {
        lemma_numbered_apart(stem, n as nat, m as nat, ".tiff"@);
    }
    if infrared_name(stem, n as int) == infrared_name(stem, m as int) {
        lemma_numbered_apart(stem, n as nat, m as nat, "_IR.tiff"@);
    }
    reveal_strlit(".tiff");
    reveal_strlit("_IR.tiff");
    let color = color_name(stem, n as int);
    let ir = infrared_name(stem, m as int);
    lemma_decimal_digits(n as nat);
    let digits = decimal(n as nat);
    assert(is_digit(digits[digits.len() - 1]));
    assert(color[color.len() - 6] == digits[digits.len() - 1]);
    assert(ir[ir.len() - 6] == 'R');
}

/// How the files of a frame are named: the stem, its number behind a dash below
/// the line, and what the file holds
pub proof fn law_how_the_files_are_named(stem: Seq<char>, n: nat)
    ensures
        ({
            let numbered = stem + seq!['_'] + decimal(n);
            &&& color_name(stem, n as int) == numbered + seq!['.', 't', 'i', 'f', 'f']
            &&& infrared_name(stem, n as int) == numbered + seq![
                '_',
                'I',
                'R',
                '.',
                't',
                'i',
                'f',
                'f',
            ]
            &&& thumbnail_name(stem, n as int) == numbered + "_thumbnail"@ + seq![
                '.',
                't',
                'i',
                'f',
                'f',
            ]
        }),
{
    reveal_strlit("_");
    reveal_strlit(".tiff");
    reveal_strlit("_IR.tiff");
    reveal_strlit("_thumbnail.tiff");
    reveal_strlit("_thumbnail");
    assert("_"@ =~= seq!['_']);
    assert(".tiff"@ =~= seq!['.', 't', 'i', 'f', 'f']);
    assert("_IR.tiff"@ =~= seq!['_', 'I', 'R', '.', 't', 'i', 'f', 'f']);
    let numbered = stem + seq!['_'] + decimal(n);
    let end = seq!['.', 't', 'i', 'f', 'f'];
    assert("_thumbnail.tiff"@ =~= "_thumbnail"@ + end);
    assert(numbered + ("_thumbnail"@ + end) =~= numbered + "_thumbnail"@ + end);
}

/// A channel's plane is the first one that carries it
pub proof fn law_which_plane_a_channel_is(colors: Seq<u8>, channel: Channel, n: int)
    requires
        0 <= n < colors.len(),
    ensures
        plane_index(colors, channel) == Some(n) <==> Channel::of(colors[n]) == channel && forall|
            k: int,
        |
            0 <= k < n ==> Channel::of(#[trigger] colors[k]) != channel,
        plane_index(colors, channel) is None ==> Channel::of(colors[n]) != channel,
{
    let pick = |n: int| Channel::of(colors[n]) == channel;
    law_a_search_finds_the_first(colors.len() as int, pick, 0);
    if let Some(m) = plane_index(colors, channel) {
        assert(pick(m));
        if m < n {
            assert(Channel::of(colors[m]) == channel);
        } else if n < m {
            assert(!pick(n));
        } else {
            assert forall|k: int| 0 <= k < n implies Channel::of(#[trigger] colors[k])
                != channel by {
                assert(!pick(k));
            }
        }
    } else {
        assert(!pick(n));
    }
}

/// Red comes first, then green, then blue, each where there is a plane for it;
/// the default stands in where there is none of the three
pub proof fn law_which_planes_are_visible(colors: Seq<u8>)
    ensures
        ({
            let red = plane_index(colors, Channel::Red);
            let green = plane_index(colors, Channel::Green);
            let blue = plane_index(colors, Channel::Blue);
            let other = plane_index(colors, Channel::Default);
            let planes = visible_planes(colors);
            let r = if red is Some { 1int } else { 0int };
            let g = if green is Some { 1int } else { 0int };
            let b = if blue is Some { 1int } else { 0int };
            &&& r + g + b > 0 ==> planes.len() == r + g + b
            &&& red is Some ==> planes[0] == red->0
            &&& green is Some ==> planes[r] == green->0
            &&& blue is Some ==> planes[r + g] == blue->0
            &&& r + g + b == 0 && other is Some ==> planes == seq![other->0]
            &&& r + g + b == 0 && other is None ==> planes.len() == 0
        }),
{
    assert(forall|n: int| Seq::<int>::empty().push(n) =~= seq![n]);
}

/// A gray file is the green plane, or the default's where there is no green
pub proof fn law_which_plane_is_gray(colors: Seq<u8>)
    ensures
        plane_index(colors, Channel::Green) is Some ==> gray_plane(colors) == plane_index(
            colors,
            Channel::Green,
        ),
        plane_index(colors, Channel::Green) is None ==> gray_plane(colors) == plane_index(
            colors,
            Channel::Default,
        ),
{
}

/// A strip holds a sample of every chosen plane for each of its pixels
pub proof fn law_how_long_a_strip_is(
    planes: Seq<Vec<u16>>,
    chosen: Seq<usize>,
    first: int,
    pixels: int,
)
    requires
        0 <= pixels,
    ensures
        strip_of(planes, chosen, first, pixels).len() == pixels * chosen.len(),
{
    assert(0 <= pixels * chosen.len()) by (nonlinear_arith)
        requires
            0 <= pixels,
            0 <= chosen.len(),
    ;
}

/// What a file is made of: the luminance of three colors where one gray is wanted
/// and there is a profile to weigh them by; the gray plane where there is none;
/// and otherwise the planes that are there, one or three
pub proof fn law_what_a_file_is_made_of(
    colors: &[u8],
    mono: bool,
    profile: bool,
    r: Result<Source, String>,
)
    requires
        call_ensures(picture, (colors, mono, profile), r),
    ensures
        ({
            let count = visible_planes(colors@).len();
            let gray = gray_plane(colors@);
            &&& (r matches Ok(Source::Luminance(_))) <==> mono && profile && count == 3
            &&& mono && !(profile && count == 3) && gray is Some ==> (r matches Ok(
                Source::Planes(p),
            ) && p@.len() == 1 && p@[0] == gray->0)
            &&& !mono ==> (r is Ok <==> count == 1 || count == 3)
            &&& !mono ==> (r matches Ok(Source::Planes(p)) ==> p@.len() == count)
            &&& r is Err <==> count != 1 && count != 3 && !(mono && gray is Some)
        }),
{
}

/// No profile is true of a file that is one gray plane out of a pass with one
pub proof fn law_what_no_profile_is_true_of(colors: &[u8], mono: bool, r: bool)
    requires
        call_ensures(stands_in, (colors, mono), r),
    ensures
        r <==> mono && (plane_index(colors@, Channel::Green) is Some || plane_index(
            colors@,
            Channel::Default,
        ) is Some),
{
}

/// The two files of a frame, and the one that its strip's boundaries go in
pub proof fn law_which_files_a_frame_has(
    basename: &str,
    n: usize,
    both: (String, String),
    frames: String,
)
    requires
        call_ensures(paths, (basename, n), both),
        call_ensures(frames_path, (basename, n), frames),
    ensures
        both.0@ == color_name(basename@, n as int),
        both.1@ == infrared_name(basename@, n as int),
        frames@ == basename@ + "_"@ + decimal(n as nat) + "_frames.json"@,
{
}

} // verus!

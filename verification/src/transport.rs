//! What a transport hands back for one command

use crate::bytes::copied;
use crate::text::{decimal, push_decimal};
use vstd::prelude::*;

verus! {

/// The sense data a unit raised, decoded as far as every transport carries it
#[derive(Debug)]
pub struct Sense {
    pub key: u8,
    pub asc: u8,
    pub ascq: u8,
    /// The fourth byte of a code. Not every transport has a slot for it
    pub tsc: Option<u8>,
    /// Set when the length transferred is not the length asked for
    pub ili: bool,
    pub information: Option<u32>,
    pub raw: Vec<u8>,
}

impl Sense {
    /// Whether two records say the same thing
    pub open spec fn same(self, other: Sense) -> bool {
        &&& self.key == other.key
        &&& self.asc == other.asc
        &&& self.ascq == other.ascq
        &&& self.tsc == other.tsc
        &&& self.ili == other.ili
        &&& self.information == other.information
        &&& self.raw@ == other.raw@
    }

    /// The record, field by field
    pub open spec fn wording(&self) -> Seq<char> {
        "Sense { key: "@ + decimal(self.key as nat) + ", asc: "@ + decimal(self.asc as nat)
            + ", ascq: "@ + decimal(self.ascq as nat) + ", tsc: "@ + maybe_wording(
            match self.tsc {
                Some(v) => Some(v as nat),
                None => None,
            },
        ) + ", ili: "@ + (if self.ili {
            "true"@
        } else {
            "false"@
        }) + ", information: "@ + maybe_wording(
            match self.information {
                Some(v) => Some(v as nat),
                None => None,
            },
        ) + ", raw: ["@ + bytes_wording(self.raw@, self.raw@.len()) + "] }"@
    }

    /// Say the record, field by field
    pub fn text(&self) -> (r: String)
        ensures
            r@ == self.wording(),
    {
        let mut s = String::from_str("Sense { key: ");
        push_decimal(&mut s, self.key as u64);
        s.append(", asc: ");
        push_decimal(&mut s, self.asc as u64);
        s.append(", ascq: ");
        push_decimal(&mut s, self.ascq as u64);
        s.append(", tsc: ");
        push_maybe(
            &mut s,
            match self.tsc {
                Some(v) => Some(v as u64),
                None => None,
            },
        );
        s.append(", ili: ");
        s.append(
            if self.ili {
                "true"
            } else {
                "false"
            },
        );
        s.append(", information: ");
        push_maybe(
            &mut s,
            match self.information {
                Some(v) => Some(v as u64),
                None => None,
            },
        );
        s.append(", raw: [");
        let ghost head = s@;
        let mut n: usize = 0;
        proof {
            assert(head + bytes_wording(self.raw@, 0) =~= head);
        }
        while n < self.raw.len()
            invariant
                n <= self.raw@.len(),
                s@ == head + bytes_wording(self.raw@, n as nat),
            decreases self.raw@.len() - n,
        {
            if n > 0 {
                s.append(", ");
            }
            push_decimal(&mut s, self.raw[n] as u64);
            proof {
                assert(s@ =~= head + bytes_wording(self.raw@, (n + 1) as nat));
            }
            n += 1;
        }
        s.append("] }");
        s
    }
}

/// A number that may be absent
pub open spec fn maybe_wording(v: Option<nat>) -> Seq<char> {
    match v {
        Some(n) => "Some("@ + decimal(n) + ")"@,
        None => "None"@,
    }
}

/// The first `n` bytes of a run with commas between
pub open spec fn bytes_wording(b: Seq<u8>, n: nat) -> Seq<char>
    decreases n,
{
    if n == 0 {
        Seq::empty()
    } else if n == 1 {
        decimal(b[0] as nat)
    } else {
        bytes_wording(b, (n - 1) as nat) + ", "@ + decimal(b[n - 1] as nat)
    }
}

/// Append a number that may be absent
fn push_maybe(s: &mut String, v: Option<u64>)
    ensures
        final(s)@ == old(s)@ + maybe_wording(
            match v {
                Some(n) => Some(n as nat),
                None => None,
            },
        ),
{
    let ghost before = s@;
    match v {
        Some(n) => {
            s.append("Some(");
            push_decimal(s, n);
            s.append(")");
            proof {
                assert(s@ =~= before + maybe_wording(Some(n as nat)));
            }
        },
        None => {
            s.append("None");
        },
    }
}

/// A record that may be absent
pub open spec fn sense_wording(sense: Option<Sense>) -> Seq<char> {
    match sense {
        Some(s) => "Some("@ + s.wording() + ")"@,
        None => "None"@,
    }
}

/// Say a record that may be absent
pub fn sense_text(sense: &Option<Sense>) -> (r: String)
    ensures
        r@ == sense_wording(*sense),
{
    match sense {
        Some(s) => {
            let mut r = String::from_str("Some(");
            let t = s.text();
            r.append(t.as_str());
            r.append(")");
            r
        },
        None => String::from_str("None"),
    }
}

impl Clone for Sense {
    fn clone(&self) -> (r: Sense)
        ensures
            r.same(*self),
    {
        Sense {
            key: self.key,
            asc: self.asc,
            ascq: self.ascq,
            tsc: self.tsc,
            ili: self.ili,
            information: self.information,
            raw: copied(self.raw.as_slice()),
        }
    }
}

/// The status byte a command ended with
#[derive(Debug, Clone, Copy, PartialEq, Eq, Structural)]
pub enum Status {
    Good,
    CheckCondition,
    Busy,
    ReservationConflict,
    Other(u8),
}

/// How one command ended
#[derive(Debug)]
pub struct Completion {
    pub status: Status,
    pub sense: Option<Sense>,
    /// Bytes of the data phase that moved
    pub transferred: usize,
}

/// The transport failed to carry a command at all
#[derive(Debug, Clone, Copy, PartialEq, Eq, Structural)]
pub enum Error {
    /// Nothing answered within the time the caller allowed, in milliseconds
    Timeout(u64),
    /// The link itself failed
    Io,
}

impl Error {
    /// What this says to a person
    pub open spec fn wording(self) -> Seq<char> {
        match self {
            Error::Timeout(ms) => "the scanner did not answer within "@ + decimal(ms as nat)
                + " ms"@,
            Error::Io => "the link to the scanner failed"@,
        }
    }

    /// Say this to a person
    pub fn message(&self) -> (r: String)
        ensures
            r@ == self.wording(),
    {
        match self {
            Error::Timeout(ms) => {
                let mut s = String::from_str("the scanner did not answer within ");
                push_decimal(&mut s, *ms);
                s.append(" ms");
                s
            },
            Error::Io => String::from_str("the link to the scanner failed"),
        }
    }
}

/// Bytes are listed in their order, with a comma and a space between two, and a
/// number that is absent says so
pub proof fn law_how_a_record_is_listed(b: Seq<u8>, n: nat, v: nat)
    requires
        1 <= n < b.len(),
    ensures
        bytes_wording(b, 0).len() == 0,
        bytes_wording(b, 1) == decimal(b[0] as nat),
        bytes_wording(b, n + 1) == bytes_wording(b, n) + seq![',', ' '] + decimal(
            b[n as int] as nat,
        ),
        maybe_wording(None) == "None"@,
        maybe_wording(Some(v)) == "Some("@ + decimal(v) + ")"@,
{
    reveal_strlit(", ");
    assert(", "@ =~= seq![',', ' ']);
}

/// What a failed transport says, and what a record of a failed command holds, in
/// the order of its fields
pub proof fn law_what_a_transport_says(error: Error, ms: u64, sense: Sense)
    ensures
        error == Error::Timeout(ms) ==> error.wording() == "the scanner did not answer within "@
            + decimal(ms as nat) + " ms"@,
        error is Io ==> error.wording() == "the link to the scanner failed"@,
        sense_wording(None) == "None"@,
        sense_wording(Some(sense)) == "Some("@ + sense.wording() + ")"@,
        sense.tsc is None && sense.information is None && !sense.ili ==> sense.wording()
            == "Sense { key: "@ + decimal(sense.key as nat) + ", asc: "@ + decimal(
            sense.asc as nat,
        ) + ", ascq: "@ + decimal(sense.ascq as nat) + ", tsc: "@ + "None"@ + ", ili: "@ + "false"@
            + ", information: "@ + "None"@ + ", raw: ["@ + bytes_wording(
            sense.raw@,
            sense.raw@.len(),
        ) + "] }"@,
        sense.tsc is Some && sense.information is Some && sense.ili ==> sense.wording()
            == "Sense { key: "@ + decimal(sense.key as nat) + ", asc: "@ + decimal(
            sense.asc as nat,
        ) + ", ascq: "@ + decimal(sense.ascq as nat) + ", tsc: "@ + maybe_wording(
            Some(sense.tsc->0 as nat),
        ) + ", ili: "@ + "true"@ + ", information: "@ + maybe_wording(
            Some(sense.information->0 as nat),
        ) + ", raw: ["@ + bytes_wording(sense.raw@, sense.raw@.len()) + "] }"@,
{
}

} // verus!

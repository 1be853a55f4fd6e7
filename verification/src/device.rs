//! The scanners that are attached, and which one a caller means

use crate::bytes::copied;
use crate::error::Error;
use crate::protocol::caps::identity::Identity;
use crate::protocol::model::Model;
use crate::text::{
    decimal, eq_ignore_ascii_case, is_digit, is_white, push_decimal, same_but_case, same_text,
    spaces, trim_text, trimmed, trimmed_end, trimmed_start,
};
use crate::transport::{self, Completion, Status};
use vstd::prelude::*;

verus! {

/// Where a scanner is
#[derive(Debug, PartialEq, Eq)]
pub enum Attach {
    Usb {
        /// The bus it is on
        bus: String,
        /// Hub port chain, which survives a replug into the same port
        ports: Vec<u8>,
    },
    /// A SCSI generic node, `/dev/sgN`
    Sg(String),
    /// A scanner class node, `\\.\ScannerN`
    Scanner(String),
}

/// A hub port chain with dots between
pub open spec fn chain_wording(ports: Seq<u8>, n: nat) -> Seq<char>
    decreases n,
{
    if n == 0 {
        Seq::empty()
    } else if n == 1 {
        decimal(ports[0] as nat)
    } else {
        chain_wording(ports, (n - 1) as nat) + "."@ + decimal(ports[n - 1] as nat)
    }
}

impl Attach {
    /// The form a list prints and a [`Selector`] accepts
    pub open spec fn wording(&self) -> Seq<char> {
        match self {
            Attach::Usb { bus, ports } => "usb:"@ + bus@ + "-"@ + chain_wording(
                ports@,
                ports@.len(),
            ),
            Attach::Sg(path) => path@,
            Attach::Scanner(path) => path@,
        }
    }

    /// Whether two places are the same
    pub open spec fn same(&self, other: &Attach) -> bool {
        match (self, other) {
            (Attach::Usb { bus: a, ports: p }, Attach::Usb { bus: b, ports: q }) => a@ == b@ && p@
                == q@,
            (Attach::Sg(a), Attach::Sg(b)) => a@ == b@,
            (Attach::Scanner(a), Attach::Scanner(b)) => a@ == b@,
            _ => false,
        }
    }

    /// The form a list prints and a [`Selector`] accepts
    pub fn to_string(&self) -> (r: String)
        ensures
            r@ == self.wording(),
    {
        match self {
            Attach::Usb { bus, ports } => {
                let mut s = String::from_str("usb:");
                s.append(bus.as_str());
                s.append("-");
                let chain = chain_text(ports.as_slice());
                s.append(chain.as_str());
                s
            },
            Attach::Sg(path) => path.as_str().to_owned(),
            Attach::Scanner(path) => path.as_str().to_owned(),
        }
    }

    /// Whether two places are the same
    pub fn is_same(&self, other: &Attach) -> (r: bool)
        ensures
            r == self.same(other),
    {
        match (self, other) {
            (Attach::Usb { bus: a, ports: p }, Attach::Usb { bus: b, ports: q }) => same_text(
                a.as_str(),
                b.as_str(),
            ) && same_ports(p.as_slice(), q.as_slice()),
            (Attach::Sg(a), Attach::Sg(b)) => same_text(a.as_str(), b.as_str()),
            (Attach::Scanner(a), Attach::Scanner(b)) => same_text(a.as_str(), b.as_str()),
            _ => false,
        }
    }
}

/// A hub port chain with dots between
fn chain_text(ports: &[u8]) -> (r: String)
    ensures
        r@ == chain_wording(ports@, ports@.len()),
{
    let mut s = String::new();
    let mut n: usize = 0;
    while n < ports.len()
        invariant
            n <= ports@.len(),
            s@ == chain_wording(ports@, n as nat),
        decreases ports@.len() - n,
    {
        if n > 0 {
            s.append(".");
        }
        push_decimal(&mut s, ports[n] as u64);
        proof {
            if n == 0 {
                assert(s@ =~= decimal(ports@[0] as nat));
            }
        }
        n += 1;
    }
    s
}

/// Whether two hub port chains are the same
fn same_ports(a: &[u8], b: &[u8]) -> (r: bool)
    ensures
        r == (a@ == b@),
{
    if a.len() != b.len() {
        return false;
    }
    let mut n: usize = 0;
    while n < a.len()
        invariant
            n <= a@.len(),
            a@.len() == b@.len(),
            forall|k: int| 0 <= k < n ==> a@[k] == b@[k],
        decreases a@.len() - n,
    {
        if a[n] != b[n] {
            return false;
        }
        n += 1;
    }
    assert(a@ =~= b@);
    true
}

impl Clone for Attach {
    fn clone(&self) -> (r: Attach)
        ensures
            r.same(self),
    {
        match self {
            Attach::Usb { bus, ports } => Attach::Usb {
                bus: bus.clone(),
                ports: copied(ports.as_slice()),
            },
            Attach::Sg(path) => Attach::Sg(path.clone()),
            Attach::Scanner(path) => Attach::Scanner(path.clone()),
        }
    }
}

/// A scanner this library can drive
#[derive(Debug, PartialEq, Eq)]
pub struct Device {
    pub attach: Attach,
    /// From standard INQUIRY, absent for a unit that could not be opened
    pub identity: Option<Identity>,
    /// Which scanner this is, from the product ID where it is on USB and from
    /// the INQUIRY answer otherwise. A USB unit another process is holding
    /// still has one
    pub model: Option<Model>,
}

impl Clone for Device {
    fn clone(&self) -> (r: Device)
        ensures
            r.attach.same(&self.attach),
            match (self.identity, r.identity) {
                (Some(a), Some(b)) => b.same(&a),
                (None, None) => true,
                _ => false,
            },
            r.model == self.model,
    {
        Device {
            attach: self.attach.clone(),
            identity: match &self.identity {
                Some(identity) => Some(identity.clone()),
                None => None,
            },
            model: self.model,
        }
    }
}

impl Device {
    /// What to show a person
    pub open spec fn name_wording(&self) -> Seq<char> {
        match (self.identity, self.model) {
            (Some(id), _) => id.vendor@ + " "@ + id.product@,
            (None, Some(model)) => model.product() + " (in use)"@,
            (None, None) => "(in use)"@,
        }
    }

    /// One line of a list: the name in a column of its own, then where it is
    pub open spec fn wording(&self) -> Seq<char> {
        self.name_wording() + spaces(20 - self.name_wording().len()) + " "@ + self.attach.wording()
    }

    /// What to show a person
    ///
    /// Claiming is exclusive, so a unit in use answers nothing. The bus still
    /// says which model it is.
    pub fn name(&self) -> (r: String)
        ensures
            r@ == self.name_wording(),
    {
        match (&self.identity, self.model) {
            (Some(id), _) => {
                let mut s = id.vendor.as_str().to_owned();
                s.append(" ");
                s.append(id.product.as_str());
                s
            },
            (None, Some(model)) => {
                let mut s = String::from_str(model.name());
                s.append(" (in use)");
                s
            },
            (None, None) => String::from_str("(in use)"),
        }
    }

    /// One line of a list
    pub fn to_string(&self) -> (r: String)
        ensures
            r@ == self.wording(),
    {
        let mut s = self.name();
        let mut len: usize = s.as_str().unicode_len();
        let ghost name = s@;
        proof {
            assert(name + spaces(0) =~= name);
            reveal_strlit(" ");
        }
        while len < 20
            invariant
                name == self.name_wording(),
                len == s@.len(),
                len >= name.len(),
                name.len() <= 20 ==> len <= 20,
                name.len() > 20 ==> len == name.len(),
                s@ == name + spaces(len - name.len()),
                " "@ == seq![' '],
            decreases 20 - len,
        {
            s.append(" ");
            proof {
                assert(s@ =~= name + spaces(len + 1 - name.len()));
            }
            len += 1;
        }
        proof {
            assert(s@ =~= name + spaces(20 - name.len()));
        }
        s.append(" ");
        let at = self.attach.to_string();
        s.append(at.as_str());
        s
    }
}

/// The scanner a reply to INQUIRY comes from, where it is one
///
/// Only what a good command transferred counts, and only a scanner on this LUN
/// is one: most SCSI nodes are disks and optical drives, and the INQUIRY says
/// to leave them alone.
pub fn probe(completion: &Completion, reply: &[u8]) -> (r: Option<Identity>)
    ensures
        ({
            let got = if completion.transferred < reply@.len() {
                reply@.take(completion.transferred as int)
            } else {
                reply@
            };
            match r {
                Some(id) => completion.status == Status::Good && got.len() >= 36 && id.says(got)
                    && id.scans(),
                None => completion.status != Status::Good || got.len() < 36 || got[0] != 0x06,
            }
        }),
{
    if completion.status != Status::Good {
        return None;
    }
    let len: usize = if completion.transferred < reply.len() {
        completion.transferred
    } else {
        reply.len()
    };
    let got: &[u8] = &reply[0..len];
    proof {
        if completion.transferred >= reply@.len() {
            assert(got@ =~= reply@);
        } else {
            assert(got@ =~= reply@.take(completion.transferred as int));
        }
    }
    match Identity::parse(got) {
        Ok(id) => if id.is_scanner() {
            Some(id)
        } else {
            None
        },
        Err(_) => None,
    }
}

/// Whether a name under `/dev` is that of a SCSI generic node: `sg` and a number
pub open spec fn is_sg_name(name: Seq<char>) -> bool {
    &&& name.len() > 2
    &&& name[0] == 's'
    &&& name[1] == 'g'
    &&& forall|i: int| 2 <= i < name.len() ==> is_digit(#[trigger] name[i])
}

/// Whether a name under `/dev` is that of a SCSI generic node
pub fn is_sg_node(name: &str) -> (r: bool)
    ensures
        r == is_sg_name(name@),
{
    let len: usize = name.unicode_len();
    if len <= 2 || name.get_char(0) != 's' || name.get_char(1) != 'g' {
        return false;
    }
    let mut i: usize = 2;
    while i < len
        invariant
            2 <= i <= len,
            len == name@.len(),
            forall|k: int| 2 <= k < i ==> is_digit(#[trigger] name@[k]),
        decreases len - i,
    {
        let c = name.get_char(i);
        if !('0' <= c && c <= '9') {
            assert(!is_digit(name@[i as int]));
            return false;
        }
        i += 1;
    }
    true
}

/// Whether a session that did not open is worth a bus reset and one more try
///
/// A unit an earlier command left mid-transaction sometimes stops answering its
/// bulk endpoints at all, which reads as the very first command timing out. A
/// reset is not guaranteed to clear a unit that is genuinely wedged, but it is
/// worth one try before asking the operator for a power cycle.
pub fn worth_a_reset(e: &Error) -> (r: bool)
    ensures
        r == (e matches Error::Transport(t) && t is Timeout),
{
    match e {
        Error::Transport(transport::Error::Timeout(_)) => true,
        _ => false,
    }
}

/// What to do about a unit that was reset
#[derive(Debug, Clone, Copy, PartialEq, Eq, Structural)]
pub enum Reappearance {
    /// It is back: open it again
    Reopen,
    /// It is not back yet: look again in a moment
    LookAgain,
    /// It had its time
    GiveUp,
}

/// What to do about a unit that was reset, from whether it is on the bus again
/// and whether its time is up
///
/// A bus reset does not reappear on any fixed schedule, so this polls for it
/// rather than guessing a single sleep.
pub fn after_looking(found: bool, late: bool) -> (r: Reappearance)
    ensures
        r == if found {
            Reappearance::Reopen
        } else if late {
            Reappearance::GiveUp
        } else {
            Reappearance::LookAgain
        },
{
    if found {
        Reappearance::Reopen
    } else if late {
        Reappearance::GiveUp
    } else {
        Reappearance::LookAgain
    }
}

/// Which scanner a caller means
///
/// Whatever a list prints in its location column is a valid selector, so there
/// is no translation between what you see and what you type.
#[derive(Debug, PartialEq, Eq)]
pub enum Selector {
    /// Nothing given: the only scanner, if there is exactly one
    Only,
    /// An exact location, as [`Attach`] displays it
    Location(String),
}

impl Clone for Selector {
    fn clone(&self) -> (r: Selector)
        ensures
            match (*self, r) {
                (Selector::Only, Selector::Only) => true,
                (Selector::Location(a), Selector::Location(b)) => b@ == a@,
                _ => false,
            },
    {
        match self {
            Selector::Only => Selector::Only,
            Selector::Location(at) => Selector::Location(at.clone()),
        }
    }
}

/// The devices among the first `n` that a selector takes, in order
pub open spec fn matching(selector: &Selector, devices: Seq<Device>, n: nat) -> Seq<int>
    decreases n,
{
    if n == 0 {
        Seq::empty()
    } else {
        let before = matching(selector, devices, (n - 1) as nat);
        if selector.takes(&devices[n - 1]) {
            before.push(n - 1)
        } else {
            before
        }
    }
}

/// What a selector finds is every device it takes, and nothing else
pub proof fn law_matching_is_exact(selector: &Selector, devices: Seq<Device>, n: nat)
    requires
        n <= devices.len(),
    ensures
        forall|k: int|
            0 <= k < matching(selector, devices, n).len() ==> 0 <= #[trigger] matching(
                selector,
                devices,
                n,
            )[k] < n && selector.takes(&devices[matching(selector, devices, n)[k]]),
        forall|i: int|
            0 <= i < n && selector.takes(&#[trigger] devices[i]) ==> matching(
                selector,
                devices,
                n,
            ).contains(i),
    decreases n,
{
    if n > 0 {
        law_matching_is_exact(selector, devices, (n - 1) as nat);
        let before = matching(selector, devices, (n - 1) as nat);
        let now = matching(selector, devices, n);
        assert forall|i: int|
            0 <= i < n && selector.takes(&#[trigger] devices[i]) implies now.contains(i) by {
            if i < n - 1 {
                assert(before.contains(i));
                let k = choose|k: int| 0 <= k < before.len() && before[k] == i;
                assert(now[k] == i);
            } else {
                assert(now[now.len() - 1] == i);
            }
        }
    }
}

impl Selector {
    /// Whether this takes a device
    pub open spec fn takes(&self, device: &Device) -> bool {
        match self {
            Selector::Only => true,
            Selector::Location(loc) => same_but_case(device.attach.wording(), loc@),
        }
    }

    /// Read a selector: nothing but white space is none given
    pub fn from_str(s: &str) -> (r: Selector)
        ensures
            match r {
                Selector::Only => trimmed(s@).len() == 0,
                Selector::Location(loc) => loc@ == trimmed(s@) && loc@.len() > 0,
            },
    {
        let t = trim_text(s);
        if t.as_str().is_empty() {
            Selector::Only
        } else {
            Selector::Location(t)
        }
    }

    /// Whether this takes a device
    fn accepts(&self, device: &Device) -> (r: bool)
        ensures
            r == self.takes(device),
    {
        match self {
            Selector::Only => true,
            Selector::Location(loc) => {
                let at = device.attach.to_string();
                eq_ignore_ascii_case(at.as_str(), loc.as_str())
            },
        }
    }

    /// What comes of picking the one device a selector refers to: the only match,
    /// or that there is none, or where the several are
    pub open spec fn resolves(&self, devices: Seq<Device>, r: Result<&Device, SelectError>) -> bool {
        let found = matching(self, devices, devices.len());
        match r {
            Ok(device) => found.len() == 1 && *device == devices[found[0]],
            Err(SelectError::NotFound) => found.len() == 0,
            Err(SelectError::Ambiguous(places)) => {
                &&& found.len() >= 2
                &&& places@.len() == found.len()
                &&& forall|k: int|
                    0 <= k < found.len() ==> (#[trigger] places@[k])@
                        == devices[found[k]].attach.wording()
            },
        }
    }

    /// The device this refers to, or the first one found where nothing is given
    pub fn or_first<'a>(&self, devices: &'a [Device]) -> (r: Result<&'a Device, SelectError>)
        ensures
            match self {
                Selector::Only => match r {
                    Ok(device) => devices@.len() > 0 && *device == devices@[0],
                    Err(e) => devices@.len() == 0 && e is NotFound,
                },
                Selector::Location(_) => self.resolves(devices@, r),
            },
    {
        match self {
            Selector::Only => if devices.len() > 0 {
                Ok(&devices[0])
            } else {
                Err(SelectError::NotFound)
            },
            Selector::Location(_) => self.resolve(devices),
        }
    }

    /// Pick the one device this refers to
    pub fn resolve<'a>(&self, devices: &'a [Device]) -> (r: Result<&'a Device, SelectError>)
        ensures
            self.resolves(devices@, r),
    {
        let mut found: Vec<usize> = Vec::new();
        let mut n: usize = 0;
        while n < devices.len()
            invariant
                n <= devices@.len(),
                found@.len() == matching(self, devices@, n as nat).len(),
                forall|k: int|
                    0 <= k < found@.len() ==> (#[trigger] found@[k]) == matching(
                        self,
                        devices@,
                        n as nat,
                    )[k] && found@[k] < n,
            decreases devices@.len() - n,
        {
            if self.accepts(&devices[n]) {
                found.push(n);
            }
            n += 1;
        }
        if found.len() == 1 {
            return Ok(&devices[found[0]]);
        }
        if found.len() == 0 {
            return Err(SelectError::NotFound);
        }
        let mut places: Vec<String> = Vec::new();
        let mut k: usize = 0;
        while k < found.len()
            invariant
                k <= found@.len(),
                forall|j: int| 0 <= j < found@.len() ==> (#[trigger] found@[j]) < devices@.len(),
                places@.len() == k,
                forall|j: int|
                    0 <= j < k ==> (#[trigger] places@[j])@
                        == devices@[found@[j] as int].attach.wording(),
            decreases found@.len() - k,
        {
            places.push(devices[found[k]].attach.to_string());
            k += 1;
        }
        Err(SelectError::Ambiguous(places))
    }
}

#[derive(Debug, PartialEq, Eq)]
pub enum SelectError {
    NotFound,
    Ambiguous(Vec<String>),
}

/// Several texts with commas between
pub open spec fn listed(places: Seq<String>, n: nat) -> Seq<char>
    decreases n,
{
    if n == 0 {
        Seq::empty()
    } else if n == 1 {
        places[0]@
    } else {
        listed(places, (n - 1) as nat) + ", "@ + places[n - 1]@
    }
}

impl SelectError {
    /// Say this to a person
    pub fn message(&self) -> (r: String)
        ensures
            r@ == match self {
                SelectError::NotFound => "no scanner matched"@,
                SelectError::Ambiguous(places) => "more than one scanner matched: "@ + listed(
                    places@,
                    places@.len(),
                ),
            },
    {
        match self {
            SelectError::NotFound => String::from_str("no scanner matched"),
            SelectError::Ambiguous(places) => {
                let mut s = String::from_str("more than one scanner matched: ");
                let ghost head = s@;
                let mut n: usize = 0;
                proof {
                    assert(head + listed(places@, 0) =~= head);
                }
                while n < places.len()
                    invariant
                        n <= places@.len(),
                        s@ == head + listed(places@, n as nat),
                    decreases places@.len() - n,
                {
                    if n > 0 {
                        s.append(", ");
                    }
                    s.append(places[n].as_str());
                    proof {
                        assert(s@ =~= head + listed(places@, (n + 1) as nat));
                    }
                    n += 1;
                }
                s
            },
        }
    }
}

/// A port chain is digits and dots, and no white space
proof fn lemma_chain_has_no_white(ports: Seq<u8>, n: nat)
    requires
        n <= ports.len(),
    ensures
        forall|i: int|
            0 <= i < chain_wording(ports, n).len() ==> !is_white(
                #[trigger] chain_wording(ports, n)[i],
            ),
    decreases n,
{
    if n > 0 {
        lemma_chain_has_no_white(ports, (n - 1) as nat);
        crate::text::lemma_decimal_digits(ports[n - 1] as nat);
        reveal_strlit(".");
        let last = decimal(ports[n - 1] as nat);
        assert(forall|i: int| 0 <= i < last.len() ==> is_digit(#[trigger] last[i]));
        let before = chain_wording(ports, (n - 1) as nat);
        let now = chain_wording(ports, n);
        assert forall|i: int| 0 <= i < now.len() implies !is_white(#[trigger] now[i]) by {
            if n == 1 {
                assert(now[i] == last[i]);
            } else if i < before.len() {
                assert(now[i] == before[i]);
            } else if i == before.len() {
                assert(now[i] == '.');
            } else {
                assert(now[i] == last[i - before.len() - 1]);
            }
        }
    }
}

/// What a list prints for a USB unit is what a selector reads back: typing it
/// gives the location as it was shown
pub proof fn law_listed_location_is_a_selector(attach: Attach)
    requires
        attach is Usb,
    ensures
        trimmed(attach.wording()) == attach.wording(),
        attach.wording().len() > 0,
{
    let bus = attach->bus;
    let ports = attach->ports;
    let s = attach.wording();
    let chain = chain_wording(ports@, ports@.len());
    reveal_strlit("usb:");
    reveal_strlit("-");
    lemma_chain_has_no_white(ports@, ports@.len());
    assert(s[0] == 'u');
    assert(trimmed_start(s) == s);
    if chain.len() == 0 {
        assert(s.last() == '-');
    } else {
        assert(s.last() == chain[chain.len() - 1]);
    }
    assert(trimmed_end(s) == s);
}

/// A device that no other shares its place with, whatever the case, is the one
/// its own location picks
pub proof fn law_a_location_picks_its_device(selector: &Selector, devices: Seq<Device>, i: int)
    requires
        0 <= i < devices.len(),
        *selector matches Selector::Location(loc) && loc@ == devices[i].attach.wording(),
        forall|j: int|
            0 <= j < devices.len() && j != i ==> !same_but_case(
                (#[trigger] devices[j]).attach.wording(),
                devices[i].attach.wording(),
            ),
    ensures
        matching(selector, devices, devices.len()) == seq![i],
{
    lemma_matching_only(selector, devices, i, devices.len());
}

proof fn lemma_matching_only(selector: &Selector, devices: Seq<Device>, i: int, n: nat)
    requires
        n <= devices.len(),
        0 <= i < devices.len(),
        selector.takes(&devices[i]),
        forall|j: int|
            0 <= j < devices.len() && j != i ==> !selector.takes(&#[trigger] devices[j]),
    ensures
        matching(selector, devices, n) == if i < n {
            seq![i]
        } else {
            Seq::<int>::empty()
        },
    decreases n,
{
    if n > 0 {
        lemma_matching_only(selector, devices, i, (n - 1) as nat);
        if n - 1 == i {
            assert(Seq::<int>::empty().push(i) =~= seq![i]);
        } else {
            assert(!selector.takes(&devices[n - 1]));
        }
    }
}

/// Without a selector, a device is picked exactly where there is one
pub proof fn law_no_selector_needs_one_device(devices: Seq<Device>)
    ensures
        matching(&Selector::Only, devices, devices.len()).len() == devices.len(),
{
    lemma_only_takes_all(devices, devices.len());
}

proof fn lemma_only_takes_all(devices: Seq<Device>, n: nat)
    requires
        n <= devices.len(),
    ensures
        matching(&Selector::Only, devices, n).len() == n,
    decreases n,
{
    if n > 0 {
        lemma_only_takes_all(devices, (n - 1) as nat);
    }
}

/// How a place is written: a USB unit by its bus and its chain of ports with
/// dots between, and every other one by its path
pub proof fn law_how_a_place_is_written(attach: Attach, n: nat)
    ensures
        attach matches Attach::Usb { bus, ports } ==> attach.wording() == seq!['u', 's', 'b', ':']
            + bus@ + seq!['-'] + chain_wording(ports@, ports@.len()),
        attach matches Attach::Usb { bus, ports } ==> (1 <= n < ports@.len() ==> chain_wording(
            ports@,
            n + 1,
        ) == chain_wording(ports@, n) + seq!['.'] + decimal(ports@[n as int] as nat)),
        attach matches Attach::Usb { bus, ports } ==> (ports@.len() > 0 ==> chain_wording(ports@, 1)
            == decimal(ports@[0] as nat)),
        attach matches Attach::Sg(path) ==> attach.wording() == path@,
        attach matches Attach::Scanner(path) ==> attach.wording() == path@,
{
    reveal_strlit("usb:");
    reveal_strlit("-");
    reveal_strlit(".");
    assert("usb:"@ =~= seq!['u', 's', 'b', ':']);
    assert("-"@ =~= seq!['-']);
    assert("."@ =~= seq!['.']);
}

/// Two places are the same where they are of one sort and everything they are
/// known by is the same, and then they are written the same
pub proof fn law_the_same_place_is_written_the_same(a: Attach, b: Attach)
    ensures
        a.same(&b) ==> a.wording() == b.wording(),
        a.same(&b) == b.same(&a),
        a.same(&a),
        a is Usb != b is Usb || a is Sg != b is Sg ==> !a.same(&b),
        a is Usb && b is Usb ==> (a.same(&b) <==> a->bus@ == b->bus@ && a->ports@ == b->ports@),
        !(a is Usb) && (a is Sg == b is Sg) && (a is Scanner == b is Scanner) ==> (a.same(&b)
            <==> a.wording() == b.wording()),
{
}

/// A line of a list: the name, blanks up to the twentieth column where it is
/// shorter, one more, and the place
pub proof fn law_how_a_device_is_listed(device: Device)
    ensures
        ({
            let name = device.name_wording();
            let at = if name.len() < 20 {
                21int
            } else {
                name.len() as int + 1
            };
            let line = device.wording();
            &&& line.len() == at + device.attach.wording().len()
            &&& line.take(name.len() as int) == name
            &&& line.skip(at) == device.attach.wording()
            &&& forall|i: int| name.len() <= i < at ==> #[trigger] line[i] == ' '
        }),
        device.identity matches Some(id) ==> device.name_wording() == id.vendor@ + seq![' ']
            + id.product@,
        device.identity is None && device.model is Some ==> device.name_wording()
            == device.model->0.product() + " (in use)"@,
        device.identity is None && device.model is None ==> device.name_wording() == "(in use)"@,
{
    reveal_strlit(" ");
    assert(" "@ =~= seq![' ']);
    let name = device.name_wording();
    let at = if name.len() < 20 {
        21int
    } else {
        name.len() as int + 1
    };
    let line = device.wording();
    assert(line.take(name.len() as int) =~= name);
    assert(line.skip(at) =~= device.attach.wording());
}

/// A node is a SCSI generic one where it is called `sg` and a number follows
pub proof fn law_what_a_node_is_called(digits: Seq<char>)
    requires
        digits.len() > 0,
        forall|i: int| 0 <= i < digits.len() ==> is_digit(#[trigger] digits[i]),
    ensures
        is_sg_name(seq!['s', 'g'] + digits),
        !is_sg_name(seq!['s', 'g']),
        !is_sg_name(digits),
        !is_sg_name(seq!['s', 'g'] + digits + seq!['x']),
{
    let name = seq!['s', 'g'] + digits;
    assert forall|i: int| 2 <= i < name.len() implies is_digit(#[trigger] name[i]) by {
        assert(name[i] == digits[i - 2]);
    }
    let other = name + seq!['x'];
    assert(other[other.len() - 1] == 'x');
    assert(is_digit(digits[0]));
}

/// A node that is a SCSI generic one is called `sg` and a number
pub proof fn law_a_node_has_a_number(name: Seq<char>, i: int)
    requires
        is_sg_name(name),
        2 <= i < name.len(),
    ensures
        name.take(2) == seq!['s', 'g'],
        name.len() >= 3,
        '0' <= name[i] <= '9',
{
    assert(name.take(2) =~= seq!['s', 'g']);
    assert(is_digit(name[i]));
}

/// What a selector finds it finds in the order of the devices
pub proof fn law_matching_keeps_the_order(
    selector: &Selector,
    devices: Seq<Device>,
    n: nat,
    i: int,
    j: int,
)
    requires
        n <= devices.len(),
        0 <= i < j < matching(selector, devices, n).len(),
    ensures
        matching(selector, devices, n)[i] < matching(selector, devices, n)[j],
    decreases n,
{
    law_matching_is_exact(selector, devices, (n - 1) as nat);
    let before = matching(selector, devices, (n - 1) as nat);
    if j < before.len() {
        law_matching_keeps_the_order(selector, devices, (n - 1) as nat, i, j);
    } else {
        assert(before[i] < n - 1);
    }
}

/// A selector with nothing in it takes every device, and one with a place takes
/// the devices there, whatever the case it is written in
pub proof fn law_what_a_selector_takes(selector: &Selector, device: &Device)
    ensures
        selector is Only ==> selector.takes(device),
        *selector matches Selector::Location(loc) ==> (selector.takes(device) <==> same_but_case(
            device.attach.wording(),
            loc@,
        )),
{
}

/// Places are listed in their order, with a comma and a space between two
pub proof fn law_how_places_are_listed(places: Seq<String>, n: nat)
    requires
        1 <= n < places.len(),
    ensures
        listed(places, 1) == places[0]@,
        listed(places, n + 1) == listed(places, n) + seq![',', ' '] + places[n as int]@,
{
    reveal_strlit(", ");
    assert(", "@ =~= seq![',', ' ']);
}

/// A reply is a scanner's where the command was good, 36 bytes of it came, and the
/// first says that it is one and attached
pub proof fn law_what_answers_as_a_scanner(
    completion: &Completion,
    reply: &[u8],
    r: Option<Identity>,
)
    requires
        call_ensures(probe, (completion, reply), r),
    ensures
        r is Some <==> completion.status == Status::Good && completion.transferred >= 36
            && reply@.len() >= 36 && reply@[0] == 6,
{
}

/// A reset is worth it after a timeout and nothing else, and a unit is looked for
/// until it is back or its time is up
pub proof fn law_what_a_reset_is_for(
    e: &Error,
    worth: bool,
    found: bool,
    late: bool,
    r: Reappearance,
)
    requires
        call_ensures(worth_a_reset, (e,), worth),
        call_ensures(after_looking, (found, late), r),
    ensures
        worth <==> (*e matches Error::Transport(t) && t is Timeout),
        r is Reopen <==> found,
        r is GiveUp <==> !found && late,
        r is LookAgain <==> !found && !late,
{
}

/// A selector that resolves does so to the one device it takes; where it takes
/// none there is none, and where it takes several they are named
pub proof fn law_what_a_selector_resolves_to(
    selector: &Selector,
    devices: Seq<Device>,
    r: Result<&Device, SelectError>,
    i: int,
    j: int,
)
    requires
        selector.resolves(devices, r),
        0 <= i < devices.len(),
        0 <= j < devices.len(),
        selector.takes(&devices[i]),
    ensures
        !(r matches Err(SelectError::NotFound)),
        r matches Ok(device) ==> *device == devices[i],
        i != j && selector.takes(&devices[j]) ==> r matches Err(SelectError::Ambiguous(_)),
{
    law_matching_is_exact(selector, devices, devices.len());
    let found = matching(selector, devices, devices.len());
    assert(found.contains(i));
    let a = choose|a: int| 0 <= a < found.len() && found[a] == i;
    if i != j && selector.takes(&devices[j]) {
        assert(found.contains(j));
        let b = choose|b: int| 0 <= b < found.len() && found[b] == j;
        assert(a != b);
    }
}

} // verus!

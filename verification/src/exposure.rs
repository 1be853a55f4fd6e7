//! What each channel of a pass is exposed at
//!
//! Metering decides it frame by frame. A strip that is to come out consistent
//! holds on to what the first frame was given.

use crate::names::{
    channel_from_name, channel_name, channel_named, channel_wording, law_channel_name_round_trip,
};
use crate::protocol::window::{law_channel_round_trip, Channel};
use vstd::prelude::*;

verus! {

/// What each channel is exposed at
#[derive(Debug)]
pub struct Exposures {
    values: Vec<(Channel, u32)>,
}

/// The exposures of a list, where a later one replaces an earlier one
pub open spec fn exposures_in(values: Seq<(Channel, u32)>) -> Map<Channel, u32>
    decreases values.len(),
{
    if values.len() == 0 {
        Map::empty()
    } else {
        exposures_in(values.drop_last()).insert(values.last().0, values.last().1)
    }
}

/// The exposures of a list that goes by names
pub open spec fn exposures_named(by_name: Seq<(String, u32)>) -> Map<Channel, u32>
    decreases by_name.len(),
{
    if by_name.len() == 0 {
        Map::empty()
    } else {
        exposures_named(by_name.drop_last()).insert(
            channel_named(by_name.last().0@),
            by_name.last().1,
        )
    }
}

/// Whether a list gives exposures by name, in the order they are held in
pub open spec fn names_each(by_name: Seq<(String, u32)>, values: Seq<(Channel, u32)>) -> bool {
    by_name.len() == values.len() && forall|i: int|
        0 <= i < values.len() ==> (#[trigger] by_name[i]).0@ == channel_wording(
            Channel::of(values[i].0.id_of()),
        ) && by_name[i].1 == values[i].1
}

impl View for Exposures {
    type V = Map<Channel, u32>;

    open spec fn view(&self) -> Map<Channel, u32> {
        exposures_in(self.listed())
    }
}

/// A channel that is not in a list has no exposure there
proof fn lemma_absent(values: Seq<(Channel, u32)>, channel: Channel)
    requires
        forall|i: int| 0 <= i < values.len() ==> (#[trigger] values[i]).0 != channel,
    ensures
        !exposures_in(values).contains_key(channel),
    decreases values.len(),
{
    if values.len() > 0 {
        assert(values.last() == values[values.len() - 1]);
        lemma_absent(values.drop_last(), channel);
    }
}

/// Changing the one exposure a channel has is replacing it
proof fn lemma_replaced(values: Seq<(Channel, u32)>, i: int, value: u32)
    requires
        0 <= i < values.len(),
        forall|a: int, b: int| 0 <= a < b < values.len() ==> values[a].0 != values[b].0,
    ensures
        exposures_in(values.update(i, (values[i].0, value))) == exposures_in(values).insert(
            values[i].0,
            value,
        ),
    decreases values.len(),
{
    let channel = values[i].0;
    let changed = values.update(i, (channel, value));
    if i == values.len() - 1 {
        assert(changed.drop_last() =~= values.drop_last());
        assert(exposures_in(changed) =~= exposures_in(values).insert(channel, value));
    } else {
        let front = values.drop_last();
        lemma_replaced(front, i, value);
        assert(changed.drop_last() =~= front.update(i, (channel, value)));
        assert(values.last().0 != channel);
        assert(exposures_in(changed) =~= exposures_in(values).insert(channel, value));
    }
}

impl Exposures {
    /// The exposures in the order they are held in
    pub closed spec fn listed(&self) -> Seq<(Channel, u32)> {
        self.values@
    }

    /// Every channel is held once
    #[verifier::type_invariant]
    spec fn each_once(&self) -> bool {
        forall|a: int, b: int|
            0 <= a < b < self.values@.len() ==> self.values@[a].0 != self.values@[b].0
    }

    /// No exposure decided
    pub fn none() -> (r: Exposures)
        ensures
            r@ == Map::<Channel, u32>::empty(),
    {
        Exposures { values: Vec::new() }
    }

    /// Expose a channel at `value`, whatever it was exposed at
    pub fn set(&mut self, channel: Channel, value: u32)
        ensures
            final(self)@ == old(self)@.insert(channel, value),
    {
        proof {
            use_type_invariant(&*self);
        }
        let mut values: Vec<(Channel, u32)> = Vec::new();
        std::mem::swap(&mut values, &mut self.values);
        let mut i: usize = 0;
        while i < values.len()
            invariant
                i <= values@.len(),
                values@ == old(self).values@,
                old(self).each_once(),
                forall|j: int| 0 <= j < i ==> (#[trigger] values@[j]).0 != channel,
            decreases values@.len() - i,
        {
            if values[i].0 == channel {
                proof {
                    lemma_replaced(values@, i as int, value);
                }
                values.set(i, (channel, value));
                self.values = values;
                return ;
            }
            i += 1;
        }
        values.push((channel, value));
        proof {
            assert(values@.drop_last() =~= old(self).values@);
        }
        self.values = values;
    }

    /// What a channel is exposed at, where that is decided
    pub fn get(&self, channel: Channel) -> (r: Option<u32>)
        ensures
            r == if self@.contains_key(channel) {
                Some(self@[channel])
            } else {
                None
            },
    {
        proof {
            use_type_invariant(self);
        }
        let mut i: usize = 0;
        while i < self.values.len()
            invariant
                i <= self.values@.len(),
                self.each_once(),
                forall|j: int| 0 <= j < i ==> (#[trigger] self.values@[j]).0 != channel,
            decreases self.values@.len() - i,
        {
            if self.values[i].0 == channel {
                proof {
                    let held = self.values@[i as int];
                    lemma_replaced(self.values@, i as int, held.1);
                    assert(self.values@.update(i as int, held) =~= self.values@);
                }
                return Some(self.values[i].1);
            }
            i += 1;
        }
        proof {
            lemma_absent(self.values@, channel);
        }
        None
    }

    /// The same exposures again
    pub fn copy(&self) -> (r: Exposures)
        ensures
            r.listed() == self.listed(),
    {
        proof {
            use_type_invariant(self);
        }
        let mut values: Vec<(Channel, u32)> = Vec::new();
        let mut i: usize = 0;
        while i < self.values.len()
            invariant
                i <= self.values@.len(),
                values@ == self.values@.take(i as int),
            decreases self.values@.len() - i,
        {
            values.push(self.values[i]);
            i += 1;
        }
        proof {
            assert(self.values@.take(i as int) =~= self.values@);
        }
        Exposures { values }
    }

    /// The exposures a caller gives by name. Of two for one channel the later
    /// one counts
    pub fn from_names(by_name: &[(String, u32)]) -> (r: Exposures)
        ensures
            r@ == exposures_named(by_name@),
    {
        let mut e = Exposures::none();
        let mut i: usize = 0;
        while i < by_name.len()
            invariant
                i <= by_name@.len(),
                e@ == exposures_named(by_name@.take(i as int)),
            decreases by_name@.len() - i,
        {
            e.set(channel_from_name(by_name[i].0.as_str()), by_name[i].1);
            proof {
                assert(by_name@.take(i + 1).drop_last() =~= by_name@.take(i as int));
            }
            i += 1;
        }
        proof {
            assert(by_name@.take(i as int) =~= by_name@);
        }
        e
    }

    /// The exposures, by name
    pub fn names(&self) -> (r: Vec<(String, u32)>)
        ensures
            names_each(r@, self.listed()),
    {
        let mut out: Vec<(String, u32)> = Vec::new();
        let mut i: usize = 0;
        while i < self.values.len()
            invariant
                i <= self.values@.len(),
                names_each(out@, self.values@.take(i as int)),
            decreases self.values@.len() - i,
        {
            let (channel, value) = self.values[i];
            out.push((channel_name(channel.id()), value));
            i += 1;
        }
        proof {
            assert(self.values@.take(i as int) =~= self.values@);
        }
        out
    }
}

/// Exposures handed out by name and handed back are the exposures there were,
/// where every channel has a name of its own
pub proof fn law_exposures_come_back(by_name: Seq<(String, u32)>, values: Seq<(Channel, u32)>)
    requires
        names_each(by_name, values),
        forall|i: int| 0 <= i < values.len() ==> !((#[trigger] values[i]).0 is Other),
    ensures
        exposures_named(by_name) == exposures_in(values),
    decreases values.len(),
{
    if values.len() > 0 {
        let n = values.len() - 1;
        assert(by_name[n].0@ == channel_wording(Channel::of(values[n].0.id_of())));
        law_channel_round_trip(values[n].0);
        law_channel_name_round_trip(values[n].0);
        law_exposures_come_back(by_name.drop_last(), values.drop_last());
    }
}

/// An exposure that is decided on the first frame and kept for the rest
#[derive(Debug)]
pub struct Lock {
    /// Whether to keep one at all
    locked: bool,
    held: Option<Exposures>,
}

/// What is kept after frames were exposed at `metered`, one after another
pub open spec fn kept(locked: bool, metered: Seq<Map<Channel, u32>>) -> Option<Map<Channel, u32>> {
    if locked && metered.len() > 0 {
        Some(metered[0])
    } else {
        None
    }
}

impl Lock {
    /// Whether to keep one at all
    pub closed spec fn locks(&self) -> bool {
        self.locked
    }

    /// What is kept
    pub closed spec fn keeps(&self) -> Option<Map<Channel, u32>> {
        match self.held {
            Some(e) => Some(e@),
            None => None,
        }
    }

    /// Before the first frame
    pub fn new(locked: bool) -> (r: Lock)
        ensures
            r.locks() == locked,
            r.keeps() == kept(locked, Seq::empty()),
    {
        Lock { locked, held: None }
    }

    /// What the next frame is to be exposed at, where that is not for metering
    /// to decide
    pub fn next(&self) -> (r: Option<&Exposures>)
        ensures
            match r {
                Some(e) => self.keeps() == Some(e@),
                None => self.keeps() is None,
            },
    {
        match &self.held {
            Some(e) => Some(e),
            None => None,
        }
    }

    /// A frame was exposed at `metered`
    pub fn exposed(&mut self, metered: &Exposures)
        ensures
            final(self).locks() == old(self).locks(),
            final(self).keeps() == if old(self).locks() && old(self).keeps() is None {
                Some(metered@)
            } else {
                old(self).keeps()
            },
    {
        if self.locked {
            let empty: bool = match &self.held {
                Some(_) => false,
                None => true,
            };
            if empty {
                self.held = Some(metered.copy());
            }
        }
    }
}

/// However many frames follow, what is kept is what the first one was exposed at
pub proof fn law_the_first_exposure_is_kept(
    locked: bool,
    metered: Seq<Map<Channel, u32>>,
    next: Map<Channel, u32>,
)
    ensures
        kept(locked, metered.push(next)) == if locked && kept(locked, metered) is None {
            Some(next)
        } else {
            kept(locked, metered)
        },
        metered.len() > 0 ==> kept(locked, metered.push(next)) == kept(locked, metered),
{
}

/// Of two exposures for one channel the later one counts, and a channel that is
/// not listed has none
pub proof fn law_the_last_exposure_counts(values: Seq<(Channel, u32)>, i: int, channel: Channel)
    requires
        0 <= i < values.len(),
        values[i].0 == channel,
        forall|j: int| i < j < values.len() ==> (#[trigger] values[j]).0 != channel,
    ensures
        exposures_in(values).contains_key(channel),
        exposures_in(values)[channel] == values[i].1,
    decreases values.len(),
{
    if i < values.len() - 1 {
        assert(values[values.len() - 1].0 != channel);
        law_the_last_exposure_counts(values.drop_last(), i, channel);
    }
}

/// A channel that is not listed has no exposure
pub proof fn law_an_unlisted_channel_has_none(values: Seq<(Channel, u32)>, channel: Channel)
    requires
        forall|j: int| 0 <= j < values.len() ==> (#[trigger] values[j]).0 != channel,
    ensures
        !exposures_in(values).contains_key(channel),
{
    lemma_absent(values, channel);
}

/// Of two exposures whose names refer to one channel the later one counts
pub proof fn law_the_last_name_counts(by_name: Seq<(String, u32)>, i: int, channel: Channel)
    requires
        0 <= i < by_name.len(),
        channel_named(by_name[i].0@) == channel,
        forall|j: int|
            i < j < by_name.len() ==> channel_named((#[trigger] by_name[j]).0@) != channel,
    ensures
        exposures_named(by_name).contains_key(channel),
        exposures_named(by_name)[channel] == by_name[i].1,
    decreases by_name.len(),
{
    if i < by_name.len() - 1 {
        assert(channel_named(by_name[by_name.len() - 1].0@) != channel);
        law_the_last_name_counts(by_name.drop_last(), i, channel);
    }
}

/// A channel that no name refers to has no exposure
pub proof fn law_an_unnamed_channel_has_none(by_name: Seq<(String, u32)>, channel: Channel)
    requires
        forall|j: int|
            0 <= j < by_name.len() ==> channel_named((#[trigger] by_name[j]).0@) != channel,
    ensures
        !exposures_named(by_name).contains_key(channel),
    decreases by_name.len(),
{
    if by_name.len() > 0 {
        assert(channel_named(by_name[by_name.len() - 1].0@) != channel);
        law_an_unnamed_channel_has_none(by_name.drop_last(), channel);
    }
}

/// A lock keeps what the first of the frames was exposed at, and without one
/// nothing is kept
pub proof fn law_what_a_lock_keeps(
    locked: bool,
    first: Map<Channel, u32>,
    more: Seq<Map<Channel, u32>>,
)
    ensures
        locked ==> kept(locked, seq![first] + more) == Some(first),
        !locked ==> kept(locked, seq![first] + more) is None,
        kept(locked, Seq::empty()) is None,
{
}

/// Each exposure is handed out under the name of its channel, in its place
pub proof fn law_exposures_are_named_in_place(
    by_name: Seq<(String, u32)>,
    values: Seq<(Channel, u32)>,
    i: int,
)
    requires
        names_each(by_name, values),
        0 <= i < values.len(),
    ensures
        by_name.len() == values.len(),
        by_name[i].1 == values[i].1,
        by_name[i].0@ == channel_wording(values[i].0) || values[i].0 is Other,
{
    if !(values[i].0 is Other) {
        law_channel_round_trip(values[i].0);
    }
}

} // verus!

//! Report entries and the plain time values they carry.

use vstd::prelude::*;

verus! {

/// An instant, as whole seconds since the Unix epoch and the nanoseconds
/// past that second. Instants are ordered by `seconds`, then by `nanos`.
#[derive(Clone, Copy, Debug, PartialEq, Eq, Structural)]
pub struct Timestamp {
    pub seconds: i64,
    pub nanos: u32,
}

impl Timestamp {
    /// `self` is the same instant as `other` or a later one.
    pub open spec fn at_or_after(self, other: Timestamp) -> bool {
        self.seconds > other.seconds || (self.seconds == other.seconds && self.nanos >= other.nanos)
    }

    /// Decides [`Timestamp::at_or_after`].
    pub fn is_at_or_after(&self, other: &Timestamp) -> (r: bool)
        ensures
            r == self.at_or_after(*other),
    {
        self.seconds > other.seconds || (self.seconds == other.seconds && self.nanos >= other.nanos)
    }
}

/// A day of the calendar.
#[derive(Clone, Copy, Debug, PartialEq, Eq, Structural)]
pub struct CalendarDate {
    pub year: i32,
    pub month: u32,
    pub day: u32,
}

impl CalendarDate {
    /// The month is one of the twelve and the day lies between 1 and 31.
    pub open spec fn in_range(self) -> bool {
        1 <= self.month <= 12 && 1 <= self.day <= 31
    }
}

/// One person's status report. A newer report of the same person replaces
/// it; it is never changed in place.
#[derive(Debug, PartialEq, Eq)]
pub struct ReportEntry {
    pub user_id: String,
    pub display_name: String,
    pub did: String,
    pub plan: String,
    pub blockers: String,
    pub timestamp: Timestamp,
}

/// What a [`ReportEntry`] holds, with each text as its sequence of characters.
pub struct ReportEntryView {
    pub user_id: Seq<char>,
    pub display_name: Seq<char>,
    pub did: Seq<char>,
    pub plan: Seq<char>,
    pub blockers: Seq<char>,
    pub timestamp: Timestamp,
}

impl View for ReportEntry {
    type V = ReportEntryView;

    open spec fn view(&self) -> ReportEntryView {
        ReportEntryView {
            user_id: self.user_id@,
            display_name: self.display_name@,
            did: self.did@,
            plan: self.plan@,
            blockers: self.blockers@,
            timestamp: self.timestamp,
        }
    }
}

impl Clone for ReportEntry {
    fn clone(&self) -> (copy: Self)
        ensures
            copy == *self,
    {
        ReportEntry {
            user_id: self.user_id.clone(),
            display_name: self.display_name.clone(),
            did: self.did.clone(),
            plan: self.plan.clone(),
            blockers: self.blockers.clone(),
            timestamp: self.timestamp,
        }
    }
}

impl ReportEntry {
    /// Whether the report was submitted by `user_id`.
    pub fn is_from(&self, user_id: &String) -> (r: bool)
        ensures
            r == (self@.user_id == user_id@),
    {
        self.user_id == *user_id
    }

    /// Whether two reports agree in every field.
    pub fn same_as(&self, other: &ReportEntry) -> (r: bool)
        ensures
            r == (self@ == other@),
    {
        self.user_id == other.user_id && self.display_name == other.display_name && self.did
            == other.did && self.plan == other.plan && self.blockers == other.blockers
            && self.timestamp.seconds == other.timestamp.seconds && self.timestamp.nanos
            == other.timestamp.nanos
    }
}

/// Looks for the first report of `user_id` in `entries`.
pub fn find_user(entries: &Vec<ReportEntry>, user_id: &String) -> (found: Option<usize>)
    ensures
        match found {
            Some(k) => {
                &&& k < entries.len()
                &&& entries[k as int]@.user_id == user_id@
                &&& forall|i: int| 0 <= i < k ==> (#[trigger] entries[i])@.user_id != user_id@
            },
            None => forall|i: int|
                0 <= i < entries.len() ==> (#[trigger] entries[i])@.user_id != user_id@,
        },
{
    let mut k: usize = 0;
    while k < entries.len()
        invariant
            k <= entries.len(),
            forall|i: int| 0 <= i < k ==> (#[trigger] entries[i])@.user_id != user_id@,
        decreases entries.len() - k,
    {
        if entries[k].is_from(user_id) {
            return Some(k);
        }
        k += 1;
    }
    None
}

/// The views of a sequence of reports, in the same order.
pub open spec fn view_all(entries: Seq<ReportEntry>) -> Seq<ReportEntryView> {
    entries.map_values(|e: ReportEntry| e@)
}

/// No two reports of `entries` come from the same user.
pub open spec fn distinct_users(entries: Seq<ReportEntryView>) -> bool {
    forall|i: int, j: int|
        0 <= i < j < entries.len() ==> (#[trigger] entries[i]).user_id != (
        #[trigger] entries[j]).user_id
}

/// Where users are distinct, they are distinct among all reports but the
/// last, and none of those comes from the user of the last.
pub proof fn lemma_distinct_users_without_last(entries: Seq<ReportEntryView>)
    requires
        distinct_users(entries),
        entries.len() > 0,
    ensures
        distinct_users(entries.drop_last()),
        forall|i: int|
            0 <= i < entries.len() - 1 ==> (#[trigger] entries.drop_last()[i]).user_id
                != entries.last().user_id,
{
    let before = entries.drop_last();
    assert(entries.last() == entries[entries.len() - 1]);
    assert forall|i: int| 0 <= i < before.len() implies (#[trigger] before[i]).user_id
        != entries.last().user_id by {
        assert(before[i] == entries[i]);
    }
    assert forall|a: int, b: int| 0 <= a < b < before.len() implies (#[trigger] before[a]).user_id
        != (#[trigger] before[b]).user_id by {
        assert(before[a] == entries[a]);
        assert(before[b] == entries[b]);
    }
}

} // verus!

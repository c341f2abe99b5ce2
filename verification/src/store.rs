//! The store of pending reports: at most one per user.

use crate::clock::read_local_clock;
use crate::entry::{
    distinct_users, find_user, lemma_distinct_users_without_last, view_all, ReportEntry,
    ReportEntryView, Timestamp,
};
use vstd::prelude::*;

verus! {

/// Holds of every report that does not come from `user`.
pub open spec fn not_from(user: Seq<char>) -> spec_fn(ReportEntryView) -> bool {
    |e: ReportEntryView| e.user_id != user
}

/// The reports after `e` was submitted: what its user reported before is
/// gone, the reports of the others stay as they were, and `e` comes last.
pub open spec fn submitted(entries: Seq<ReportEntryView>, e: ReportEntryView) -> Seq<
    ReportEntryView,
> {
    entries.filter(not_from(e.user_id)).push(e)
}

/// The reports after each of `batch` was submitted, in order.
pub open spec fn submitted_all(
    entries: Seq<ReportEntryView>,
    batch: Seq<ReportEntryView>,
) -> Seq<ReportEntryView>
    decreases batch.len(),
{
    if batch.len() == 0 {
        entries
    } else {
        submitted(submitted_all(entries, batch.drop_last()), batch.last())
    }
}

/// The reports keyed by the users they come from. Where a user has several,
/// the last one is the user's.
pub open spec fn by_user(entries: Seq<ReportEntryView>) -> Map<Seq<char>, ReportEntryView>
    decreases entries.len(),
{
    if entries.len() == 0 {
        Map::empty()
    } else {
        by_user(entries.drop_last()).insert(entries.last().user_id, entries.last())
    }
}

/// Removing the reports of a user who has none changes nothing.
pub proof fn lemma_filter_without_match(entries: Seq<ReportEntryView>, user: Seq<char>)
    requires
        forall|i: int| 0 <= i < entries.len() ==> (#[trigger] entries[i]).user_id != user,
    ensures
        entries.filter(not_from(user)) == entries,
    decreases entries.len(),
{
    reveal(Seq::filter);
    if entries.len() > 0 {
        let before = entries.drop_last();
        assert forall|i: int| 0 <= i < before.len() implies (#[trigger] before[i]).user_id
            != user by {
            assert(before[i] == entries[i]);
        }
        lemma_filter_without_match(before, user);
        assert(entries.last() == entries[entries.len() - 1]);
        assert(before.push(entries.last()) =~= entries);
    } else {
        assert(entries.filter(not_from(user)) =~= entries);
    }
}

/// Where users are distinct, removing the reports of a user removes the one
/// report that the user has.
pub proof fn lemma_filter_with_match(entries: Seq<ReportEntryView>, user: Seq<char>, k: int)
    requires
        distinct_users(entries),
        0 <= k < entries.len(),
        entries[k].user_id == user,
    ensures
        entries.filter(not_from(user)) == entries.remove(k),
    decreases entries.len(),
{
    reveal(Seq::filter);
    let before = entries.drop_last();
    let last = entries.last();
    assert(last == entries[entries.len() - 1]);
    assert forall|i: int| 0 <= i < before.len() implies #[trigger] before[i] == entries[i] by {}
    if k == entries.len() - 1 {
        assert forall|i: int| 0 <= i < before.len() implies (#[trigger] before[i]).user_id
            != user by {
            assert(before[i] == entries[i]);
        }
        lemma_filter_without_match(before, user);
        assert(before =~= entries.remove(k));
    } else {
        lemma_distinct_users_without_last(entries);
        assert(before[k] == entries[k]);
        lemma_filter_with_match(before, user, k);
        assert(entries[k].user_id != last.user_id);
        assert(before.remove(k).push(last) =~= entries.remove(k));
    }
}

/// After a submission users are distinct, if they were before, and only the
/// last report comes from the user who submitted.
pub proof fn lemma_submitted_keeps_users_distinct(
    entries: Seq<ReportEntryView>,
    e: ReportEntryView,
)
    requires
        distinct_users(entries),
    ensures
        distinct_users(submitted(entries, e)),
        submitted(entries, e).last() == e,
        forall|i: int|
            0 <= i < submitted(entries, e).len() - 1 ==> (#[trigger] submitted(
                entries,
                e,
            )[i]).user_id != e.user_id,
{
    let kept = entries.filter(not_from(e.user_id));
    if exists|k: int| 0 <= k < entries.len() && (#[trigger] entries[k]).user_id == e.user_id {
        let k = choose|k: int| 0 <= k < entries.len() && (#[trigger] entries[k]).user_id == e.user_id;
        lemma_filter_with_match(entries, e.user_id, k);
        assert forall|i: int| 0 <= i < kept.len() implies (#[trigger] kept[i]).user_id
            != e.user_id by {
            if i < k {
                assert(kept[i] == entries[i]);
            } else {
                assert(kept[i] == entries[i + 1]);
            }
        }
        assert forall|a: int, b: int| 0 <= a < b < kept.len() implies (#[trigger] kept[a]).user_id
            != (#[trigger] kept[b]).user_id by {
            let a0 = if a < k { a } else { a + 1 };
            let b0 = if b < k { b } else { b + 1 };
            assert(kept[a] == entries[a0]);
            assert(kept[b] == entries[b0]);
        }
    } else {
        lemma_filter_without_match(entries, e.user_id);
    }
    let after = submitted(entries, e);
    assert forall|a: int, b: int| 0 <= a < b < after.len() implies (#[trigger] after[a]).user_id
        != (#[trigger] after[b]).user_id by {
        assert(after[a] == kept[a]);
        if b < kept.len() {
            assert(after[b] == kept[b]);
        }
    }
    assert forall|i: int| 0 <= i < after.len() - 1 implies (#[trigger] after[i]).user_id
        != e.user_id by {
        assert(after[i] == kept[i]);
    }
}

/// Leaving out the reports of `user` removes the key `user` and nothing
/// else.
pub proof fn lemma_filter_removes_key(entries: Seq<ReportEntryView>, user: Seq<char>)
    ensures
        by_user(entries.filter(not_from(user))) == by_user(entries).remove(user),
    decreases entries.len(),
{
    reveal(Seq::filter);
    if entries.len() == 0 {
        assert(by_user(entries).remove(user) =~= Map::empty());
    } else {
        let before = entries.drop_last();
        let last = entries.last();
        lemma_filter_removes_key(before, user);
        if last.user_id == user {
            assert(by_user(before).insert(user, last).remove(user) =~= by_user(before).remove(user));
        } else {
            let kept = before.filter(not_from(user));
            let moved = by_user(before).insert(last.user_id, last).remove(user);
            assert(kept.push(last).drop_last() =~= kept);
            assert(by_user(before).remove(user).insert(last.user_id, last) =~= moved);
        }
    }
}

/// Keyed by user, a submission puts the report under its user and leaves
/// every other user's report as it was.
pub proof fn lemma_submission_is_insertion(entries: Seq<ReportEntryView>, e: ReportEntryView)
    ensures
        by_user(submitted(entries, e)) == by_user(entries).insert(e.user_id, e),
{
    let kept = entries.filter(not_from(e.user_id));
    let inserted = by_user(entries).insert(e.user_id, e);
    lemma_filter_removes_key(entries, e.user_id);
    assert(kept.push(e).drop_last() =~= kept);
    assert(by_user(entries).remove(e.user_id).insert(e.user_id, e) =~= inserted);
}

/// Of two submissions of one user only the second stays: the store is as if
/// the first had never been made, the second is its last report, and no
/// other report comes from that user. A store that was empty holds the
/// second submission and nothing else.
pub proof fn lemma_second_submission_replaces_first(
    entries: Seq<ReportEntryView>,
    first: ReportEntryView,
    second: ReportEntryView,
)
    requires
        first.user_id == second.user_id,
    ensures
        submitted(submitted(entries, first), second) == submitted(entries, second),
        submitted(entries, second).last() == second,
        forall|i: int|
            0 <= i < submitted(entries, second).len() - 1 ==> (#[trigger] submitted(
                entries,
                second,
            )[i]).user_id != second.user_id,
        submitted(submitted(Seq::empty(), first), second) == seq![second],
{
    let user = second.user_id;
    let kept = entries.filter(not_from(user));
    assert forall|i: int| 0 <= i < kept.len() implies (#[trigger] kept[i]).user_id != user by {
        entries.lemma_filter_pred(not_from(user), i);
    }
    lemma_filter_without_match(kept, user);
    assert(kept.push(first).filter(not_from(user)) == kept) by {
        reveal(Seq::filter);
        assert(kept.push(first).drop_last() =~= kept);
    }
    assert(Seq::<ReportEntryView>::empty().filter(not_from(user)) =~= Seq::empty()) by {
        reveal(Seq::filter);
    }
    assert(submitted(submitted(Seq::empty(), first), second) =~= seq![second]) by {
        reveal(Seq::filter);
        let one = Seq::<ReportEntryView>::empty().push(first);
        assert(one.drop_last() =~= Seq::<ReportEntryView>::empty());
    }
    let after = submitted(entries, second);
    assert forall|i: int| 0 <= i < after.len() - 1 implies (#[trigger] after[i]).user_id
        != user by {
        assert(after[i] == kept[i]);
    }
}

/// Submissions of users who are distinct from each other and from the users
/// of the store all stay, in the order in which they came, and the reports
/// that the store held stay as well.
pub proof fn lemma_submissions_of_distinct_users_stay(
    entries: Seq<ReportEntryView>,
    batch: Seq<ReportEntryView>,
)
    requires
        distinct_users(entries + batch),
    ensures
        submitted_all(entries, batch) == entries + batch,
        submitted_all(entries, batch).len() == entries.len() + batch.len(),
    decreases batch.len(),
{
    if batch.len() == 0 {
        assert(entries + batch =~= entries);
    } else {
        let all = entries + batch;
        let before = entries + batch.drop_last();
        assert(before =~= all.drop_last());
        assert(batch.last() == all.last());
        lemma_distinct_users_without_last(all);
        lemma_submissions_of_distinct_users_stay(entries, batch.drop_last());
        lemma_filter_without_match(before, batch.last().user_id);
        assert(before.push(batch.last()) =~= all);
    }
}

/// Where users are distinct, the keys are the users who reported and each
/// key leads to that user's report.
pub proof fn lemma_by_user_of_distinct(entries: Seq<ReportEntryView>)
    requires
        distinct_users(entries),
    ensures
        forall|i: int|
            0 <= i < entries.len() ==> by_user(entries).contains_pair(
                (#[trigger] entries[i]).user_id,
                entries[i],
            ),
        forall|user: Seq<char>| #[trigger]
            by_user(entries).dom().contains(user) ==> exists|i: int|
                0 <= i < entries.len() && (#[trigger] entries[i]).user_id == user,
    decreases entries.len(),
{
    if entries.len() > 0 {
        let before = entries.drop_last();
        let last = entries.last();
        lemma_distinct_users_without_last(entries);
        lemma_by_user_of_distinct(before);
        assert(last == entries[entries.len() - 1]);
        assert forall|i: int| 0 <= i < entries.len() implies by_user(entries).contains_pair(
            (#[trigger] entries[i]).user_id,
            entries[i],
        ) by {
            if i < before.len() {
                assert(before[i] == entries[i]);
                assert(before[i].user_id != last.user_id);
            }
        }
        assert forall|user: Seq<char>| #[trigger]
            by_user(entries).dom().contains(user) implies exists|i: int|
            0 <= i < entries.len() && (#[trigger] entries[i]).user_id == user by {
            if user != last.user_id {
                assert(by_user(before).dom().contains(user));
                let i = choose|i: int| 0 <= i < before.len() && (#[trigger] before[i]).user_id == user;
                assert(entries[i] == before[i]);
            }
        }
    }
}

/// The order in which distinct users submit does not decide what the store
/// holds: two orders of the same submissions leave the same reports, one for
/// each user.
pub proof fn lemma_order_of_submissions(a: Seq<ReportEntryView>, b: Seq<ReportEntryView>)
    requires
        distinct_users(a),
        distinct_users(b),
        a.to_multiset() == b.to_multiset(),
    ensures
        submitted_all(Seq::empty(), a).len() == a.len(),
        submitted_all(Seq::empty(), b).len() == a.len(),
        submitted_all(Seq::empty(), a).to_multiset() == submitted_all(Seq::empty(), b).to_multiset(),
        by_user(submitted_all(Seq::empty(), a)) == by_user(submitted_all(Seq::empty(), b)),
{
    let empty = Seq::<ReportEntryView>::empty();
    assert(empty + a =~= a);
    assert(empty + b =~= b);
    lemma_submissions_of_distinct_users_stay(empty, a);
    lemma_submissions_of_distinct_users_stay(empty, b);
    a.to_multiset_ensures();
    b.to_multiset_ensures();
    lemma_same_reports_same_keys(a, b);
    lemma_same_reports_same_keys(b, a);
    assert(by_user(a) =~= by_user(b));
}

/// Where two stores with distinct users hold the same reports, every key of
/// the one is a key of the other and leads to the same report.
proof fn lemma_same_reports_same_keys(a: Seq<ReportEntryView>, b: Seq<ReportEntryView>)
    requires
        distinct_users(a),
        distinct_users(b),
        a.to_multiset() == b.to_multiset(),
    ensures
        forall|user: Seq<char>| #[trigger]
            by_user(a).dom().contains(user) ==> by_user(b).contains_pair(user, by_user(a)[user]),
{
    lemma_by_user_of_distinct(a);
    lemma_by_user_of_distinct(b);
    a.to_multiset_ensures();
    b.to_multiset_ensures();
    assert forall|user: Seq<char>| #[trigger]
        by_user(a).dom().contains(user) implies by_user(b).contains_pair(user, by_user(a)[user]) by {
        let i = choose|i: int| 0 <= i < a.len() && (#[trigger] a[i]).user_id == user;
        assert(by_user(a).contains_pair(a[i].user_id, a[i]));
        assert(a.contains(a[i]));
        assert(b.to_multiset().count(a[i]) > 0);
        assert(b.contains(a[i]));
        let j = choose|j: int| 0 <= j < b.len() && b[j] == a[i];
        assert(by_user(b).contains_pair(b[j].user_id, b[j]));
    }
}

/// The pending reports, at most one per user, in the order in which they
/// were submitted.
#[derive(Debug, PartialEq, Eq)]
pub struct EntryStore {
    entries: Vec<ReportEntry>,
}

impl View for EntryStore {
    type V = Seq<ReportEntryView>;

    closed spec fn view(&self) -> Seq<ReportEntryView> {
        view_all(self.entries@)
    }
}

impl EntryStore {
    #[verifier::type_invariant]
    spec fn one_report_per_user(self) -> bool {
        distinct_users(view_all(self.entries@))
    }

    /// An empty store.
    pub fn new() -> (store: EntryStore)
        ensures
            store@ == Seq::<ReportEntryView>::empty(),
    {
        let store = EntryStore { entries: Vec::new() };
        proof {
            assert(store@ =~= Seq::<ReportEntryView>::empty());
        }
        store
    }

    /// A store that holds `entries`, if no two of them come from one user.
    pub fn from_entries(entries: Vec<ReportEntry>) -> (store: Option<EntryStore>)
        ensures
            store is Some <==> distinct_users(view_all(entries@)),
            store matches Some(s) ==> s@ == view_all(entries@),
    {
        if has_distinct_users(&entries) {
            Some(EntryStore { entries })
        } else {
            None
        }
    }

    /// Submits `entry`: removes what its user reported before and adds it.
    pub fn upsert(&mut self, entry: ReportEntry)
        ensures
            final(self)@ == submitted(old(self)@, entry@),
            by_user(final(self)@) == by_user(old(self)@).insert(entry@.user_id, entry@),
            distinct_users(final(self)@),
    {
        proof {
            use_type_invariant(&*self);
            lemma_submission_is_insertion(view_all(self.entries@), entry@);
        }
        let ghost before = view_all(self.entries@);
        let mut entries: Vec<ReportEntry> = Vec::new();
        proof {
            assert(view_all(entries@) =~= Seq::<ReportEntryView>::empty());
        }
        core::mem::swap(&mut self.entries, &mut entries);
        match find_user(&entries, &entry.user_id) {
            Some(k) => {
                proof {
                    assert(before[k as int] == entries[k as int]@);
                    lemma_filter_with_match(before, entry@.user_id, k as int);
                }
                entries.remove(k);
                proof {
                    assert(view_all(entries@) =~= before.remove(k as int));
                }
            },
            None => {
                proof {
                    assert forall|i: int| 0 <= i < before.len() implies (#[trigger] before[i]).user_id
                        != entry@.user_id by {
                        assert(before[i] == entries[i]@);
                    }
                    lemma_filter_without_match(before, entry@.user_id);
                }
            },
        }
        proof {
            lemma_submitted_keeps_users_distinct(before, entry@);
            assert(view_all(entries@.push(entry)) =~= submitted(before, entry@));
        }
        entries.push(entry);
        self.entries = entries;
    }

    /// Submits a report of `user_id` with the local time now as its
    /// timestamp, which is returned.
    pub fn submit(
        &mut self,
        user_id: String,
        display_name: String,
        did: String,
        plan: String,
        blockers: String,
    ) -> (at: Timestamp)
        ensures
            final(self)@ == submitted(
                old(self)@,
                ReportEntryView {
                    user_id: user_id@,
                    display_name: display_name@,
                    did: did@,
                    plan: plan@,
                    blockers: blockers@,
                    timestamp: at,
                },
            ),
            distinct_users(final(self)@),
            at.nanos < 2_000_000_000,
    {
        let now = read_local_clock();
        self.upsert(
            ReportEntry { user_id, display_name, did, plan, blockers, timestamp: now.timestamp },
        );
        now.timestamp
    }

    /// A copy of the reports, and whether there are none. The store is left
    /// as it is.
    pub fn snapshot_and_is_empty(&self) -> (snapshot: (Vec<ReportEntry>, bool))
        ensures
            view_all(snapshot.0@) == self@,
            snapshot.1 == (self@.len() == 0),
            distinct_users(self@),
    {
        proof {
            use_type_invariant(self);
        }
        let copy = copy_entries(&self.entries);
        let none = self.entries.len() == 0;
        (copy, none)
    }

    /// Removes every report.
    pub fn clear(&mut self)
        ensures
            final(self)@ == Seq::<ReportEntryView>::empty(),
    {
        let empty: Vec<ReportEntry> = Vec::new();
        proof {
            assert(view_all(empty@) =~= Seq::<ReportEntryView>::empty());
        }
        self.entries = empty;
    }

    /// The number of reports, which is the number of users who reported.
    pub fn len(&self) -> (n: usize)
        ensures
            n == self@.len(),
    {
        self.entries.len()
    }

    /// Whether no report is pending.
    pub fn is_empty(&self) -> (none: bool)
        ensures
            none == (self@.len() == 0),
    {
        self.entries.len() == 0
    }

    /// The pending report of `user_id`, if there is one.
    pub fn report_of(&self, user_id: &String) -> (found: Option<ReportEntry>)
        ensures
            match found {
                Some(e) => self@.contains(e@) && e@.user_id == user_id@,
                None => forall|i: int| 0 <= i < self@.len() ==> (#[trigger] self@[i]).user_id
                    != user_id@,
            },
            distinct_users(self@),
    {
        proof {
            use_type_invariant(self);
        }
        match find_user(&self.entries, user_id) {
            Some(k) => {
                let e = self.entries[k].clone();
                proof {
                    assert(self@[k as int] == e@);
                }
                Some(e)
            },
            None => {
                proof {
                    assert forall|i: int| 0 <= i < self@.len() implies (#[trigger] self@[i]).user_id
                        != user_id@ by {
                        assert(self@[i] == self.entries[i]@);
                    }
                }
                None
            },
        }
    }
}

/// Copies `entries`, report by report.
pub fn copy_entries(entries: &Vec<ReportEntry>) -> (copy: Vec<ReportEntry>)
    ensures
        copy@ == entries@,
{
    let mut copy: Vec<ReportEntry> = Vec::new();
    let mut i: usize = 0;
    while i < entries.len()
        invariant
            i <= entries.len(),
            copy@ == entries@.take(i as int),
        decreases entries.len() - i,
    {
        copy.push(entries[i].clone());
        proof {
            assert(copy@ =~= entries@.take(i + 1));
        }
        i += 1;
    }
    proof {
        assert(entries@.take(entries.len() as int) =~= entries@);
    }
    copy
}

/// Decides whether no two of `entries` come from one user.
pub fn has_distinct_users(entries: &Vec<ReportEntry>) -> (distinct: bool)
    ensures
        distinct == distinct_users(view_all(entries@)),
{
    let ghost all = view_all(entries@);
    let mut j: usize = 0;
    while j < entries.len()
        invariant
            j <= entries.len(),
            all == view_all(entries@),
            distinct_users(all.take(j as int)),
        decreases entries.len() - j,
    {
        let mut i: usize = 0;
        while i < j
            invariant
                i <= j < entries.len(),
                all == view_all(entries@),
                forall|a: int| 0 <= a < i ==> (#[trigger] all[a]).user_id != all[j as int].user_id,
            decreases j - i,
        {
            if entries[i].is_from(&entries[j].user_id) {
                proof {
                    assert(all[i as int].user_id == all[j as int].user_id);
                }
                return false;
            }
            i += 1;
        }
        proof {
            let wider = all.take(j + 1);
            assert forall|a: int, b: int| 0 <= a < b < wider.len() implies (#[trigger] wider[a]).user_id
                != (#[trigger] wider[b]).user_id by {
                if b < j {
                    assert(all.take(j as int)[a] == wider[a]);
                    assert(all.take(j as int)[b] == wider[b]);
                } else {
                    assert(wider[a] == all[a]);
                }
            }
        }
        j += 1;
    }
    proof {
        assert(all.take(entries.len() as int) =~= all);
    }
    true
}

} // verus!

//! Composes the digest text from a snapshot of reports.
//!
//! The digest shows one section per user, in the order in which the users
//! first occur in the snapshot. Where a snapshot holds several reports of one
//! user, the section shows the latest of them.

use crate::entry::{
    distinct_users, find_user, lemma_distinct_users_without_last, view_all, ReportEntry,
    ReportEntryView,
};
use vstd::prelude::*;

verus! {

/// The user identities that occur in `entries`, each once, in the order of
/// their first occurrence.
pub open spec fn users_in_order(entries: Seq<ReportEntryView>) -> Seq<Seq<char>>
    decreases entries.len(),
{
    if entries.len() == 0 {
        Seq::empty()
    } else {
        let before = users_in_order(entries.drop_last());
        let user = entries.last().user_id;
        if before.contains(user) {
            before
        } else {
            before.push(user)
        }
    }
}

/// The report of `user` that counts: the one with the latest timestamp, and
/// of several with that timestamp the one that comes last in `entries`.
/// `None` where `entries` holds no report of `user`.
pub open spec fn latest_of(entries: Seq<ReportEntryView>, user: Seq<char>) -> Option<
    ReportEntryView,
>
    decreases entries.len(),
{
    if entries.len() == 0 {
        None
    } else {
        let earlier = latest_of(entries.drop_last(), user);
        let e = entries.last();
        if e.user_id == user && (earlier is None || e.timestamp.at_or_after(
            earlier.unwrap().timestamp,
        )) {
            Some(e)
        } else {
            earlier
        }
    }
}

/// For each user of `entries`, in order of first occurrence, the report that
/// counts.
pub open spec fn latest_per_user(entries: Seq<ReportEntryView>) -> Seq<ReportEntryView> {
    users_in_order(entries).map_values(|user: Seq<char>| latest_of(entries, user).unwrap())
}

/// The line that opens every digest.
pub open spec fn header_text() -> Seq<char> {
    "# Daily Standup Summary\n\n"@
}

/// The section of one report: a title line with the display name, then the
/// three fields as they were submitted, then an empty line.
pub open spec fn section_text(e: ReportEntryView) -> Seq<char> {
    "## "@ + e.display_name + "\n**Did:** "@ + e.did + "\n**Plan:** "@ + e.plan
        + "\n**Blockers:** "@ + e.blockers + "\n\n"@
}

/// The sections of `entries`, one after the other.
pub open spec fn sections_text(entries: Seq<ReportEntryView>) -> Seq<char>
    decreases entries.len(),
{
    if entries.len() == 0 {
        Seq::empty()
    } else {
        sections_text(entries.drop_last()) + section_text(entries.last())
    }
}

/// The digest of a snapshot that holds at least one report.
pub open spec fn digest_text(entries: Seq<ReportEntryView>) -> Seq<char> {
    header_text() + sections_text(latest_per_user(entries))
}

/// The report of `entries` at position `k` is the one that counts for
/// `user`: it is the user's own, none of the user's reports is later, and
/// those that come after it are earlier.
pub open spec fn counts_at(entries: Seq<ReportEntryView>, user: Seq<char>, k: int) -> bool {
    &&& 0 <= k < entries.len()
    &&& entries[k].user_id == user
    &&& forall|i: int|
        0 <= i < entries.len() && (#[trigger] entries[i]).user_id == user
            ==> entries[k].timestamp.at_or_after(entries[i].timestamp)
    &&& forall|i: int|
        k < i < entries.len() && (#[trigger] entries[i]).user_id == user
            ==> !entries[i].timestamp.at_or_after(entries[k].timestamp)
}

/// What `latest_of` picks: nothing where the user has no report, else the
/// report at the one position that counts.
pub proof fn lemma_latest_of_is_latest(entries: Seq<ReportEntryView>, user: Seq<char>)
    ensures
        match latest_of(entries, user) {
            None => forall|i: int|
                0 <= i < entries.len() ==> (#[trigger] entries[i]).user_id != user,
            Some(e) => exists|k: int| #[trigger] counts_at(entries, user, k) && entries[k] == e,
        },
    decreases entries.len(),
{
    if entries.len() > 0 {
        let before = entries.drop_last();
        let last = entries.last();
        let n = before.len() as int;
        lemma_latest_of_is_latest(before, user);
        assert forall|i: int| 0 <= i < n implies #[trigger] before[i] == entries[i] by {}
        assert(last == entries[n]);
        match latest_of(before, user) {
            None => {
                if last.user_id == user {
                    assert forall|i: int|
                        0 <= i < entries.len() && (#[trigger] entries[i]).user_id
                            == user implies entries[n].timestamp.at_or_after(
                        entries[i].timestamp,
                    ) by {
                        if i < n {
                            assert(before[i].user_id != user);
                        }
                    }
                    assert(counts_at(entries, user, n));
                } else {
                    assert forall|i: int| 0 <= i < entries.len() implies (#[trigger] entries[i]).user_id
                        != user by {
                        if i < n {
                            assert(before[i].user_id != user);
                        }
                    }
                }
            },
            Some(e) => {
                let k = choose|k: int| #[trigger] counts_at(before, user, k) && before[k] == e;
                if last.user_id == user && last.timestamp.at_or_after(e.timestamp) {
                    assert forall|i: int|
                        0 <= i < entries.len() && (#[trigger] entries[i]).user_id
                            == user implies entries[n].timestamp.at_or_after(
                        entries[i].timestamp,
                    ) by {
                        if i < n {
                            assert(before[i].user_id == user);
                            assert(before[k].timestamp.at_or_after(before[i].timestamp));
                        }
                    }
                    assert(counts_at(entries, user, n));
                } else {
                    assert forall|i: int|
                        0 <= i < entries.len() && (#[trigger] entries[i]).user_id
                            == user implies entries[k].timestamp.at_or_after(
                        entries[i].timestamp,
                    ) by {
                        if i < n {
                            assert(before[i].user_id == user);
                            assert(before[k].timestamp.at_or_after(before[i].timestamp));
                        }
                    }
                    assert forall|i: int|
                        k < i < entries.len() && (#[trigger] entries[i]).user_id
                            == user implies !entries[i].timestamp.at_or_after(
                        entries[k].timestamp,
                    ) by {
                        if i < n {
                            assert(before[i].user_id == user);
                            assert(!before[i].timestamp.at_or_after(before[k].timestamp));
                        }
                    }
                    assert(counts_at(entries, user, k));
                }
            },
        }
    }
}

/// How the users and the reports that count change when one more report
/// arrives.
pub proof fn lemma_one_more_report(entries: Seq<ReportEntryView>, e: ReportEntryView)
    ensures
        users_in_order(entries.push(e)) == if users_in_order(entries).contains(e.user_id) {
            users_in_order(entries)
        } else {
            users_in_order(entries).push(e.user_id)
        },
        forall|user: Seq<char>|
            #[trigger] latest_of(entries.push(e), user) == if e.user_id == user && (latest_of(
                entries,
                user,
            ) is None || e.timestamp.at_or_after(latest_of(entries, user).unwrap().timestamp)) {
                Some(e)
            } else {
                latest_of(entries, user)
            },
{
    assert(entries.push(e).drop_last() =~= entries);
}

/// Every user in `users_in_order` has a report that counts, and it is one of
/// that user's own.
pub proof fn lemma_listed_users_have_reports(entries: Seq<ReportEntryView>)
    ensures
        forall|k: int|
            0 <= k < users_in_order(entries).len() ==> {
                &&& (#[trigger] latest_of(entries, users_in_order(entries)[k])) is Some
                &&& latest_of(entries, users_in_order(entries)[k]).unwrap().user_id
                    == users_in_order(entries)[k]
            },
        forall|i: int|
            0 <= i < entries.len() ==> users_in_order(entries).contains(
                (#[trigger] entries[i]).user_id,
            ),
        forall|k: int, l: int|
            0 <= k < l < users_in_order(entries).len() ==> (#[trigger] users_in_order(entries)[k])
                != (#[trigger] users_in_order(entries)[l]),
    decreases entries.len(),
{
    if entries.len() > 0 {
        let before = entries.drop_last();
        let e = entries.last();
        lemma_listed_users_have_reports(before);
        lemma_reports_are_own(entries);
        let users = users_in_order(entries);
        let users_before = users_in_order(before);
        assert forall|k: int| 0 <= k < users.len() implies {
            &&& (#[trigger] latest_of(entries, users[k])) is Some
            &&& latest_of(entries, users[k]).unwrap().user_id == users[k]
        } by {
            if k < users_before.len() {
                assert(users[k] == users_before[k]);
                assert(latest_of(before, users_before[k]) is Some);
            }
        }
        assert forall|i: int| 0 <= i < entries.len() implies users.contains(
            (#[trigger] entries[i]).user_id,
        ) by {
            if i < before.len() {
                assert(before[i] == entries[i]);
                assert(users_before.contains(before[i].user_id));
                let k = choose|k: int|
                    0 <= k < users_before.len() && users_before[k] == before[i].user_id;
                assert(users[k] == entries[i].user_id);
            } else {
                if users_before.contains(e.user_id) {
                } else {
                    assert(users[users.len() - 1] == e.user_id);
                }
            }
        }
    }
}

/// A report that counts for `user` is one of `user`'s own.
pub proof fn lemma_reports_are_own(entries: Seq<ReportEntryView>)
    ensures
        forall|user: Seq<char>|
            (#[trigger] latest_of(entries, user)) is Some ==> latest_of(
                entries,
                user,
            ).unwrap().user_id == user,
    decreases entries.len(),
{
    if entries.len() > 0 {
        lemma_reports_are_own(entries.drop_last());
        assert forall|user: Seq<char>| (#[trigger] latest_of(entries, user)) is Some implies latest_of(
            entries,
            user,
        ).unwrap().user_id == user by {
            let earlier = latest_of(entries.drop_last(), user);
            if latest_of(entries, user) == earlier {
                assert(earlier is Some);
            }
        }
    }
}

/// The report that counts for a user who submitted only once is that
/// submission, and a user who submitted nothing has none.
pub proof fn lemma_latest_of_single(entries: Seq<ReportEntryView>, i: int)
    requires
        distinct_users(entries),
        0 <= i < entries.len(),
    ensures
        latest_of(entries, entries[i].user_id) == Some(entries[i]),
    decreases entries.len(),
{
    let before = entries.drop_last();
    lemma_distinct_users_without_last(entries);
    if i == entries.len() - 1 {
        lemma_absent_user_has_none(before, entries[i].user_id);
    } else {
        assert(before[i] == entries[i]);
        lemma_latest_of_single(before, i);
    }
}

/// A user without any report in `entries` has none that counts.
pub proof fn lemma_absent_user_has_none(entries: Seq<ReportEntryView>, user: Seq<char>)
    requires
        forall|i: int| 0 <= i < entries.len() ==> (#[trigger] entries[i]).user_id != user,
    ensures
        latest_of(entries, user) is None,
        !users_in_order(entries).contains(user),
    decreases entries.len(),
{
    if entries.len() > 0 {
        let before = entries.drop_last();
        assert forall|i: int| 0 <= i < before.len() implies (#[trigger] before[i]).user_id
            != user by {
            assert(before[i] == entries[i]);
        }
        lemma_absent_user_has_none(before, user);
        assert(entries.last() == entries[entries.len() - 1]);
        let users_before = users_in_order(before);
        if users_before.push(entries.last().user_id).contains(user) {
            let k = choose|k: int|
                0 <= k < users_before.len() + 1 && users_before.push(entries.last().user_id)[k]
                    == user;
            if k < users_before.len() {
                assert(users_before[k] == user);
            }
        }
    }
}

/// Where every user reported once, each report counts and the order is kept.
pub proof fn lemma_latest_per_user_of_distinct(entries: Seq<ReportEntryView>)
    requires
        distinct_users(entries),
    ensures
        users_in_order(entries) == entries.map_values(|e: ReportEntryView| e.user_id),
        latest_per_user(entries) == entries,
    decreases entries.len(),
{
    if entries.len() > 0 {
        let before = entries.drop_last();
        let e = entries.last();
        lemma_distinct_users_without_last(entries);
        lemma_latest_per_user_of_distinct(before);
        lemma_absent_user_has_none(before, e.user_id);
        assert(users_in_order(entries) =~= entries.map_values(|e: ReportEntryView| e.user_id));
        assert forall|i: int| 0 <= i < entries.len() implies latest_per_user(entries)[i]
            == entries[i] by {
            lemma_latest_of_single(entries, i);
        }
        assert(latest_per_user(entries) =~= entries);
    } else {
        assert(users_in_order(entries) =~= entries.map_values(|e: ReportEntryView| e.user_id));
        assert(latest_per_user(entries) =~= entries);
    }
}

/// Picks, for each user of `entries` in order of first occurrence, the report
/// that counts.
pub fn select_latest(entries: &Vec<ReportEntry>) -> (selected: Vec<ReportEntry>)
    ensures
        view_all(selected@) == latest_per_user(view_all(entries@)),
{
    let mut selected: Vec<ReportEntry> = Vec::new();
    let ghost all = view_all(entries@);
    let mut i: usize = 0;
    proof {
        assert(view_all(selected@) =~= latest_per_user(all.take(0)));
    }
    while i < entries.len()
        invariant
            i <= entries.len(),
            all == view_all(entries@),
            view_all(selected@) == latest_per_user(all.take(i as int)),
        decreases entries.len() - i,
    {
        let e = &entries[i];
        let ghost seen = all.take(i as int);
        let ghost users = users_in_order(seen);
        let ghost before = view_all(selected@);
        proof {
            lemma_one_more_report(seen, all[i as int]);
            lemma_listed_users_have_reports(seen);
            assert(all.take(i + 1) =~= seen.push(all[i as int]));
            assert(e@ == all[i as int]);
            assert(before.len() == users.len());
            assert forall|k: int| 0 <= k < users.len() implies (#[trigger] selected[k])@.user_id
                == users[k] by {
                assert(before[k] == selected[k]@);
                assert(latest_of(seen, users[k]) is Some);
            }
        }
        let ghost next = seen.push(all[i as int]);
        match find_user(&selected, &e.user_id) {
            Some(k) => {
                proof {
                    assert(users[k as int] == e@.user_id);
                    assert(before[k as int] == selected[k as int]@);
                    assert(before[k as int] == latest_of(seen, users[k as int]).unwrap());
                    assert(users_in_order(next) == users);
                }
                if e.timestamp.is_at_or_after(&selected[k].timestamp) {
                    selected.set(k, e.clone());
                }
                proof {
                    let after = view_all(selected@);
                    assert forall|m: int| 0 <= m < users.len() implies after[m] == latest_of(
                        next,
                        users[m],
                    ).unwrap() by {
                        assert(before[m] == latest_of(seen, users[m]).unwrap());
                        if m != k {
                            assert(users[m] != users[k as int]);
                            assert(after[m] == before[m]);
                        }
                    }
                    assert(after =~= latest_per_user(next));
                }
            },
            None => {
                proof {
                    if users.contains(e@.user_id) {
                        let k = choose|k: int| 0 <= k < users.len() && users[k] == e@.user_id;
                        assert(selected[k]@.user_id == users[k]);
                    }
                    assert forall|j: int| 0 <= j < seen.len() implies (#[trigger] seen[j]).user_id
                        != e@.user_id by {
                        assert(users.contains(seen[j].user_id));
                    }
                    lemma_absent_user_has_none(seen, e@.user_id);
                    assert(users_in_order(next) == users.push(e@.user_id));
                }
                selected.push(e.clone());
                proof {
                    let after = view_all(selected@);
                    assert forall|m: int| 0 <= m < users.len() + 1 implies after[m] == latest_of(
                        next,
                        users.push(e@.user_id)[m],
                    ).unwrap() by {
                        if m < users.len() {
                            assert(before[m] == latest_of(seen, users[m]).unwrap());
                            assert(after[m] == before[m]);
                            assert(users[m] != e@.user_id);
                        }
                    }
                    assert(after =~= latest_per_user(next));
                }
            },
        }
        i += 1;
    }
    proof {
        assert(all.take(entries.len() as int) =~= all);
    }
    selected
}

/// Appends the section of `e` to `text`.
fn append_section(text: &mut String, e: &ReportEntry)
    ensures
        final(text)@ == old(text)@ + section_text(e@),
{
    text.append("## ");
    text.append(e.display_name.as_str());
    text.append("\n**Did:** ");
    text.append(e.did.as_str());
    text.append("\n**Plan:** ");
    text.append(e.plan.as_str());
    text.append("\n**Blockers:** ");
    text.append(e.blockers.as_str());
    text.append("\n\n");
    proof {
        assert(text@ =~= old(text)@ + section_text(e@));
    }
}

/// Composes the digest of a snapshot: `None` for an empty snapshot, which
/// means that there is nothing to send, else the header followed by one
/// section per user.
pub fn compose_digest(entries: &Vec<ReportEntry>) -> (digest: Option<String>)
    ensures
        entries.len() == 0 ==> digest is None,
        entries.len() > 0 ==> digest is Some && digest.unwrap()@ == digest_text(
            view_all(entries@),
        ),
{
    if entries.len() == 0 {
        return None;
    }
    let selected = select_latest(entries);
    let ghost sections = view_all(selected@);
    let mut text = String::from_str("# Daily Standup Summary\n\n");
    let mut i: usize = 0;
    proof {
        assert(text@ =~= header_text() + sections_text(sections.take(0)));
    }
    while i < selected.len()
        invariant
            i <= selected.len(),
            sections == view_all(selected@),
            text@ == header_text() + sections_text(sections.take(i as int)),
        decreases selected.len() - i,
    {
        append_section(&mut text, &selected[i]);
        proof {
            assert(sections.take(i + 1).drop_last() =~= sections.take(i as int));
            assert(sections.take(i + 1).last() == selected[i as int]@);
            assert(text@ =~= header_text() + sections_text(sections.take(i + 1)));
        }
        i += 1;
    }
    proof {
        assert(sections.take(selected.len() as int) =~= sections);
    }
    Some(text)
}

} // verus!

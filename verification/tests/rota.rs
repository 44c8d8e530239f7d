//! The rota: members, marker, master and calendar.

use potsworth::rota::{
    AddSessionError, AssignError, AssignOutcome, Member, RescheduleError, Rota,
};

fn m(id: u64) -> Member {
    Member { id, name: format!("p{id}") }
}

#[test]
fn add_is_idempotent_by_id() {
    let mut r = Rota::default();
    assert!(r.add(m(1)));
    assert!(!r.add(m(1)));
    assert_eq!(r.members.len(), 1);
}

#[test]
fn advance_wraps_around() {
    let mut r = Rota::default();
    r.add(m(1));
    r.add(m(2));
    r.add(m(3));
    assert_eq!(r.current_member().unwrap().id, 1);
    assert_eq!(r.advance().unwrap().id, 2);
    assert_eq!(r.advance().unwrap().id, 3);
    assert_eq!(r.advance().unwrap().id, 1); // wrapped
}

#[test]
fn removing_before_current_keeps_same_person_up_next() {
    let mut r = Rota::default();
    r.add(m(1));
    r.add(m(2));
    r.add(m(3));
    r.set_current(3); // person 3 is up next
    assert_eq!(r.current_member().unwrap().id, 3);
    r.remove(1); // remove someone earlier in the list
    assert_eq!(r.current_member().unwrap().id, 3); // still person 3
}

#[test]
fn removing_current_last_member_clamps() {
    let mut r = Rota::default();
    r.add(m(1));
    r.add(m(2));
    r.set_current(2); // person 2 up next, at the end
    r.remove(2);
    assert_eq!(r.current_member().unwrap().id, 1);
}

#[test]
fn empty_rota_has_no_current() {
    let r = Rota::default();
    assert!(r.current_member().is_none());
}

#[test]
fn master_can_only_be_set_once() {
    let mut r = Rota::default();
    assert!(r.master().is_none());
    assert!(r.master_channel().is_none());
    assert_eq!(r.set_master(m(1), 4242), Ok(()));
    assert_eq!(r.master().unwrap().id, 1);
    assert_eq!(r.master_channel(), Some(4242)); // bound to the channel
    // A second attempt is rejected and leaves master and channel unchanged.
    assert_eq!(r.set_master(m(2), 9999), Err(m(1)));
    assert_eq!(r.master().unwrap().id, 1);
    assert_eq!(r.master_channel(), Some(4242));
}

#[test]
fn scheduling_sessions_cycles_through_the_rota() {
    let mut r = Rota::default();
    r.add(m(1));
    r.add(m(2));
    assert_eq!(r.add_session("2026-08-22".into(), None, false).unwrap().unwrap().id, 1);
    assert_eq!(r.add_session("2026-08-29".into(), None, false).unwrap().unwrap().id, 2);
    assert_eq!(r.add_session("2026-09-05".into(), None, false).unwrap().unwrap().id, 1); // wrapped
}

#[test]
fn sessions_stay_sorted_by_date() {
    let mut r = Rota::default();
    r.add(m(1));
    r.add_session("2026-09-05".into(), None, false).unwrap();
    r.add_session("2026-08-22".into(), None, false).unwrap();
    let dates: Vec<_> = r.sessions.iter().map(|s| s.date.as_str()).collect();
    assert_eq!(dates, ["2026-08-22", "2026-09-05"]);
}

#[test]
fn cannot_schedule_without_members_or_on_a_duplicate_date() {
    let mut r = Rota::default();
    assert_eq!(
        r.add_session("2026-08-22".into(), None, false),
        Err(AddSessionError::NoMembers)
    );
    r.add(m(1));
    r.add_session("2026-08-22".into(), None, false).unwrap();
    assert_eq!(
        r.add_session("2026-08-22".into(), None, false),
        Err(AddSessionError::DuplicateDate)
    );
}

#[test]
fn rescheduling_moves_the_date_and_keeps_it_sorted() {
    let mut r = Rota::default();
    r.add(m(1));
    r.add(m(2));
    r.add_session("2026-08-22".into(), Some("Chapter 5".into()), false).unwrap();
    r.add_session("2026-08-29".into(), None, false).unwrap();

    // Move the first session past the second.
    let moved = r
        .reschedule_session("2026-08-22", "2026-09-05".into())
        .unwrap();
    assert_eq!(moved.assignee.as_ref().unwrap().id, 1); // assignee unchanged
    assert_eq!(moved.note.as_deref(), Some("Chapter 5")); // note unchanged

    let dates: Vec<_> = r.sessions.iter().map(|s| s.date.as_str()).collect();
    assert_eq!(dates, ["2026-08-29", "2026-09-05"]); // re-sorted
}

#[test]
fn rescheduling_reports_missing_and_clashing_dates() {
    let mut r = Rota::default();
    r.add(m(1));
    r.add_session("2026-08-22".into(), None, false).unwrap();
    r.add_session("2026-08-29".into(), None, false).unwrap();

    assert_eq!(
        r.reschedule_session("2026-01-01", "2026-09-05".into()),
        Err(RescheduleError::NotFound)
    );
    assert_eq!(
        r.reschedule_session("2026-08-22", "2026-08-29".into()),
        Err(RescheduleError::DuplicateDate)
    );
}

/// Ids assigned to sessions, in stored (date) order (0 = skipped).
fn assignee_ids(r: &Rota) -> Vec<u64> {
    r.sessions.iter().map(|s| s.assignee.as_ref().map_or(0, |a| a.id)).collect()
}

#[test]
fn reassigning_rebalances_all_upcoming_sessions() {
    let mut r = Rota::default();
    r.add(m(1)); // Alice
    r.add(m(2)); // Bob
    r.add(m(3)); // Carol
    // Auto-assigned in rotation order.
    r.add_session("2026-08-22".into(), None, false).unwrap(); // Alice
    r.add_session("2026-08-29".into(), None, false).unwrap(); // Bob
    r.add_session("2026-09-05".into(), None, false).unwrap(); // Carol
    r.add_session("2026-09-12".into(), None, false).unwrap(); // Alice

    // Bob covers the 22nd (Alice can't make it).
    let outcome = r.assign_session("2026-08-22", 2, "2026-08-01").unwrap();
    assert_eq!(outcome, AssignOutcome::Reassigned { old: Some(m(1)), new: m(2) });

    // Bob is sent to the back: order becomes [Alice, Carol, Bob].
    assert_eq!(r.members.iter().map(|m| m.id).collect::<Vec<_>>(), [1, 3, 2]);
    // 22nd is pinned to Bob; the rest cycle Alice, Carol, Bob from the front.
    assert_eq!(assignee_ids(&r), [2, 1, 3, 2]);
    // The next newly-scheduled session continues the sequence (back to Alice).
    assert_eq!(r.current_member().unwrap().id, 1);
}

#[test]
fn reassigning_leaves_past_sessions_untouched() {
    let mut r = Rota::default();
    r.add(m(1)); // Alice
    r.add(m(2)); // Bob
    r.add_session("2026-08-01".into(), None, false).unwrap(); // Alice (past)
    r.add_session("2026-08-22".into(), None, false).unwrap(); // Bob
    r.add_session("2026-08-29".into(), None, false).unwrap(); // Alice

    // Today is the 15th, so the 1st has already happened.
    r.assign_session("2026-08-22", 1, "2026-08-15").unwrap(); // Alice covers the 22nd

    // Past session keeps its assignee (Alice); Alice sent to back
    // gives order [Bob, Alice]; the only other upcoming session (29th) is
    // reassigned to Bob (front).
    assert_eq!(assignee_ids(&r), [1, 1, 2]);
}

#[test]
fn reassigning_to_the_same_person_is_a_no_op() {
    let mut r = Rota::default();
    r.add(m(1));
    r.add(m(2));
    r.add_session("2026-08-22".into(), None, false).unwrap(); // assigned to Alice
    let order_before: Vec<_> = r.members.iter().map(|m| m.id).collect();
    let current_before = r.current;

    assert_eq!(
        r.assign_session("2026-08-22", 1, "2026-08-01").unwrap(),
        AssignOutcome::Unchanged(m(1))
    );
    // Order, pointer and assignees untouched.
    assert_eq!(r.members.iter().map(|m| m.id).collect::<Vec<_>>(), order_before);
    assert_eq!(r.current, current_before);
    assert_eq!(assignee_ids(&r), [1]);
}

#[test]
fn reassigning_reports_missing_session_and_non_members() {
    let mut r = Rota::default();
    r.add(m(1));
    r.add_session("2026-08-22".into(), None, false).unwrap();
    assert_eq!(
        r.assign_session("2099-01-01", 1, "2026-08-01"),
        Err(AssignError::SessionNotFound)
    );
    assert_eq!(
        r.assign_session("2026-08-22", 999, "2026-08-01"),
        Err(AssignError::NotAMember)
    );
}

#[test]
fn upcoming_filters_out_past_dates() {
    let mut r = Rota::default();
    r.add(m(1));
    r.add_session("2026-08-01".into(), None, false).unwrap();
    r.add_session("2026-08-22".into(), None, false).unwrap();
    r.add_session("2026-09-05".into(), None, false).unwrap();
    let upcoming: Vec<_> = r.upcoming("2026-08-15").iter().map(|s| s.date.as_str()).collect();
    assert_eq!(upcoming, ["2026-08-22", "2026-09-05"]);
}

#[test]
fn skipped_session_has_no_assignee_and_does_not_advance_the_rota() {
    let mut r = Rota::default();
    r.add(m(1));
    r.add(m(2));
    // A skipped session takes no assignee and leaves the pointer alone.
    assert_eq!(r.add_session("2026-08-22".into(), None, true).unwrap(), None);
    assert!(r.sessions[0].is_skipped());
    assert_eq!(r.current, 0);
    // The next normal session still goes to the first person.
    assert_eq!(
        r.add_session("2026-08-29".into(), None, false).unwrap().unwrap().id,
        1
    );
}

#[test]
fn can_skip_with_an_empty_rota() {
    let mut r = Rota::default();
    assert_eq!(r.add_session("2026-08-22".into(), None, true).unwrap(), None);
    assert!(r.sessions[0].is_skipped());
}

#[test]
fn skip_session_marks_an_existing_session_and_rebalance_ignores_it() {
    let mut r = Rota::default();
    r.add(m(1)); // Alice
    r.add(m(2)); // Bob
    r.add_session("2026-08-22".into(), None, false).unwrap(); // Alice
    r.add_session("2026-08-29".into(), None, false).unwrap(); // Bob
    r.add_session("2026-09-05".into(), None, false).unwrap(); // Alice

    // Split the middle session.
    assert!(r.skip_session("2026-08-29"));
    assert_eq!(assignee_ids(&r), [1, 0, 1]); // 0 = skipped

    // Bob covers the first; rebalance must leave the skipped one alone and
    // not consume a rotation slot for it.
    r.assign_session("2026-08-22", 2, "2026-08-01").unwrap();
    // order becomes [Alice, Bob]; 22nd pinned to Bob(2), 29th stays skipped,
    // 5 Sep gets the front of the cycle → Alice(1).
    assert_eq!(assignee_ids(&r), [2, 0, 1]);
}

#[test]
fn past_returns_only_dates_before_today() {
    let mut r = Rota::default();
    r.add(m(1));
    r.add_session("2026-08-01".into(), None, false).unwrap();
    r.add_session("2026-08-22".into(), None, false).unwrap();
    r.add_session("2026-09-05".into(), None, false).unwrap();
    let past: Vec<_> = r.past("2026-08-15").iter().map(|s| s.date.as_str()).collect();
    assert_eq!(past, ["2026-08-01"]);
}

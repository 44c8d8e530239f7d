//! More of the rota: what its operations undo, keep and share out.

use potsworth::rota::{
    AddSessionError, AssignOutcome, Member, RescheduleError, Rota, Session, SwapError,
};

fn person(id: u64) -> Member {
    Member { id, name: format!("p{id}") }
}

fn group(n: u64) -> Rota {
    let mut r = Rota::default();
    for id in 1..=n {
        assert!(r.add(person(id)));
    }
    r
}

fn ids(r: &Rota) -> Vec<u64> {
    r.members.iter().map(|m| m.id).collect()
}

fn tea(r: &Rota) -> Vec<u64> {
    r.sessions.iter().map(|s| s.assignee.as_ref().map_or(0, |a| a.id)).collect()
}

fn dates(r: &Rota) -> Vec<&str> {
    r.sessions.iter().map(|s| s.date.as_str()).collect()
}

fn book(r: &mut Rota, date: &str) -> u64 {
    r.add_session(date.to_string(), None, false).unwrap().unwrap().id
}

#[test]
fn mention_holds_the_id() {
    assert_eq!(person(0).mention(), "<@0>");
    assert_eq!(person(1234567890123456789).mention(), "<@1234567890123456789>");
    assert_eq!(person(u64::MAX).mention(), "<@18446744073709551615>");
}

#[test]
fn removing_undoes_adding() {
    let mut r = group(2);
    r.set_current(2);
    assert!(r.add(person(3)));
    assert_eq!(r.remove(3), Some(person(3)));
    assert_eq!(ids(&r), [1, 2]);
    assert_eq!(r.current, 1);
    assert_eq!(r.remove(3), None);
}

#[test]
fn removing_keeps_the_order_of_the_others() {
    let mut r = group(4);
    r.set_current(4);
    r.remove(2);
    assert_eq!(ids(&r), [1, 3, 4]);
    assert_eq!(r.current_member().unwrap().id, 4);
    r.remove(4);
    assert_eq!(ids(&r), [1, 3]);
    assert_eq!(r.current_member().unwrap().id, 1);
}

#[test]
fn the_marker_comes_back() {
    let mut r = group(5);
    r.set_current(3);
    for _ in 0..5 {
        r.advance();
    }
    assert_eq!(r.current_member().unwrap().id, 3);
    assert!(Rota::default().advance().is_none());
}

#[test]
fn the_marker_goes_only_to_members() {
    let mut r = group(2);
    assert!(!r.set_current(9));
    assert_eq!(r.current, 0);
    assert!(r.set_current(2));
    assert_eq!(r.current, 1);
}

#[test]
fn clearing_leaves_the_calendar() {
    let mut r = group(2);
    book(&mut r, "2026/08/22");
    r.clear();
    assert!(r.members.is_empty());
    assert_eq!(r.current, 0);
    assert_eq!(tea(&r), [1]);
}

#[test]
fn rotation_changes_leave_booked_sessions() {
    let mut r = group(3);
    book(&mut r, "2026/08/22");
    book(&mut r, "2026/08/29");
    r.remove(1);
    r.add(person(7));
    r.set_current(7);
    assert_eq!(tea(&r), [1, 2]);
}

#[test]
fn an_unsorted_calendar_is_sorted_and_stable() {
    let session = |date: &str, note: &str| Session {
        date: date.to_string(),
        assignee: None,
        note: Some(note.to_string()),
    };
    let mut r = Rota::from_parts(
        vec![person(1)],
        0,
        vec![session("b", "1"), session("c", "2"), session("a", "3"), session("b", "4")],
        None,
        None,
    );
    r.add_session("aa".to_string(), None, true).unwrap();
    assert_eq!(dates(&r), ["a", "aa", "b", "b", "c"]);
    assert_eq!(r.sessions[2].note.as_deref(), Some("1"));
    assert_eq!(r.sessions[3].note.as_deref(), Some("4"));
}

#[test]
fn dates_sort_by_code_point() {
    let mut r = Rota::default();
    for date in ["\u{10000}", "\u{ffff}", "z", "é", ""] {
        r.add_session(date.to_string(), None, true).unwrap();
    }
    let mut sorted = vec!["\u{10000}", "\u{ffff}", "z", "é", ""];
    sorted.sort();
    assert_eq!(dates(&r), sorted);
}

#[test]
fn bookings_go_round() {
    let mut r = group(3);
    r.set_current(2);
    let booked: Vec<u64> = ["2026/01/04", "2026/01/02", "2026/01/03", "2026/01/01"]
        .iter()
        .map(|d| book(&mut r, d))
        .collect();
    assert_eq!(booked, [2, 3, 1, 2]);
    assert_eq!(tea(&r), [2, 3, 1, 2]);
    assert_eq!(r.current, 2);
}

#[test]
fn removing_undoes_booking() {
    let mut r = group(2);
    book(&mut r, "2026/08/22");
    book(&mut r, "2026/09/05");
    book(&mut r, "2026/08/29");
    let removed = r.remove_session("2026/08/29").unwrap();
    assert_eq!(removed.assignee, Some(person(1)));
    assert_eq!(dates(&r), ["2026/08/22", "2026/09/05"]);
    assert_eq!(r.remove_session("2026/08/29"), None);
}

#[test]
fn a_taken_date_is_refused_before_an_empty_rota() {
    let mut r = Rota::default();
    r.add_session("2026/08/22".to_string(), None, true).unwrap();
    assert_eq!(
        r.add_session("2026/08/22".to_string(), None, false),
        Err(AddSessionError::DuplicateDate)
    );
}

#[test]
fn moving_onto_itself_and_back() {
    let mut r = group(2);
    r.add_session("2026/08/22".to_string(), Some("one".to_string()), false).unwrap();
    book(&mut r, "2026/08/29");
    let before = r.clone();
    r.reschedule_session("2026/08/22", "2026/08/22".to_string()).unwrap();
    assert_eq!(r.sessions, before.sessions);
    r.reschedule_session("2026/08/22", "2026/09/05".to_string()).unwrap();
    assert_eq!(dates(&r), ["2026/08/29", "2026/09/05"]);
    assert_eq!(r.sessions[1].note.as_deref(), Some("one"));
    r.reschedule_session("2026/09/05", "2026/08/22".to_string()).unwrap();
    assert_eq!(r.sessions, before.sessions);
    assert_eq!(r.current, before.current);
    assert_eq!(
        r.reschedule_session("2026/09/05", "2026/08/22".to_string()),
        Err(RescheduleError::NotFound)
    );
}

#[test]
fn earlier_sessions_keep_their_assignee() {
    let mut r = group(3);
    for d in ["2026/08/22", "2026/08/29", "2026/09/05", "2026/09/12"] {
        book(&mut r, d);
    }
    assert_eq!(tea(&r), [1, 2, 3, 1]);
    // Alice covers the third session: the first two are upcoming, but stay as they are.
    let outcome = r.assign_session("2026/09/05", 1, "2026/08/01").unwrap();
    assert_eq!(outcome, AssignOutcome::Reassigned { old: Some(person(3)), new: person(1) });
    assert_eq!(ids(&r), [2, 3, 1]);
    assert_eq!(tea(&r), [1, 2, 1, 2]);
    assert_eq!(r.current, 1);
}

#[test]
fn past_sessions_behind_a_covered_one_stay() {
    let mut r = group(2);
    for d in ["2026/08/01", "2026/08/08", "2026/08/15", "2026/08/22"] {
        book(&mut r, d);
    }
    assert_eq!(tea(&r), [1, 2, 1, 2]);
    r.assign_session("2026/08/01", 2, "2026/08/15").unwrap();
    assert_eq!(ids(&r), [1, 2]);
    assert_eq!(tea(&r), [2, 2, 1, 2]);
    assert_eq!(r.current, 0);
}

#[test]
fn covering_a_split_session_takes_it_back() {
    let mut r = group(2);
    r.add_session("2026/08/22".to_string(), None, true).unwrap();
    let outcome = r.assign_session("2026/08/22", 1, "2026/08/01").unwrap();
    assert_eq!(outcome, AssignOutcome::Reassigned { old: None, new: person(1) });
    assert_eq!(ids(&r), [2, 1]);
    assert_eq!(tea(&r), [1]);
    assert_eq!(r.current, 0);
}

#[test]
fn covering_spreads_evenly() {
    let mut r = group(3);
    for day in 10..21 {
        book(&mut r, &format!("2026/08/{day}"));
    }
    r.assign_session("2026/08/10", 3, "2026/08/01").unwrap();
    let shared = &tea(&r)[1..];
    assert_eq!(shared, [1, 2, 3, 1, 2, 3, 1, 2, 3, 1]);
    let count = |id: u64| shared.iter().filter(|t| **t == id).count();
    assert_eq!((count(1), count(2), count(3)), (4, 3, 3));
    let next = r.current_member().unwrap().id;
    assert!((1..=3).all(|id| count(next) <= count(id)));
    assert_eq!(r.current, 1);
}

#[test]
fn swapping_changes_places_and_upcoming_sessions() {
    let mut r = group(3);
    for d in ["2026/08/01", "2026/08/22", "2026/08/29", "2026/09/05"] {
        book(&mut r, d);
    }
    assert_eq!(tea(&r), [1, 2, 3, 1]);
    assert_eq!(r.swap(1, 3, "2026/08/15"), Ok(()));
    assert_eq!(ids(&r), [3, 2, 1]);
    assert_eq!(tea(&r), [1, 2, 1, 3]);
    assert_eq!(r.current, 1);
    assert_eq!(r.swap(1, 3, "2026/08/15"), Ok(()));
    assert_eq!(ids(&r), [1, 2, 3]);
    assert_eq!(tea(&r), [1, 2, 3, 1]);
}

#[test]
fn swapping_needs_two_members() {
    let mut r = group(2);
    assert_eq!(r.swap(9, 1, "2026/08/15"), Err(SwapError::FirstNotAMember));
    assert_eq!(r.swap(9, 8, "2026/08/15"), Err(SwapError::FirstNotAMember));
    assert_eq!(r.swap(1, 9, "2026/08/15"), Err(SwapError::SecondNotAMember));
    assert_eq!(r.swap(1, 1, "2026/08/15"), Ok(()));
    assert_eq!(ids(&r), [1, 2]);
}

#[test]
fn past_and_upcoming_make_the_calendar() {
    let mut r = group(1);
    for d in ["2026/08/01", "2026/08/15", "2026/08/22"] {
        book(&mut r, d);
    }
    let today = "2026/08/15";
    let past: Vec<&str> = r.past(today).iter().map(|s| s.date.as_str()).collect();
    let upcoming: Vec<&str> = r.upcoming(today).iter().map(|s| s.date.as_str()).collect();
    assert_eq!(past, ["2026/08/01"]);
    assert_eq!(upcoming, ["2026/08/15", "2026/08/22"]);
}

#[test]
fn skipping_a_missing_session_does_nothing() {
    let mut r = group(1);
    assert!(!r.skip_session("2026/08/22"));
    assert!(r.sessions.is_empty());
}

#[test]
fn skips_between_bookings_use_no_turn() {
    let mut r = group(3);
    r.set_current(3);
    let plan = [
        ("2026/01/05", Some("a"), false),
        ("2026/01/03", None, true),
        ("2026/01/04", Some("b"), true),
        ("2026/01/01", None, false),
        ("2026/01/02", Some("c"), true),
        ("2026/01/06", Some("d"), false),
    ];
    for (date, note, skip) in plan {
        r.add_session(date.to_string(), note.map(str::to_string), skip).unwrap();
    }
    assert_eq!(tea(&r), [1, 0, 0, 0, 3, 2]);
    let notes: Vec<Option<&str>> = r.sessions.iter().map(|s| s.note.as_deref()).collect();
    assert_eq!(notes, [None, Some("c"), None, Some("b"), Some("a"), Some("d")]);
    assert_eq!(r.current, 2);
}

#[test]
fn past_and_upcoming_split_a_calendar_with_equal_dates() {
    let session = |date: &str| Session { date: date.to_string(), assignee: None, note: None };
    let sessions = vec![session("a"), session("b"), session("b"), session("c")];
    let r = Rota::from_parts(vec![], 0, sessions, None, None);
    assert_eq!(r.past("b").len(), 1);
    assert_eq!(r.upcoming("b").len(), 3);
}

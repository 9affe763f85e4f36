use bigback::engine::{holds, without_email, Housing};
use bigback::error::EngineError;
use bigback::ident::Oid;
use bigback::model::{Occupant, Room};

fn oid(n: u8) -> Oid {
    Oid { bytes: [n; 12] }
}

fn occupants_of(h: &Housing, room: usize) -> Vec<String> {
    h.rooms[room].occupants.iter().map(|o| o.email.clone()).collect()
}

fn pointer_of(h: &Housing, resident: usize) -> Option<String> {
    h.residents[resident].assigned_room.clone()
}

fn snapshot(h: &Housing) -> (Vec<(String, i32, Vec<String>)>, Vec<(String, Option<String>)>) {
    let rooms = (0..h.rooms.len())
        .map(|i| (h.rooms[i].number.clone(), h.rooms[i].capacity, occupants_of(h, i)))
        .collect();
    let residents = h
        .residents
        .iter()
        .map(|r| (r.email.clone(), r.assigned_room.clone()))
        .collect();
    (rooms, residents)
}

fn invariants_hold(h: &Housing) -> bool {
    let within = h.rooms.iter().all(|r| (r.occupants.len() as i64) <= r.capacity as i64);
    let pointers = h.residents.iter().all(|res| {
        let places: Vec<&str> = h
            .rooms
            .iter()
            .flat_map(|r| r.occupants.iter().filter(|o| o.email == res.email).map(|_| r.number.as_str()))
            .collect();
        match &res.assigned_room {
            Some(n) => places.len() == 1 && places[0] == n.as_str(),
            None => places.is_empty(),
        }
    });
    within && pointers
}

fn two_rooms() -> Housing {
    let mut h = Housing::new();
    h.create_room(oid(1), oid(9), "101", 2);
    h.create_room(oid(2), oid(9), "102", 1);
    assert!(h.create_student(oid(11), "ann@example.org", "pw"));
    assert!(h.create_student(oid(12), "bob@example.org", "pw"));
    assert!(h.create_student(oid(13), "cyd@example.org", "pw"));
    h
}

fn record(email: &str) -> Occupant {
    Occupant { email: email.to_string() }
}

#[test]
fn new_housing_is_empty() {
    let h = Housing::new();
    assert!(h.rooms.is_empty());
    assert!(h.residents.is_empty());
}

#[test]
fn create_room_starts_without_occupants() {
    let h = two_rooms();
    assert_eq!(h.rooms.len(), 2);
    assert_eq!(h.rooms[0].number, "101");
    assert_eq!(h.rooms[0].capacity, 2);
    assert_eq!(h.rooms[0].id.bytes, [1; 12]);
    assert_eq!(h.rooms[0].dorm_id.bytes, [9; 12]);
    assert!(h.rooms[0].occupants.is_empty());
    assert_eq!(h.rooms[1].number, "102");
}

#[test]
fn create_student_starts_without_a_room() {
    let h = two_rooms();
    assert_eq!(h.residents.len(), 3);
    assert_eq!(h.residents[0].email, "ann@example.org");
    assert_eq!(h.residents[0].secret, "pw");
    assert_eq!(h.residents[0].id.bytes, [11; 12]);
    assert_eq!(pointer_of(&h, 0), None);
}

#[test]
fn create_student_refuses_a_known_email() {
    let mut h = two_rooms();
    assert!(!h.create_student(oid(14), "ann@example.org", "other"));
    assert_eq!(h.residents.len(), 3);
    assert_eq!(h.residents[0].secret, "pw");
}

#[test]
fn assign_puts_the_resident_in_the_room() {
    let mut h = two_rooms();
    assert_eq!(h.assign("ann@example.org", &oid(1)), Ok("101".to_string()));
    assert_eq!(occupants_of(&h, 0), vec!["ann@example.org".to_string()]);
    assert!(occupants_of(&h, 1).is_empty());
    assert_eq!(pointer_of(&h, 0), Some("101".to_string()));
    assert_eq!(pointer_of(&h, 1), None);
    assert!(invariants_hold(&h));
}

#[test]
fn assign_appends_after_the_present_occupants() {
    let mut h = two_rooms();
    assert_eq!(h.assign("bob@example.org", &oid(1)), Ok("101".to_string()));
    assert_eq!(h.assign("ann@example.org", &oid(1)), Ok("101".to_string()));
    assert_eq!(
        occupants_of(&h, 0),
        vec!["bob@example.org".to_string(), "ann@example.org".to_string()]
    );
}

#[test]
fn assign_to_an_unknown_room_is_not_found_and_changes_nothing() {
    let mut h = two_rooms();
    assert_eq!(h.assign("ann@example.org", &oid(1)), Ok("101".to_string()));
    let before = snapshot(&h);
    assert_eq!(h.assign("ann@example.org", &oid(7)), Err(EngineError::NotFound));
    assert_eq!(snapshot(&h), before);
}

#[test]
fn assign_of_an_unknown_resident_is_not_found_and_changes_nothing() {
    let mut h = two_rooms();
    let before = snapshot(&h);
    assert_eq!(h.assign("dee@example.org", &oid(1)), Err(EngineError::NotFound));
    assert_eq!(snapshot(&h), before);
}

#[test]
fn assign_twice_is_refused_the_second_time() {
    let mut h = two_rooms();
    assert_eq!(h.assign("ann@example.org", &oid(1)), Ok("101".to_string()));
    let before = snapshot(&h);
    assert_eq!(h.assign("ann@example.org", &oid(1)), Err(EngineError::AlreadyAssigned));
    assert_eq!(snapshot(&h), before);
}

#[test]
fn a_room_for_one_takes_one() {
    let mut h = two_rooms();
    assert_eq!(h.assign("ann@example.org", &oid(2)), Ok("102".to_string()));
    let before = snapshot(&h);
    assert_eq!(h.assign("bob@example.org", &oid(2)), Err(EngineError::RoomFull));
    assert_eq!(snapshot(&h), before);
    assert_eq!(occupants_of(&h, 1), vec!["ann@example.org".to_string()]);
    assert_eq!(pointer_of(&h, 1), None);
}

#[test]
fn a_full_room_refuses_before_it_reports_a_duplicate_elsewhere() {
    let mut h = two_rooms();
    assert_eq!(h.assign("ann@example.org", &oid(1)), Ok("101".to_string()));
    assert_eq!(h.assign("bob@example.org", &oid(1)), Ok("101".to_string()));
    assert_eq!(h.assign("cyd@example.org", &oid(1)), Err(EngineError::RoomFull));
    // an occupant of a full room is told that the room is theirs already
    assert_eq!(h.assign("ann@example.org", &oid(1)), Err(EngineError::AlreadyAssigned));
    assert!(invariants_hold(&h));
}

#[test]
fn a_room_without_capacity_is_full() {
    let mut h = Housing::new();
    h.create_room(oid(1), oid(9), "001", 0);
    h.create_room(oid(2), oid(9), "002", -3);
    assert!(h.create_student(oid(11), "ann@example.org", "pw"));
    assert_eq!(h.assign("ann@example.org", &oid(1)), Err(EngineError::RoomFull));
    assert_eq!(h.assign("ann@example.org", &oid(2)), Err(EngineError::RoomFull));
    assert_eq!(pointer_of(&h, 0), None);
}

#[test]
fn assign_to_another_room_moves_the_resident() {
    let mut h = two_rooms();
    assert_eq!(h.assign("ann@example.org", &oid(1)), Ok("101".to_string()));
    assert_eq!(h.assign("bob@example.org", &oid(1)), Ok("101".to_string()));
    assert_eq!(h.assign("ann@example.org", &oid(2)), Ok("102".to_string()));
    assert_eq!(occupants_of(&h, 0), vec!["bob@example.org".to_string()]);
    assert_eq!(occupants_of(&h, 1), vec!["ann@example.org".to_string()]);
    assert_eq!(pointer_of(&h, 0), Some("102".to_string()));
    assert_eq!(pointer_of(&h, 1), Some("101".to_string()));
    assert!(invariants_hold(&h));
}

#[test]
fn a_move_into_a_full_room_leaves_the_resident_where_they_were() {
    let mut h = two_rooms();
    assert_eq!(h.assign("ann@example.org", &oid(1)), Ok("101".to_string()));
    assert_eq!(h.assign("bob@example.org", &oid(2)), Ok("102".to_string()));
    let before = snapshot(&h);
    assert_eq!(h.assign("ann@example.org", &oid(2)), Err(EngineError::RoomFull));
    assert_eq!(snapshot(&h), before);
}

#[test]
fn assign_evicts_by_the_occupant_lists_and_not_by_the_pointer() {
    let mut h = two_rooms();
    // a record left behind by a failure: in room 101, with an empty pointer
    h.rooms[0].occupants.push(record("ann@example.org"));
    assert_eq!(h.assign("ann@example.org", &oid(2)), Ok("102".to_string()));
    assert!(occupants_of(&h, 0).is_empty());
    assert_eq!(occupants_of(&h, 1), vec!["ann@example.org".to_string()]);
    assert_eq!(pointer_of(&h, 0), Some("102".to_string()));
    assert!(invariants_hold(&h));
}

#[test]
fn assign_takes_the_first_room_with_the_identifier() {
    let mut h = Housing::new();
    h.create_room(oid(1), oid(9), "101", 1);
    h.create_room(oid(1), oid(9), "102", 1);
    assert!(h.create_student(oid(11), "ann@example.org", "pw"));
    assert_eq!(h.assign("ann@example.org", &oid(1)), Ok("101".to_string()));
    assert_eq!(occupants_of(&h, 0), vec!["ann@example.org".to_string()]);
    assert!(occupants_of(&h, 1).is_empty());
}

#[test]
fn unassign_takes_the_resident_out() {
    let mut h = two_rooms();
    assert_eq!(h.assign("ann@example.org", &oid(1)), Ok("101".to_string()));
    assert_eq!(h.assign("bob@example.org", &oid(1)), Ok("101".to_string()));
    assert_eq!(h.unassign("ann@example.org"), Ok(()));
    assert_eq!(occupants_of(&h, 0), vec!["bob@example.org".to_string()]);
    assert_eq!(pointer_of(&h, 0), None);
    assert_eq!(pointer_of(&h, 1), Some("101".to_string()));
    assert!(invariants_hold(&h));
}

#[test]
fn unassign_twice_succeeds_twice_and_changes_nothing_the_second_time() {
    let mut h = two_rooms();
    assert_eq!(h.assign("ann@example.org", &oid(1)), Ok("101".to_string()));
    assert_eq!(h.unassign("ann@example.org"), Ok(()));
    let after_first = snapshot(&h);
    assert_eq!(h.unassign("ann@example.org"), Ok(()));
    assert_eq!(snapshot(&h), after_first);
}

#[test]
fn unassign_of_a_resident_without_a_room_succeeds() {
    let mut h = two_rooms();
    let before = snapshot(&h);
    assert_eq!(h.unassign("bob@example.org"), Ok(()));
    assert_eq!(snapshot(&h), before);
}

#[test]
fn unassign_of_an_unknown_resident_is_not_found() {
    let mut h = two_rooms();
    let before = snapshot(&h);
    assert_eq!(h.unassign("dee@example.org"), Err(EngineError::NotFound));
    assert_eq!(snapshot(&h), before);
}

#[test]
fn unassign_with_a_pointer_to_no_room_only_empties_the_pointer() {
    let mut h = two_rooms();
    h.residents[0].assigned_room = Some("999".to_string());
    h.rooms[0].occupants.push(record("ann@example.org"));
    assert_eq!(h.unassign("ann@example.org"), Ok(()));
    assert_eq!(pointer_of(&h, 0), None);
    assert_eq!(occupants_of(&h, 0), vec!["ann@example.org".to_string()]);
}

#[test]
fn unassign_goes_by_the_first_room_with_the_number() {
    let mut h = Housing::new();
    h.create_room(oid(1), oid(8), "101", 2);
    h.create_room(oid(2), oid(9), "101", 2);
    assert!(h.create_student(oid(11), "ann@example.org", "pw"));
    assert_eq!(h.assign("ann@example.org", &oid(2)), Ok("101".to_string()));
    assert_eq!(h.unassign("ann@example.org"), Ok(()));
    // the room of the same number in the other dorm was searched instead
    assert_eq!(occupants_of(&h, 1), vec!["ann@example.org".to_string()]);
    assert_eq!(pointer_of(&h, 0), None);
}

#[test]
fn the_invariants_hold_along_a_sequence_of_requests() {
    let mut h = two_rooms();
    let who = ["ann@example.org", "bob@example.org", "cyd@example.org"];
    let mut step: usize = 0;
    while step < 40 {
        let email = who[step % 3];
        let room = oid(1 + ((step / 3) % 3) as u8);
        if step % 7 == 6 {
            let _ = h.unassign(email);
        } else {
            let _ = h.assign(email, &room);
        }
        assert!(invariants_hold(&h), "after step {}", step);
        step += 1;
    }
}

#[test]
fn list_rooms_gives_the_rooms_of_the_dorm() {
    let mut h = Housing::new();
    h.create_room(oid(1), oid(0xaa), "101", 2);
    h.create_room(oid(2), oid(0xbb), "201", 2);
    h.create_room(oid(3), oid(0xaa), "102", 2);
    assert_eq!(h.list_rooms("aaaaaaaaaaaaaaaaaaaaaaaa"), Ok(vec![0, 2]));
    assert_eq!(h.list_rooms("BBBBBBBBBBBBBBBBBBBBBBBB"), Ok(vec![1]));
    assert_eq!(h.list_rooms("cccccccccccccccccccccccc"), Ok(vec![]));
    assert_eq!(h.rooms_of_dorm(&oid(0xaa)), vec![0, 2]);
}

#[test]
fn list_rooms_refuses_a_malformed_identifier() {
    let h = two_rooms();
    assert_eq!(h.list_rooms("not-an-id"), Err(EngineError::InvalidIdentifier));
    assert_eq!(h.list_rooms("09090909090909090909090"), Err(EngineError::InvalidIdentifier));
}

#[test]
fn find_gives_the_first_match() {
    let h = two_rooms();
    assert_eq!(h.find_room(&oid(2)), Some(1));
    assert_eq!(h.find_room(&oid(3)), None);
    assert_eq!(h.find_number(&"101".to_string()), Some(0));
    assert_eq!(h.find_number(&"103".to_string()), None);
    assert_eq!(h.find_resident(&"cyd@example.org".to_string()), Some(2));
    assert_eq!(h.find_resident(&"cyd".to_string()), None);
}

#[test]
fn without_email_keeps_the_order_of_the_others() {
    let list = vec![record("a"), record("b"), record("a"), record("c")];
    let kept: Vec<String> = without_email(&list, &"a".to_string()).into_iter().map(|o| o.email).collect();
    assert_eq!(kept, vec!["b".to_string(), "c".to_string()]);
    let same: Vec<String> = without_email(&list, &"z".to_string()).into_iter().map(|o| o.email).collect();
    assert_eq!(same, vec!["a".to_string(), "b".to_string(), "a".to_string(), "c".to_string()]);
    assert!(without_email(&Vec::new(), &"a".to_string()).is_empty());
}

#[test]
fn holds_finds_an_email() {
    let list = vec![record("a"), record("b")];
    assert!(holds(&list, &"b".to_string()));
    assert!(!holds(&list, &"c".to_string()));
    assert!(!holds(&Vec::new(), &"a".to_string()));
}

#[test]
fn admission_checks_membership_before_capacity() {
    let room = Room {
        id: oid(1),
        dorm_id: oid(9),
        number: "101".to_string(),
        capacity: 2,
        occupants: vec![record("a"), record("b")],
    };
    assert_eq!(room.admission(&"a".to_string()), Err(EngineError::AlreadyAssigned));
    assert_eq!(room.admission(&"c".to_string()), Err(EngineError::RoomFull));
    let roomy = Room { capacity: 3, ..room };
    assert_eq!(roomy.admission(&"c".to_string()), Ok(()));
    let joined: Vec<String> = roomy.joined_by(&"c".to_string()).into_iter().map(|o| o.email).collect();
    assert_eq!(joined, vec!["a".to_string(), "b".to_string(), "c".to_string()]);
}

//! What holds of the occupancy rules: facts about counting occupants, and the
//! laws that assigning and unassigning obey.

use crate::error::EngineError;
use crate::model::{ResidentView, RoomView};
use crate::rules::{
    admitted, count, evicted, first_with_email, first_with_id, first_with_number, total, without,
    Call, HousingView,
};
use vstd::prelude::*;

verus! {

/// Adding `x` at the end of a list adds one occurrence of `x` and none of
/// anything else.
pub proof fn lemma_count_push(s: Seq<Seq<char>>, x: Seq<char>, e: Seq<char>)
    ensures
        count(s.push(x), e) == count(s, e) + if x == e {
            1nat
        } else {
            0nat
        },
{
    assert(s.push(x).drop_last() =~= s);
}

/// Removing `e` from a list leaves no occurrence of `e`, keeps every
/// occurrence of anything else, and does not lengthen the list.
pub proof fn lemma_count_without(s: Seq<Seq<char>>, e: Seq<char>, x: Seq<char>)
    ensures
        count(without(s, e), x) == if x == e {
            0nat
        } else {
            count(s, x)
        },
        without(s, e).len() <= s.len(),
    decreases s.len(),
{
    if s.len() > 0 {
        lemma_count_without(s.drop_last(), e, x);
        if s.last() != e {
            lemma_count_push(without(s.drop_last(), e), s.last(), x);
        }
    }
}

/// An email occurs in a list exactly when its count there is positive.
pub proof fn lemma_count_contains(s: Seq<Seq<char>>, e: Seq<char>)
    ensures
        (count(s, e) > 0) == s.contains(e),
    decreases s.len(),
{
    if s.len() > 0 {
        lemma_count_contains(s.drop_last(), e);
        if s.last() != e && s.contains(e) {
            let i = choose|i: int| 0 <= i < s.len() && s[i] == e;
            assert(s.drop_last()[i] == e);
        }
    }
}

/// Removing an email that does not occur changes nothing.
pub proof fn lemma_without_absent(s: Seq<Seq<char>>, e: Seq<char>)
    requires
        !s.contains(e),
    ensures
        without(s, e) == s,
    decreases s.len(),
{
    if s.len() > 0 {
        lemma_without_absent(s.drop_last(), e);
    }
}

/// Replacing one room changes the total by the difference of that room's
/// counts.
pub proof fn lemma_total_update(a: Seq<RoomView>, t: int, r: RoomView, x: Seq<char>)
    requires
        0 <= t < a.len(),
    ensures
        total(a.update(t, r), x) + count(a[t].occupants, x) == total(a, x) + count(
            r.occupants,
            x,
        ),
    decreases a.len(),
{
    let b = a.update(t, r);
    if t == a.len() - 1 {
        assert(b.drop_last() =~= a.drop_last());
    } else {
        lemma_total_update(a.drop_last(), t, r, x);
        assert(b.drop_last() =~= a.drop_last().update(t, r));
    }
}

/// Two lists of rooms that agree room by room on the count of `x` agree on
/// its total.
pub proof fn lemma_total_same(a: Seq<RoomView>, b: Seq<RoomView>, x: Seq<char>)
    requires
        a.len() == b.len(),
        forall|i: int|
            0 <= i < a.len() ==> count((#[trigger] a[i]).occupants, x) == count(b[i].occupants, x),
    ensures
        total(a, x) == total(b, x),
    decreases a.len(),
{
    if a.len() > 0 {
        lemma_total_same(a.drop_last(), b.drop_last(), x);
    }
}

/// Where no room holds `x`, its total is zero.
pub proof fn lemma_total_none(a: Seq<RoomView>, x: Seq<char>)
    requires
        forall|i: int| 0 <= i < a.len() ==> count((#[trigger] a[i]).occupants, x) == 0,
    ensures
        total(a, x) == 0,
    decreases a.len(),
{
    if a.len() > 0 {
        lemma_total_none(a.drop_last(), x);
    }
}

/// The total of `x` is at least its count in any one room.
pub proof fn lemma_total_covers(a: Seq<RoomView>, t: int, x: Seq<char>)
    requires
        0 <= t < a.len(),
    ensures
        count(a[t].occupants, x) <= total(a, x),
    decreases a.len(),
{
    if t < a.len() - 1 {
        lemma_total_covers(a.drop_last(), t, x);
    }
}

/// A new room without occupants changes no total.
pub proof fn lemma_total_push(a: Seq<RoomView>, r: RoomView, x: Seq<char>)
    requires
        r.occupants.len() == 0,
    ensures
        total(a.push(r), x) == total(a, x),
{
    assert(a.push(r).drop_last() =~= a);
}

proof fn lemma_first_id(rooms: Seq<RoomView>, id: Seq<u8>, n: int)
    requires
        0 <= n < rooms.len(),
        rooms[n].id == id,
    ensures
        exists|i: int| first_with_id(rooms, id, i),
    decreases n,
{
    if exists|j: int| 0 <= j < n && (#[trigger] rooms[j]).id == id {
        let j = choose|j: int| 0 <= j < n && (#[trigger] rooms[j]).id == id;
        lemma_first_id(rooms, id, j);
    } else {
        assert(first_with_id(rooms, id, n));
    }
}

proof fn lemma_first_number(rooms: Seq<RoomView>, number: Seq<char>, n: int)
    requires
        0 <= n < rooms.len(),
        rooms[n].number == number,
    ensures
        exists|i: int| first_with_number(rooms, number, i),
    decreases n,
{
    if exists|j: int| 0 <= j < n && (#[trigger] rooms[j]).number == number {
        let j = choose|j: int| 0 <= j < n && (#[trigger] rooms[j]).number == number;
        lemma_first_number(rooms, number, j);
    } else {
        assert(first_with_number(rooms, number, n));
    }
}

proof fn lemma_first_email(residents: Seq<ResidentView>, email: Seq<char>, n: int)
    requires
        0 <= n < residents.len(),
        residents[n].email == email,
    ensures
        exists|k: int| first_with_email(residents, email, k),
    decreases n,
{
    if exists|j: int| 0 <= j < n && (#[trigger] residents[j]).email == email {
        let j = choose|j: int| 0 <= j < n && (#[trigger] residents[j]).email == email;
        lemma_first_email(residents, email, j);
    } else {
        assert(first_with_email(residents, email, n));
    }
}

/// Where a room has the identifier `id`, `room_index` is the place of the
/// first such room.
pub proof fn lemma_room_index(h: HousingView, id: Seq<u8>)
    requires
        h.has_room(id),
    ensures
        first_with_id(h.rooms, id, h.room_index(id)),
{
    let n = choose|i: int| 0 <= i < h.rooms.len() && (#[trigger] h.rooms[i]).id == id;
    lemma_first_id(h.rooms, id, n);
}

/// Where a room has the number `number`, `number_index` is the place of the
/// first such room.
pub proof fn lemma_number_index(h: HousingView, number: Seq<char>)
    requires
        h.has_number(number),
    ensures
        first_with_number(h.rooms, number, h.number_index(number)),
{
    let n = choose|i: int| 0 <= i < h.rooms.len() && (#[trigger] h.rooms[i]).number == number;
    lemma_first_number(h.rooms, number, n);
}

/// Where a resident has the email `email`, `resident_index` is the place of
/// the first such resident.
pub proof fn lemma_resident_index(h: HousingView, email: Seq<char>)
    requires
        h.has_resident(email),
    ensures
        first_with_email(h.residents, email, h.resident_index(email)),
{
    let n = choose|k: int| 0 <= k < h.residents.len() && (#[trigger] h.residents[k]).email == email;
    lemma_first_email(h.residents, email, n);
}

/// How an accepted request to assign changes lengths and totals, first when
/// the resident has left every room and then when the resident has joined
/// the target room: no list grows by more than the one record, the total of
/// the resident's email goes to zero and then to one, and every other total
/// stays as it was.
pub proof fn lemma_assign_totals(h: HousingView, email: Seq<char>, id: Seq<u8>)
    requires
        h.assign_outcome(email, id).is_ok(),
    ensures
        first_with_id(h.rooms, id, h.room_index(id)),
        forall|i: int|
            0 <= i < h.rooms.len() ==> (#[trigger] evicted(h.rooms, email)[i]).occupants.len()
                <= h.rooms[i].occupants.len(),
        forall|i: int|
            0 <= i < h.rooms.len() ==> (#[trigger] admitted(
                evicted(h.rooms, email),
                h.room_index(id),
                email,
            )[i]).occupants.len() <= h.rooms[i].occupants.len() + (if i == h.room_index(id) {
                1int
            } else {
                0int
            }),
        forall|i: int, x: Seq<char>|
            0 <= i < h.rooms.len() ==> #[trigger] count(
                admitted(evicted(h.rooms, email), h.room_index(id), email)[i].occupants,
                x,
            ) == (if x == email {
                if i == h.room_index(id) {
                    1nat
                } else {
                    0nat
                }
            } else {
                count(h.rooms[i].occupants, x)
            }),
        forall|x: Seq<char>| #[trigger]
            total(evicted(h.rooms, email), x) == (if x == email {
                0nat
            } else {
                total(h.rooms, x)
            }),
        forall|x: Seq<char>| #[trigger]
            total(admitted(evicted(h.rooms, email), h.room_index(id), email), x) == (if x
                == email {
                1nat
            } else {
                total(h.rooms, x)
            }),
{
    lemma_room_index(h, id);
    let t = h.room_index(id);
    let gone = evicted(h.rooms, email);
    let rooms = admitted(gone, t, email);
    assert forall|i: int| 0 <= i < h.rooms.len() implies (#[trigger] gone[i]).occupants.len()
        <= h.rooms[i].occupants.len() by {
        lemma_count_without(h.rooms[i].occupants, email, email);
    }
    assert forall|i: int, x: Seq<char>| 0 <= i < rooms.len() implies #[trigger] count(
        rooms[i].occupants,
        x,
    ) == (if x == email {
        if i == t {
            1nat
        } else {
            0nat
        }
    } else {
        count(h.rooms[i].occupants, x)
    }) by {
        lemma_count_without(h.rooms[i].occupants, email, x);
        if i == t {
            lemma_count_push(without(h.rooms[i].occupants, email), email, x);
        }
    }
    assert forall|x: Seq<char>| #[trigger] total(gone, x) == (if x == email {
        0nat
    } else {
        total(h.rooms, x)
    }) by {
        assert forall|i: int| 0 <= i < gone.len() implies count(
            (#[trigger] gone[i]).occupants,
            x,
        ) == (if x == email {
            0nat
        } else {
            count(h.rooms[i].occupants, x)
        }) by {
            lemma_count_without(h.rooms[i].occupants, email, x);
        }
        if x == email {
            lemma_total_none(gone, x);
        } else {
            lemma_total_same(gone, h.rooms, x);
        }
    }
    assert forall|x: Seq<char>| #[trigger] total(rooms, x) == (if x == email {
        1nat
    } else {
        total(h.rooms, x)
    }) by {
        assert(rooms =~= gone.update(t, rooms[t]));
        lemma_total_update(gone, t, rooms[t], x);
        lemma_count_without(h.rooms[t].occupants, email, x);
        lemma_count_push(without(h.rooms[t].occupants, email), email, x);
    }
}

/// Assigning keeps the occupancy invariants: from a consistent state every
/// request to assign, accepted or refused, leads to a consistent state.
pub proof fn lemma_assign_consistent(h: HousingView, email: Seq<char>, id: Seq<u8>)
    requires
        h.consistent(),
    ensures
        h.assign(email, id).consistent(),
{
    if h.assign_outcome(email, id).is_ok() {
        lemma_assign_totals(h, email, id);
        lemma_resident_index(h, email);
        let t = h.room_index(id);
        let k = h.resident_index(email);
        let out = h.assign(email, id);
        assert(out.single_occupancy());
        assert(out.pointers_agree()) by {
            assert forall|j: int| 0 <= j < out.residents.len() implies match (
            #[trigger] out.residents[j]).assigned_room {
                Some(number) => exists|i: int|
                    0 <= i < out.rooms.len() && count(
                        (#[trigger] out.rooms[i]).occupants,
                        out.residents[j].email,
                    ) > 0 && out.rooms[i].number == number,
                None => total(out.rooms, out.residents[j].email) == 0,
            } by {
                if j == k {
                    assert(count(out.rooms[t].occupants, email) == 1);
                } else {
                    let x = h.residents[j].email;
                    match h.residents[j].assigned_room {
                        Some(number) => {
                            let i = choose|i: int|
                                0 <= i < h.rooms.len() && count(
                                    (#[trigger] h.rooms[i]).occupants,
                                    x,
                                ) > 0 && h.rooms[i].number == number;
                            assert(count(out.rooms[i].occupants, x) > 0);
                        },
                        None => {},
                    }
                }
            }
        }
    }
}

/// Unassigning keeps the occupancy invariants, provided that no two rooms
/// share a number: the room that a resident leaves is found by its number.
pub proof fn lemma_unassign_consistent(h: HousingView, email: Seq<char>)
    requires
        h.consistent(),
        h.numbers_distinct(),
    ensures
        h.unassign(email).consistent(),
{
    if h.has_resident(email) {
        lemma_resident_index(h, email);
        let k = h.resident_index(email);
        if let Some(number) = h.residents[k].assigned_room {
            let out = h.unassign(email);
            lemma_number_index(h, number);
            let t = h.number_index(number);
            let room = out.rooms[t];
            assert(out.rooms =~= h.rooms.update(t, room));
            lemma_total_covers(h.rooms, t, email);
            assert forall|x: Seq<char>| #[trigger] total(out.rooms, x) == (if x == email {
                0nat
            } else {
                total(h.rooms, x)
            }) by {
                lemma_count_without(h.rooms[t].occupants, email, x);
                lemma_total_update(h.rooms, t, room, x);
            }
            assert(out.within_capacity()) by {
                lemma_count_without(h.rooms[t].occupants, email, email);
            }
            assert(out.single_occupancy());
            assert(out.pointers_agree()) by {
                assert forall|j: int| 0 <= j < out.residents.len() implies match (
                #[trigger] out.residents[j]).assigned_room {
                    Some(n) => exists|i: int|
                        0 <= i < out.rooms.len() && count(
                            (#[trigger] out.rooms[i]).occupants,
                            out.residents[j].email,
                        ) > 0 && out.rooms[i].number == n,
                    None => total(out.rooms, out.residents[j].email) == 0,
                } by {
                    if j != k {
                        let x = h.residents[j].email;
                        match h.residents[j].assigned_room {
                            Some(n) => {
                                let i = choose|i: int|
                                    0 <= i < h.rooms.len() && count(
                                        (#[trigger] h.rooms[i]).occupants,
                                        x,
                                    ) > 0 && h.rooms[i].number == n;
                                lemma_count_without(h.rooms[i].occupants, email, x);
                                assert(count(out.rooms[i].occupants, x) > 0);
                            },
                            None => {},
                        }
                    }
                }
            }
        }
    }
}

/// What an accepted request to assign leaves behind: the same rooms and
/// residents under the same keys, the resident in the target room and in no
/// other, and the resident's pointer at the target room's number.
pub proof fn lemma_assign_places(h: HousingView, email: Seq<char>, id: Seq<u8>)
    requires
        h.assign_outcome(email, id).is_ok(),
    ensures
        first_with_id(h.rooms, id, h.room_index(id)),
        first_with_email(h.residents, email, h.resident_index(email)),
        h.assign(email, id).rooms.len() == h.rooms.len(),
        h.assign(email, id).residents.len() == h.residents.len(),
        forall|i: int|
            0 <= i < h.rooms.len() ==> {
                let after = #[trigger] h.assign(email, id).rooms[i];
                &&& after.id == h.rooms[i].id
                &&& after.dorm_id == h.rooms[i].dorm_id
                &&& after.number == h.rooms[i].number
                &&& after.capacity == h.rooms[i].capacity
                &&& count(after.occupants, email) == (if i == h.room_index(id) {
                    1nat
                } else {
                    0nat
                })
                &&& after.occupants.contains(email) == (i == h.room_index(id))
            },
        forall|j: int|
            0 <= j < h.residents.len() ==> (#[trigger] h.assign(email, id).residents[j]).email
                == h.residents[j].email,
        h.assign(email, id).residents[h.resident_index(email)].assigned_room == Some(
            h.rooms[h.room_index(id)].number,
        ),
{
    lemma_room_index(h, id);
    lemma_resident_index(h, email);
    let t = h.room_index(id);
    let out = h.assign(email, id);
    assert forall|i: int| 0 <= i < h.rooms.len() implies {
        let after = #[trigger] out.rooms[i];
        &&& count(after.occupants, email) == (if i == t {
            1nat
        } else {
            0nat
        })
        &&& after.occupants.contains(email) == (i == t)
    } by {
        lemma_count_without(h.rooms[i].occupants, email, email);
        if i == t {
            lemma_count_push(without(h.rooms[i].occupants, email), email, email);
        }
        lemma_count_contains(out.rooms[i].occupants, email);
    }
}

/// Unassigning is idempotent: a second request for the same resident answers
/// as the first did and leaves the state as the first left it.
pub proof fn lemma_unassign_idempotent(h: HousingView, email: Seq<char>)
    ensures
        h.unassign(email).unassign_outcome(email) == h.unassign_outcome(email),
        h.unassign(email).unassign(email) == h.unassign(email),
{
    if h.has_resident(email) {
        lemma_resident_index(h, email);
        let k = h.resident_index(email);
        let once = h.unassign(email);
        if h.residents[k].assigned_room.is_some() {
            assert(first_with_email(once.residents, email, k));
            lemma_resident_index(once, email);
        }
    }
}

/// Assigning a resident to the room that an accepted request has just put
/// the resident in is refused, because the resident is already there.
pub proof fn lemma_assign_again_refused(h: HousingView, email: Seq<char>, id: Seq<u8>)
    requires
        h.assign_outcome(email, id).is_ok(),
    ensures
        h.assign(email, id).assign_outcome(email, id) == Err::<Seq<char>, EngineError>(
            EngineError::AlreadyAssigned,
        ),
        h.assign(email, id).assign(email, id) == h.assign(email, id),
{
    lemma_assign_places(h, email, id);
    let t = h.room_index(id);
    let once = h.assign(email, id);
    assert(first_with_id(once.rooms, id, t));
    lemma_room_index(once, id);
}

/// Moving between rooms: after an accepted request for room `a` and then an
/// accepted request for another room `b`, the resident is absent from the
/// first room, present once in the second, and pointed at the second room's
/// number.
pub proof fn lemma_reassign_moves(h: HousingView, email: Seq<char>, a: Seq<u8>, b: Seq<u8>)
    requires
        a != b,
        h.assign_outcome(email, a).is_ok(),
        h.assign(email, a).assign_outcome(email, b).is_ok(),
    ensures
        ({
            let last = h.assign(email, a).assign(email, b);
            let from = h.room_index(a);
            let to = h.assign(email, a).room_index(b);
            let who = h.resident_index(email);
            &&& first_with_id(last.rooms, a, from)
            &&& first_with_id(last.rooms, b, to)
            &&& first_with_email(last.residents, email, who)
            &&& !last.rooms[from].occupants.contains(email)
            &&& count(last.rooms[to].occupants, email) == 1
            &&& last.residents[who].assigned_room == Some(last.rooms[to].number)
        }),
{
    let once = h.assign(email, a);
    let last = once.assign(email, b);
    lemma_assign_places(h, email, a);
    lemma_assign_places(once, email, b);
    let from = h.room_index(a);
    let to = once.room_index(b);
    let who = h.resident_index(email);
    assert(first_with_email(once.residents, email, who));
    assert(first_with_email(last.residents, email, who));
    assert(first_with_id(last.rooms, a, from));
    assert(first_with_id(last.rooms, b, to));
}

/// A new room without occupants and with a capacity that is not negative
/// keeps the occupancy invariants.
pub proof fn lemma_new_room_consistent(h: HousingView, r: RoomView)
    requires
        h.consistent(),
        r.occupants.len() == 0,
        r.capacity >= 0,
    ensures
        (HousingView { rooms: h.rooms.push(r), ..h }).consistent(),
{
    let out = HousingView { rooms: h.rooms.push(r), ..h };
    assert forall|x: Seq<char>| #[trigger] total(out.rooms, x) == total(h.rooms, x) by {
        lemma_total_push(h.rooms, r, x);
    }
    assert(out.single_occupancy());
    assert(out.pointers_agree()) by {
        assert forall|j: int| 0 <= j < out.residents.len() implies match (
        #[trigger] out.residents[j]).assigned_room {
            Some(n) => exists|i: int|
                0 <= i < out.rooms.len() && count(
                    (#[trigger] out.rooms[i]).occupants,
                    out.residents[j].email,
                ) > 0 && out.rooms[i].number == n,
            None => total(out.rooms, out.residents[j].email) == 0,
        } by {
            let x = h.residents[j].email;
            match h.residents[j].assigned_room {
                Some(n) => {
                    let i = choose|i: int|
                        0 <= i < h.rooms.len() && count((#[trigger] h.rooms[i]).occupants, x) > 0
                            && h.rooms[i].number == n;
                    assert(out.rooms[i] == h.rooms[i]);
                },
                None => {},
            }
        }
    }
}

/// A room for one takes one: once a request for a room of capacity one has
/// been accepted, a request of any other resident for that room is refused
/// because the room is full.
pub proof fn lemma_room_for_one(h: HousingView, email: Seq<char>, other: Seq<char>, id: Seq<u8>)
    requires
        h.assign_outcome(email, id).is_ok(),
        h.rooms[h.room_index(id)].capacity == 1,
        other != email,
        h.has_resident(other),
    ensures
        h.assign(email, id).assign_outcome(other, id) == Err::<Seq<char>, EngineError>(
            EngineError::RoomFull,
        ),
{
    lemma_assign_places(h, email, id);
    let t = h.room_index(id);
    let once = h.assign(email, id);
    let k = choose|k: int| 0 <= k < h.residents.len() && (#[trigger] h.residents[k]).email == other;
    assert(once.residents[k].email == other);
    assert(first_with_id(once.rooms, id, t));
    lemma_room_index(once, id);
}

/// No request changes how many rooms there are, nor the number of any room.
pub proof fn lemma_numbers_kept(h: HousingView, call: Call)
    ensures
        h.after(call).rooms.len() == h.rooms.len(),
        forall|i: int|
            0 <= i < h.rooms.len() ==> (#[trigger] h.after(call).rooms[i]).number
                == h.rooms[i].number,
{
    match call {
        Call::Assign { email, room_id } => {
            if h.assign_outcome(email, room_id).is_ok() {
                lemma_assign_places(h, email, room_id);
            }
        },
        Call::Unassign { email } => {
            if h.has_resident(email) {
                lemma_resident_index(h, email);
                let k = h.resident_index(email);
                if let Some(number) = h.residents[k].assigned_room {
                    if h.has_number(number) {
                        lemma_number_index(h, number);
                    }
                }
            }
        },
    }
}

/// No request puts a room over its capacity or a resident into two rooms,
/// whatever the pointers say.
pub proof fn lemma_call_keeps_occupancy(h: HousingView, call: Call)
    requires
        h.within_capacity(),
        h.single_occupancy(),
    ensures
        h.after(call).within_capacity(),
        h.after(call).single_occupancy(),
{
    let out = h.after(call);
    match call {
        Call::Assign { email, room_id } => {
            if h.assign_outcome(email, room_id).is_ok() {
                lemma_assign_totals(h, email, room_id);
            }
        },
        Call::Unassign { email } => {
            if h.has_resident(email) {
                lemma_resident_index(h, email);
                let k = h.resident_index(email);
                if let Some(number) = h.residents[k].assigned_room {
                    if h.has_number(number) {
                        lemma_number_index(h, number);
                        let t = h.number_index(number);
                        let room = out.rooms[t];
                        assert(out.rooms =~= h.rooms.update(t, room));
                        assert(out.within_capacity()) by {
                            lemma_count_without(h.rooms[t].occupants, email, email);
                        }
                        assert forall|x: Seq<char>| #[trigger] total(out.rooms, x) <= 1 by {
                            lemma_count_without(h.rooms[t].occupants, email, x);
                            lemma_total_update(h.rooms, t, room, x);
                        }
                    }
                }
            }
        },
    }
}

/// After any sequence of requests, accepted or refused, no room holds more
/// occupants than its capacity and no resident occupies two rooms, if that
/// was so before.
pub proof fn lemma_calls_keep_occupancy(h: HousingView, calls: Seq<Call>)
    requires
        h.within_capacity(),
        h.single_occupancy(),
    ensures
        h.after_all(calls).within_capacity(),
        h.after_all(calls).single_occupancy(),
    decreases calls.len(),
{
    if calls.len() > 0 {
        lemma_calls_keep_occupancy(h, calls.drop_last());
        lemma_call_keeps_occupancy(h.after_all(calls.drop_last()), calls.last());
    }
}

/// The occupancy invariants hold after any sequence of requests, accepted or
/// refused, that starts from a consistent state in which no two rooms share a
/// number: no room is over its capacity, no resident occupies two rooms, and
/// every pointer names the room that holds its resident.
pub proof fn lemma_calls_keep_consistent(h: HousingView, calls: Seq<Call>)
    requires
        h.consistent(),
        h.numbers_distinct(),
    ensures
        h.after_all(calls).consistent(),
        h.after_all(calls).numbers_distinct(),
    decreases calls.len(),
{
    if calls.len() > 0 {
        let before = h.after_all(calls.drop_last());
        lemma_calls_keep_consistent(h, calls.drop_last());
        lemma_numbers_kept(before, calls.last());
        match calls.last() {
            Call::Assign { email, room_id } => {
                lemma_assign_consistent(before, email, room_id);
            },
            Call::Unassign { email } => {
                lemma_unassign_consistent(before, email);
            },
        }
    }
}

} // verus!

//! The occupancy rules as mathematics: what assigning and unassigning do to a
//! housing state, the invariants that a consistent state satisfies, and the
//! proofs that the two operations keep them.

use crate::error::EngineError;
use crate::model::{ResidentView, RoomView};
use vstd::prelude::*;

verus! {

/// How often `email` occurs in the occupant list `occupants`.
pub open spec fn count(occupants: Seq<Seq<char>>, email: Seq<char>) -> nat
    decreases occupants.len(),
{
    if occupants.len() == 0 {
        0
    } else {
        count(occupants.drop_last(), email) + if occupants.last() == email {
            1nat
        } else {
            0nat
        }
    }
}

/// The occupant list `occupants` with every occurrence of `email` removed and
/// the order of the others kept.
pub open spec fn without(occupants: Seq<Seq<char>>, email: Seq<char>) -> Seq<Seq<char>>
    decreases occupants.len(),
{
    if occupants.len() == 0 {
        occupants
    } else if occupants.last() == email {
        without(occupants.drop_last(), email)
    } else {
        without(occupants.drop_last(), email).push(occupants.last())
    }
}

/// How often `email` occurs in the occupant lists of `rooms`, all together.
pub open spec fn total(rooms: Seq<RoomView>, email: Seq<char>) -> nat
    decreases rooms.len(),
{
    if rooms.len() == 0 {
        0
    } else {
        total(rooms.drop_last(), email) + count(rooms.last().occupants, email)
    }
}

/// Whether `room` can take `email` as a new occupant: not where the room
/// already holds that email, and not where the room is full.
pub open spec fn admission(room: RoomView, email: Seq<char>) -> Result<(), EngineError> {
    if room.occupants.contains(email) {
        Err(EngineError::AlreadyAssigned)
    } else if room.occupants.len() >= room.capacity {
        Err(EngineError::RoomFull)
    } else {
        Ok(())
    }
}

/// Room `i` is the first of `rooms` with the identifier `id`.
pub open spec fn first_with_id(rooms: Seq<RoomView>, id: Seq<u8>, i: int) -> bool {
    &&& 0 <= i < rooms.len()
    &&& rooms[i].id == id
    &&& forall|j: int| 0 <= j < i ==> (#[trigger] rooms[j]).id != id
}

/// Room `i` is the first of `rooms` with the number `number`.
pub open spec fn first_with_number(rooms: Seq<RoomView>, number: Seq<char>, i: int) -> bool {
    &&& 0 <= i < rooms.len()
    &&& rooms[i].number == number
    &&& forall|j: int| 0 <= j < i ==> (#[trigger] rooms[j]).number != number
}

/// Resident `k` is the first of `residents` with the email `email`.
pub open spec fn first_with_email(residents: Seq<ResidentView>, email: Seq<char>, k: int) -> bool {
    &&& 0 <= k < residents.len()
    &&& residents[k].email == email
    &&& forall|j: int| 0 <= j < k ==> (#[trigger] residents[j]).email != email
}

/// The rooms after `email` has left every room.
pub open spec fn evicted(rooms: Seq<RoomView>, email: Seq<char>) -> Seq<RoomView> {
    Seq::new(
        rooms.len(),
        |i: int| RoomView { occupants: without(rooms[i].occupants, email), ..rooms[i] },
    )
}

/// The rooms after `email` has left the room at `t` and no other.
pub open spec fn vacated(rooms: Seq<RoomView>, t: int, email: Seq<char>) -> Seq<RoomView> {
    Seq::new(
        rooms.len(),
        |i: int|
            if i == t {
                RoomView { occupants: without(rooms[i].occupants, email), ..rooms[i] }
            } else {
                rooms[i]
            },
    )
}

/// The rooms after `email` has been added at the end of the room at `t`.
pub open spec fn admitted(rooms: Seq<RoomView>, t: int, email: Seq<char>) -> Seq<RoomView> {
    Seq::new(
        rooms.len(),
        |i: int|
            if i == t {
                RoomView { occupants: rooms[i].occupants.push(email), ..rooms[i] }
            } else {
                rooms[i]
            },
    )
}

/// The residents after the one at `k` has been given the pointer `pointer`.
pub open spec fn repointed(residents: Seq<ResidentView>, k: int, pointer: Option<Seq<char>>) -> Seq<
    ResidentView,
> {
    Seq::new(
        residents.len(),
        |i: int|
            if i == k {
                ResidentView { assigned_room: pointer, ..residents[i] }
            } else {
                residents[i]
            },
    )
}

/// A request to the engine.
pub enum Call {
    /// Assign the resident `email` to the room `room_id`.
    Assign { email: Seq<char>, room_id: Seq<u8> },
    /// Take the resident `email` out of their room.
    Unassign { email: Seq<char> },
}

/// The state of the housing: every room and every resident.
pub struct HousingView {
    pub rooms: Seq<RoomView>,
    pub residents: Seq<ResidentView>,
}

impl HousingView {
    /// Some room has the identifier `id`.
    pub open spec fn has_room(self, id: Seq<u8>) -> bool {
        exists|i: int| 0 <= i < self.rooms.len() && (#[trigger] self.rooms[i]).id == id
    }

    /// Some room has the number `number`.
    pub open spec fn has_number(self, number: Seq<char>) -> bool {
        exists|i: int| 0 <= i < self.rooms.len() && (#[trigger] self.rooms[i]).number == number
    }

    /// Some resident has the email `email`.
    pub open spec fn has_resident(self, email: Seq<char>) -> bool {
        exists|k: int| 0 <= k < self.residents.len() && (#[trigger] self.residents[k]).email == email
    }

    /// The place of the first room with the identifier `id`.
    pub open spec fn room_index(self, id: Seq<u8>) -> int {
        choose|i: int| first_with_id(self.rooms, id, i)
    }

    /// The place of the first room with the number `number`.
    pub open spec fn number_index(self, number: Seq<char>) -> int {
        choose|i: int| first_with_number(self.rooms, number, i)
    }

    /// The place of the first resident with the email `email`.
    pub open spec fn resident_index(self, email: Seq<char>) -> int {
        choose|k: int| first_with_email(self.residents, email, k)
    }

    /// No room holds more occupants than its capacity.
    pub open spec fn within_capacity(self) -> bool {
        forall|i: int|
            0 <= i < self.rooms.len() ==> (#[trigger] self.rooms[i]).occupants.len()
                <= self.rooms[i].capacity
    }

    /// No email occurs more than once in all the occupant lists together.
    pub open spec fn single_occupancy(self) -> bool {
        forall|email: Seq<char>| #[trigger] total(self.rooms, email) <= 1
    }

    /// A resident's pointer names a room that holds the resident, and is empty
    /// exactly when no room does.
    pub open spec fn pointers_agree(self) -> bool {
        forall|k: int|
            0 <= k < self.residents.len() ==> match (#[trigger] self.residents[k]).assigned_room {
                Some(number) => exists|i: int|
                    0 <= i < self.rooms.len() && count(
                        (#[trigger] self.rooms[i]).occupants,
                        self.residents[k].email,
                    ) > 0 && self.rooms[i].number == number,
                None => total(self.rooms, self.residents[k].email) == 0,
            }
    }

    /// No two residents share an email.
    pub open spec fn emails_distinct(self) -> bool {
        forall|j: int, k: int|
            0 <= j < k < self.residents.len() ==> (#[trigger] self.residents[j]).email != (
            #[trigger] self.residents[k]).email
    }

    /// No two rooms share an identifier.
    pub open spec fn ids_distinct(self) -> bool {
        forall|i: int, j: int|
            0 <= i < j < self.rooms.len() ==> (#[trigger] self.rooms[i]).id != (
            #[trigger] self.rooms[j]).id
    }

    /// No two rooms share a number.
    pub open spec fn numbers_distinct(self) -> bool {
        forall|i: int, j: int|
            0 <= i < j < self.rooms.len() ==> (#[trigger] self.rooms[i]).number != (
            #[trigger] self.rooms[j]).number
    }

    /// The occupancy invariants: capacity is respected, a resident occupies at
    /// most one room, and each resident's pointer agrees with the occupant
    /// lists.
    pub open spec fn consistent(self) -> bool {
        &&& self.within_capacity()
        &&& self.single_occupancy()
        &&& self.pointers_agree()
        &&& self.emails_distinct()
    }

    /// What a request to assign `email` to the room `id` answers: the room's
    /// number, or the reason for refusing.
    pub open spec fn assign_outcome(self, email: Seq<char>, id: Seq<u8>) -> Result<
        Seq<char>,
        EngineError,
    > {
        if !self.has_resident(email) || !self.has_room(id) {
            Err(EngineError::NotFound)
        } else {
            let room = self.rooms[self.room_index(id)];
            match admission(room, email) {
                Err(e) => Err(e),
                Ok(_) => Ok(room.number),
            }
        }
    }

    /// The state after a request to assign `email` to the room `id`. A refused
    /// request changes nothing. An accepted one takes the resident out of every
    /// room, adds the resident at the end of the target room and points the
    /// resident at that room's number.
    pub open spec fn assign(self, email: Seq<char>, id: Seq<u8>) -> HousingView {
        if self.assign_outcome(email, id).is_ok() {
            let t = self.room_index(id);
            HousingView {
                rooms: admitted(evicted(self.rooms, email), t, email),
                residents: repointed(
                    self.residents,
                    self.resident_index(email),
                    Some(self.rooms[t].number),
                ),
            }
        } else {
            self
        }
    }

    /// What a request to unassign `email` answers.
    pub open spec fn unassign_outcome(self, email: Seq<char>) -> Result<(), EngineError> {
        if self.has_resident(email) {
            Ok(())
        } else {
            Err(EngineError::NotFound)
        }
    }

    /// The state after a request to unassign `email`. Where the resident is
    /// unknown or has no pointer nothing changes. Otherwise the resident leaves
    /// the first room with the number that the pointer names, if there is one,
    /// and the pointer is emptied.
    pub open spec fn unassign(self, email: Seq<char>) -> HousingView {
        if !self.has_resident(email) {
            self
        } else {
            let k = self.resident_index(email);
            match self.residents[k].assigned_room {
                None => self,
                Some(number) => HousingView {
                    rooms: if self.has_number(number) {
                        vacated(self.rooms, self.number_index(number), email)
                    } else {
                        self.rooms
                    },
                    residents: repointed(self.residents, k, None),
                },
            }
        }
    }

    /// The state after the request `call`.
    pub open spec fn after(self, call: Call) -> HousingView {
        match call {
            Call::Assign { email, room_id } => self.assign(email, room_id),
            Call::Unassign { email } => self.unassign(email),
        }
    }

    /// The state after the requests `calls`, made one after the other.
    pub open spec fn after_all(self, calls: Seq<Call>) -> HousingView
        decreases calls.len(),
    {
        if calls.len() == 0 {
            self
        } else {
            self.after_all(calls.drop_last()).after(calls.last())
        }
    }
}

} // verus!

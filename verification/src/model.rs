//! The stored records that the occupancy engine reads and changes, and the
//! mathematical values that stand for them in contracts.

use crate::ident::Oid;
use vstd::prelude::*;

verus! {

/// A membership record in a room's occupant list. It carries the email of the
/// resident it stands for.
#[derive(Debug)]
pub struct Occupant {
    pub email: String,
}

/// A room of a dorm: a container of residents bounded by its capacity.
#[derive(Debug)]
pub struct Room {
    pub id: Oid,
    pub dorm_id: Oid,
    pub number: String,
    pub capacity: i32,
    pub occupants: Vec<Occupant>,
}

/// A person who may occupy at most one room. `assigned_room` names that room
/// by its number.
#[derive(Debug)]
pub struct Resident {
    pub id: Oid,
    pub email: String,
    pub secret: String,
    pub assigned_room: Option<String>,
}

/// What a room is, as a mathematical value.
pub struct RoomView {
    pub id: Seq<u8>,
    pub dorm_id: Seq<u8>,
    pub number: Seq<char>,
    pub capacity: int,
    pub occupants: Seq<Seq<char>>,
}

/// What a resident is, as a mathematical value.
pub struct ResidentView {
    pub id: Seq<u8>,
    pub email: Seq<char>,
    pub secret: Seq<char>,
    pub assigned_room: Option<Seq<char>>,
}

/// The emails carried by a list of membership records, in order.
pub open spec fn emails(records: Seq<Occupant>) -> Seq<Seq<char>> {
    Seq::new(records.len(), |i: int| records[i].email@)
}

/// The value of an optional room number.
pub open spec fn pointer_view(p: Option<String>) -> Option<Seq<char>> {
    match p {
        Some(n) => Some(n@),
        None => None,
    }
}

impl View for Room {
    type V = RoomView;

    open spec fn view(&self) -> RoomView {
        RoomView {
            id: self.id@,
            dorm_id: self.dorm_id@,
            number: self.number@,
            capacity: self.capacity as int,
            occupants: emails(self.occupants@),
        }
    }
}

impl View for Resident {
    type V = ResidentView;

    open spec fn view(&self) -> ResidentView {
        ResidentView {
            id: self.id@,
            email: self.email@,
            secret: self.secret@,
            assigned_room: pointer_view(self.assigned_room),
        }
    }
}

/// The values of a list of rooms, in order.
pub open spec fn room_views(rooms: Seq<Room>) -> Seq<RoomView> {
    Seq::new(rooms.len(), |i: int| rooms[i]@)
}

/// The values of a list of residents, in order.
pub open spec fn resident_views(residents: Seq<Resident>) -> Seq<ResidentView> {
    Seq::new(residents.len(), |i: int| residents[i]@)
}

} // verus!

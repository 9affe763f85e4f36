//! The assignment engine: the housing state and the two operations that move
//! a resident into, between and out of rooms.

use crate::error::EngineError;
use crate::ident::{identifier_bytes, is_identifier_text, Oid};
use crate::laws::{
    lemma_assign_consistent, lemma_call_keeps_occupancy, lemma_new_room_consistent,
    lemma_number_index, lemma_resident_index, lemma_room_index, lemma_unassign_consistent,
};
use crate::model::{
    emails, resident_views, room_views, Occupant, Resident, ResidentView, Room, RoomView,
};
use crate::rules::{
    admission, admitted, evicted, first_with_email, first_with_id, first_with_number, repointed,
    total, vacated, without, Call, HousingView,
};
use vstd::prelude::*;

verus! {

/// Whether `email` occurs in the occupant list `records`.
pub fn holds(records: &Vec<Occupant>, email: &String) -> (r: bool)
    ensures
        r == emails(records@).contains(email@),
{
    let mut j: usize = 0;
    while j < records.len()
        invariant
            j <= records@.len(),
            forall|a: int| 0 <= a < j ==> emails(records@)[a] != email@,
        decreases records@.len() - j,
    {
        if records[j].email == *email {
            assert(emails(records@)[j as int] == email@);
            return true;
        }
        j += 1;
    }
    false
}

/// The occupant list `records` with every record of `email` removed and the
/// order of the others kept.
pub fn without_email(records: &Vec<Occupant>, email: &String) -> (out: Vec<Occupant>)
    ensures
        emails(out@) == without(emails(records@), email@),
{
    let mut out: Vec<Occupant> = Vec::new();
    let mut j: usize = 0;
    while j < records.len()
        invariant
            j <= records@.len(),
            emails(out@) =~= without(emails(records@).take(j as int), email@),
        decreases records@.len() - j,
    {
        proof {
            let s = emails(records@).take(j + 1);
            assert(s.drop_last() =~= emails(records@).take(j as int));
        }
        if !(records[j].email == *email) {
            out.push(Occupant { email: records[j].email.clone() });
        }
        j += 1;
    }
    assert(emails(records@).take(records@.len() as int) =~= emails(records@));
    out
}

impl Room {
    /// Whether this room can take `email` as a new occupant.
    pub fn admission(&self, email: &String) -> (r: Result<(), EngineError>)
        ensures
            r == admission(self@, email@),
    {
        if holds(&self.occupants, email) {
            return Err(EngineError::AlreadyAssigned);
        }
        if self.capacity <= 0 || self.occupants.len() >= self.capacity as usize {
            return Err(EngineError::RoomFull);
        }
        Ok(())
    }

    /// The occupant list of this room once `email` has joined it: the present
    /// list without any record of `email`, then one record of `email`.
    pub fn joined_by(&self, email: &String) -> (out: Vec<Occupant>)
        ensures
            emails(out@) == without(emails(self.occupants@), email@).push(email@),
    {
        let mut out = without_email(&self.occupants, email);
        out.push(Occupant { email: email.clone() });
        out
    }
}

/// The housing that the engine manages: its rooms and its residents.
#[derive(Debug)]
pub struct Housing {
    pub rooms: Vec<Room>,
    pub residents: Vec<Resident>,
}

impl View for Housing {
    type V = HousingView;

    open spec fn view(&self) -> HousingView {
        HousingView { rooms: room_views(self.rooms@), residents: resident_views(self.residents@) }
    }
}

impl Housing {
    /// A housing without rooms and without residents.
    pub fn new() -> (h: Housing)
        ensures
            h@.rooms.len() == 0,
            h@.residents.len() == 0,
            h@.consistent(),
            h@.numbers_distinct(),
    {
        Housing { rooms: Vec::new(), residents: Vec::new() }
    }

    /// Adds a room without occupants after the rooms that are there.
    pub fn create_room(&mut self, id: Oid, dorm_id: Oid, number: &str, capacity: i32)
        ensures
            final(self)@.residents == old(self)@.residents,
            final(self)@.rooms == old(self)@.rooms.push(
                (RoomView {
                    id: id@,
                    dorm_id: dorm_id@,
                    number: number@,
                    capacity: capacity as int,
                    occupants: Seq::empty(),
                }),
            ),
            old(self)@.consistent() && capacity >= 0 ==> final(self)@.consistent(),
    {
        let ghost before = self@;
        let room = Room { id, dorm_id, number: number.to_owned(), capacity, occupants: Vec::new() };
        assert(room@.occupants =~= Seq::empty());
        self.rooms.push(room);
        proof {
            if before.consistent() && capacity >= 0 {
                lemma_new_room_consistent(before, room@);
            }
        }
    }

    /// Adds a resident without a room after the residents that are there,
    /// unless a resident with this email is known already. Says whether the
    /// resident was added.
    pub fn create_student(&mut self, id: Oid, email: &str, secret: &str) -> (added: bool)
        ensures
            added == !old(self)@.has_resident(email@),
            final(self)@.rooms == old(self)@.rooms,
            added ==> final(self)@.residents == old(self)@.residents.push(
                (ResidentView { id: id@, email: email@, secret: secret@, assigned_room: None }),
            ),
            !added ==> final(self)@.residents == old(self)@.residents,
            old(self)@.consistent() && total(old(self)@.rooms, email@) == 0
                ==> final(self)@.consistent(),
    {
        let ghost before = self@;
        let owned: String = email.to_owned();
        if self.find_resident(&owned).is_some() {
            return false;
        }
        let resident = Resident { id, email: owned, secret: secret.to_owned(), assigned_room: None };
        self.residents.push(resident);
        assert(self@.residents =~= before.residents.push(resident@));
        true
    }

    /// The places of the rooms of the dorm `dorm_id`, in rising order.
    pub fn rooms_of_dorm(&self, dorm_id: &Oid) -> (out: Vec<usize>)
        ensures
            forall|a: int|
                0 <= a < out@.len() ==> 0 <= #[trigger] out@[a] < self@.rooms.len()
                    && self@.rooms[out@[a] as int].dorm_id == dorm_id@,
            forall|a: int, b: int| 0 <= a < b < out@.len() ==> out@[a] < out@[b],
            forall|i: int|
                0 <= i < self@.rooms.len() && (#[trigger] self@.rooms[i]).dorm_id == dorm_id@
                    ==> out@.contains(i as usize),
    {
        let mut out: Vec<usize> = Vec::new();
        let mut i: usize = 0;
        while i < self.rooms.len()
            invariant
                i <= self.rooms@.len(),
                forall|a: int|
                    0 <= a < out@.len() ==> 0 <= #[trigger] out@[a] < i
                        && self@.rooms[out@[a] as int].dorm_id == dorm_id@,
                forall|a: int, b: int| 0 <= a < b < out@.len() ==> out@[a] < out@[b],
                forall|j: int|
                    0 <= j < i && (#[trigger] self@.rooms[j]).dorm_id == dorm_id@
                        ==> out@.contains(j as usize),
            decreases self.rooms@.len() - i,
        {
            if self.rooms[i].dorm_id.same(dorm_id) {
                let ghost before = out@;
                out.push(i);
                assert(out@[before.len() as int] == i);
                assert forall|j: int|
                    0 <= j < i + 1 && (#[trigger] self@.rooms[j]).dorm_id
                        == dorm_id@ implies out@.contains(j as usize) by {
                    if j < i {
                        let a = choose|a: int| 0 <= a < before.len() && before[a] == j as usize;
                        assert(out@[a] == j as usize);
                    }
                }
            }
            i += 1;
        }
        out
    }

    /// The places of the rooms of the dorm whose identifier is written in
    /// `dorm_id`, in rising order. A text that is no identifier is refused.
    pub fn list_rooms(&self, dorm_id: &str) -> (r: Result<Vec<usize>, EngineError>)
        ensures
            !is_identifier_text(dorm_id@) ==> r == Err::<Vec<usize>, EngineError>(
                EngineError::InvalidIdentifier,
            ),
            is_identifier_text(dorm_id@) ==> (r matches Ok(out) && {
                let id = identifier_bytes(dorm_id@);
                &&& forall|a: int|
                    0 <= a < out@.len() ==> 0 <= #[trigger] out@[a] < self@.rooms.len()
                        && self@.rooms[out@[a] as int].dorm_id == id
                &&& forall|a: int, b: int| 0 <= a < b < out@.len() ==> out@[a] < out@[b]
                &&& forall|i: int|
                    0 <= i < self@.rooms.len() && (#[trigger] self@.rooms[i]).dorm_id == id
                        ==> out@.contains(i as usize)
            }),
    {
        match Oid::parse_str(dorm_id) {
            Ok(id) => Ok(self.rooms_of_dorm(&id)),
            Err(_) => Err(EngineError::InvalidIdentifier),
        }
    }

    /// The place of the first room with the identifier `id`, if there is one.
    pub fn find_room(&self, id: &Oid) -> (r: Option<usize>)
        ensures
            match r {
                Some(i) => first_with_id(self@.rooms, id@, i as int),
                None => !self@.has_room(id@),
            },
    {
        let mut i: usize = 0;
        while i < self.rooms.len()
            invariant
                i <= self.rooms@.len(),
                forall|j: int| 0 <= j < i ==> (#[trigger] self@.rooms[j]).id != id@,
            decreases self.rooms@.len() - i,
        {
            if self.rooms[i].id.same(id) {
                return Some(i);
            }
            i += 1;
        }
        None
    }

    /// The place of the first room with the number `number`, if there is one.
    pub fn find_number(&self, number: &String) -> (r: Option<usize>)
        ensures
            match r {
                Some(i) => first_with_number(self@.rooms, number@, i as int),
                None => !self@.has_number(number@),
            },
    {
        let mut i: usize = 0;
        while i < self.rooms.len()
            invariant
                i <= self.rooms@.len(),
                forall|j: int| 0 <= j < i ==> (#[trigger] self@.rooms[j]).number != number@,
            decreases self.rooms@.len() - i,
        {
            if self.rooms[i].number == *number {
                return Some(i);
            }
            i += 1;
        }
        None
    }

    /// The place of the first resident with the email `email`, if there is one.
    pub fn find_resident(&self, email: &String) -> (r: Option<usize>)
        ensures
            match r {
                Some(k) => first_with_email(self@.residents, email@, k as int),
                None => !self@.has_resident(email@),
            },
    {
        let mut k: usize = 0;
        while k < self.residents.len()
            invariant
                k <= self.residents@.len(),
                forall|j: int| 0 <= j < k ==> (#[trigger] self@.residents[j]).email != email@,
            decreases self.residents@.len() - k,
        {
            if self.residents[k].email == *email {
                return Some(k);
            }
            k += 1;
        }
        None
    }

    /// Assigns the resident `email` to the room `room_id`.
    ///
    /// The request is refused, and nothing changes, where the resident or the
    /// room is unknown, where the resident already occupies the room, or where
    /// the room is full. Otherwise the resident leaves every room, joins the
    /// target room as its last occupant, and is pointed at that room's number,
    /// which is returned. The exclusive borrow makes the check and the change
    /// one step.
    pub fn assign(&mut self, email: &str, room_id: &Oid) -> (r: Result<String, EngineError>)
        ensures
            final(self)@ == old(self)@.assign(email@, room_id@),
            match r {
                Ok(number) => old(self)@.assign_outcome(email@, room_id@) == Ok::<
                    Seq<char>,
                    EngineError,
                >(number@),
                Err(e) => old(self)@.assign_outcome(email@, room_id@) == Err::<
                    Seq<char>,
                    EngineError,
                >(e),
            },
            r.is_err() ==> final(self)@ == old(self)@,
            !old(self)@.has_room(room_id@) ==> r == Err::<String, EngineError>(
                EngineError::NotFound,
            ),
            old(self)@.within_capacity() && old(self)@.single_occupancy()
                ==> final(self)@.within_capacity() && final(self)@.single_occupancy(),
            old(self)@.consistent() ==> final(self)@.consistent(),
    {
        let owned: String = email.to_owned();
        let ghost before = self@;
        let k = match self.find_resident(&owned) {
            Some(k) => k,
            None => {
                return Err(EngineError::NotFound);
            },
        };
        let t = match self.find_room(room_id) {
            Some(t) => t,
            None => {
                return Err(EngineError::NotFound);
            },
        };
        proof {
            lemma_room_index(before, room_id@);
            lemma_resident_index(before, owned@);
        }
        match self.rooms[t].admission(&owned) {
            Err(e) => {
                return Err(e);
            },
            Ok(_) => {},
        }
        let number: String = self.rooms[t].number.clone();
        let answer: String = number.clone();
        let n: usize = self.rooms.len();
        let mut i: usize = 0;
        while i < n
            invariant
                i <= n,
                t < n,
                n == self.rooms@.len(),
                n == before.rooms.len(),
                owned@ == email@,
                self.residents == old(self).residents,
                forall|j: int|
                    0 <= j < i ==> (#[trigger] self.rooms@[j])@ == admitted(
                        evicted(before.rooms, owned@),
                        t as int,
                        owned@,
                    )[j],
                forall|j: int| i <= j < n ==> (#[trigger] self.rooms@[j])@ == before.rooms[j],
            decreases n - i,
        {
            let kept = if i == t {
                self.rooms[i].joined_by(&owned)
            } else {
                without_email(&self.rooms[i].occupants, &owned)
            };
            self.rooms[i].occupants = kept;
            i += 1;
        }
        self.residents[k].assigned_room = Some(number);
        proof {
            assert(self@.rooms =~= admitted(evicted(before.rooms, owned@), t as int, owned@));
            assert(self@.residents =~= repointed(before.residents, k as int, Some(answer@)));
            if before.within_capacity() && before.single_occupancy() {
                lemma_call_keeps_occupancy(
                    before,
                    Call::Assign { email: email@, room_id: room_id@ },
                );
            }
            if before.consistent() {
                lemma_assign_consistent(before, email@, room_id@);
            }
        }
        Ok(answer)
    }

    /// Takes the resident `email` out of the room that the resident's pointer
    /// names.
    ///
    /// An unknown resident is refused. A resident without a pointer is left as
    /// is. Otherwise the resident leaves the first room with the number that
    /// the pointer names, if there is such a room, and the pointer is emptied.
    pub fn unassign(&mut self, email: &str) -> (r: Result<(), EngineError>)
        ensures
            final(self)@ == old(self)@.unassign(email@),
            r == old(self)@.unassign_outcome(email@),
            old(self)@.within_capacity() && old(self)@.single_occupancy()
                ==> final(self)@.within_capacity() && final(self)@.single_occupancy(),
            old(self)@.consistent() && old(self)@.numbers_distinct() ==> final(self)@.consistent(),
    {
        let owned: String = email.to_owned();
        let ghost before = self@;
        let k = match self.find_resident(&owned) {
            Some(k) => k,
            None => {
                return Err(EngineError::NotFound);
            },
        };
        proof {
            lemma_resident_index(before, owned@);
            if before.within_capacity() && before.single_occupancy() {
                lemma_call_keeps_occupancy(before, Call::Unassign { email: email@ });
            }
            if before.consistent() && before.numbers_distinct() {
                lemma_unassign_consistent(before, email@);
            }
        }
        let found = match &self.residents[k].assigned_room {
            None => {
                return Ok(());
            },
            Some(number) => self.find_number(number),
        };
        match found {
            Some(t) => {
                proof {
                    lemma_number_index(before, before.residents[k as int].assigned_room.unwrap());
                }
                let kept = without_email(&self.rooms[t].occupants, &owned);
                self.rooms[t].occupants = kept;
                assert(self@.rooms =~= vacated(before.rooms, t as int, owned@));
            },
            None => {},
        }
        self.residents[k].assigned_room = None;
        assert(self@.residents =~= repointed(before.residents, k as int, None));
        Ok(())
    }
}

} // verus!

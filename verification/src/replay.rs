//! The conversation with the store, replayed against the housing state. A
//! store that serves one operation at a time and does not fail is a function
//! on the state; run against it, the engine's steps make the change that the
//! occupancy rules define.

use crate::error::EngineError;
use crate::laws::{
    lemma_assign_totals, lemma_count_without, lemma_number_index, lemma_resident_index,
    lemma_room_index, lemma_total_update, lemma_without_absent,
};
use crate::model::RoomView;
use crate::protocol::{
    assign_opening, next_step, unassign_opening, ReplyView, RequestView, StepView,
};
use crate::rules::{evicted, first_with_id, repointed, total, without, HousingView};
use vstd::prelude::*;

verus! {

/// What a store in the state `h` replies to the request `q`, and the state
/// that it is in afterwards. A lookup gives the first match. A change to a
/// record that does not exist changes nothing.
pub open spec fn serve(h: HousingView, q: RequestView) -> (HousingView, ReplyView) {
    match q {
        RequestView::FindResident { email } => (
            h,
            ReplyView::Resident(
                if h.has_resident(email) {
                    Some(h.residents[h.resident_index(email)])
                } else {
                    None
                },
            ),
        ),
        RequestView::FindRoom { id } => (
            h,
            ReplyView::Room(
                if h.has_room(id) {
                    Some(h.rooms[h.room_index(id)])
                } else {
                    None
                },
            ),
        ),
        RequestView::FindRoomByNumber { number } => (
            h,
            ReplyView::Room(
                if h.has_number(number) {
                    Some(h.rooms[h.number_index(number)])
                } else {
                    None
                },
            ),
        ),
        RequestView::EvictEverywhere { email } => (
            HousingView { rooms: evicted(h.rooms, email), ..h },
            ReplyView::Written,
        ),
        RequestView::WriteOccupants { id, occupants } => (
            if h.has_room(id) {
                let t = h.room_index(id);
                HousingView { rooms: h.rooms.update(t, RoomView { occupants, ..h.rooms[t] }), ..h }
            } else {
                h
            },
            ReplyView::Written,
        ),
        RequestView::WritePointer { email, pointer } => (
            if h.has_resident(email) {
                HousingView {
                    residents: repointed(h.residents, h.resident_index(email), pointer),
                    ..h
                }
            } else {
                h
            },
            ReplyView::Written,
        ),
    }
}

/// The state and the step reached from the state `h` and the step `step` when
/// the store serves up to `rounds` requests.
pub open spec fn run(h: HousingView, step: StepView, rounds: nat) -> (HousingView, StepView)
    decreases rounds,
{
    if rounds == 0 {
        (h, step)
    } else {
        match step {
            StepView::Finish(_) => (h, step),
            StepView::Ask(p, q) => {
                let served = serve(h, q);
                run(served.0, next_step(p, served.1), (rounds - 1) as nat)
            },
        }
    }
}

/// How the answer of an assignment is reported at the end of its steps.
pub open spec fn assign_report(outcome: Result<Seq<char>, EngineError>) -> StepView {
    match outcome {
        Ok(number) => StepView::Finish(Ok(Some(number))),
        Err(e) => StepView::Finish(Err(e)),
    }
}

/// How the answer of an unassignment is reported at the end of its steps.
pub open spec fn unassign_report(outcome: Result<(), EngineError>) -> StepView {
    match outcome {
        Ok(_) => StepView::Finish(Ok(None)),
        Err(e) => StepView::Finish(Err(e)),
    }
}

/// The steps of an assignment, served by a store that does not fail and does
/// nothing else meanwhile, end within five requests, in the state and with
/// the answer that the occupancy rules give.
pub proof fn lemma_assign_steps_conform(h: HousingView, email: Seq<char>, id: Seq<u8>)
    ensures
        run(h, assign_opening(email, id), 5) == (
            h.assign(email, id),
            assign_report(h.assign_outcome(email, id)),
        ),
{
    reveal_with_fuel(run, 6);
    if h.has_resident(email) && h.has_room(id) {
        lemma_room_index(h, id);
        lemma_resident_index(h, email);
        let t = h.room_index(id);
        if h.assign_outcome(email, id).is_ok() {
            let h1 = HousingView { rooms: evicted(h.rooms, email), ..h };
            assert(first_with_id(h1.rooms, id, t));
            lemma_room_index(h1, id);
            let target = h.assign(email, id);
            let written = serve(
                h1,
                RequestView::WriteOccupants { id, occupants: target.rooms[t].occupants },
            ).0;
            assert(written.rooms =~= target.rooms);
        }
    }
}

/// The steps of an unassignment, served by a store that does not fail and
/// does nothing else meanwhile, end within four requests, in the state and
/// with the answer that the occupancy rules give, provided that no two rooms
/// share an identifier: the room that was found by its number is written by
/// its identifier.
pub proof fn lemma_unassign_steps_conform(h: HousingView, email: Seq<char>)
    requires
        h.ids_distinct(),
    ensures
        run(h, unassign_opening(email), 4) == (
            h.unassign(email),
            unassign_report(h.unassign_outcome(email)),
        ),
{
    reveal_with_fuel(run, 5);
    if h.has_resident(email) {
        lemma_resident_index(h, email);
        let k = h.resident_index(email);
        if let Some(number) = h.residents[k].assigned_room {
            let target = h.unassign(email);
            if h.has_number(number) {
                lemma_number_index(h, number);
                let t = h.number_index(number);
                lemma_room_index(h, h.rooms[t].id);
                if h.rooms[t].occupants.contains(email) {
                    let written = serve(
                        h,
                        RequestView::WriteOccupants {
                            id: h.rooms[t].id,
                            occupants: target.rooms[t].occupants,
                        },
                    ).0;
                    assert(written.rooms =~= target.rooms);
                } else {
                    lemma_without_absent(h.rooms[t].occupants, email);
                    assert(target.rooms =~= h.rooms);
                }
            }
        }
    }
}

/// An assignment that is cut short keeps rooms within capacity and residents
/// in at most one room: whatever the number of requests after which the store
/// stops being served, no room of the state reached is over its capacity and
/// no email occurs twice in it. Only the resident's pointer can be left
/// behind, and the next accepted assignment sets it right.
pub proof fn lemma_assign_steps_safe(h: HousingView, email: Seq<char>, id: Seq<u8>, rounds: nat)
    requires
        h.within_capacity(),
        h.single_occupancy(),
    ensures
        run(h, assign_opening(email, id), rounds).0.within_capacity(),
        run(h, assign_opening(email, id), rounds).0.single_occupancy(),
{
    reveal_with_fuel(run, 7);
    if h.has_resident(email) && h.has_room(id) {
        lemma_room_index(h, id);
        lemma_resident_index(h, email);
        let t = h.room_index(id);
        if h.assign_outcome(email, id).is_ok() {
            lemma_assign_totals(h, email, id);
            let target = h.assign(email, id);
            let h1 = HousingView { rooms: evicted(h.rooms, email), ..h };
            let h2 = HousingView { rooms: target.rooms, ..h };
            assert(first_with_id(h1.rooms, id, t));
            lemma_room_index(h1, id);
            let written = serve(
                h1,
                RequestView::WriteOccupants { id, occupants: target.rooms[t].occupants },
            ).0;
            assert(written.rooms =~= target.rooms);
            assert(h1.single_occupancy());
            assert(h2.single_occupancy());
        }
    }
}

/// An unassignment that is cut short keeps rooms within capacity and
/// residents in at most one room, provided that no two rooms share an
/// identifier.
pub proof fn lemma_unassign_steps_safe(h: HousingView, email: Seq<char>, rounds: nat)
    requires
        h.ids_distinct(),
        h.within_capacity(),
        h.single_occupancy(),
    ensures
        run(h, unassign_opening(email), rounds).0.within_capacity(),
        run(h, unassign_opening(email), rounds).0.single_occupancy(),
{
    reveal_with_fuel(run, 6);
    if h.has_resident(email) {
        lemma_resident_index(h, email);
        let k = h.resident_index(email);
        if let Some(number) = h.residents[k].assigned_room {
            if h.has_number(number) {
                lemma_number_index(h, number);
                let t = h.number_index(number);
                lemma_room_index(h, h.rooms[t].id);
                let kept = RoomView {
                    occupants: without(h.rooms[t].occupants, email),
                    ..h.rooms[t]
                };
                let h1 = HousingView { rooms: h.rooms.update(t, kept), ..h };
                assert(h1.within_capacity()) by {
                    lemma_count_without(h.rooms[t].occupants, email, email);
                }
                assert(h1.single_occupancy()) by {
                    assert forall|x: Seq<char>| #[trigger] total(h1.rooms, x) <= 1 by {
                        lemma_count_without(h.rooms[t].occupants, email, x);
                        lemma_total_update(h.rooms, t, kept, x);
                    }
                }
            }
        }
    }
}

} // verus!

//! The engine's conversation with a document store. The store is reached by
//! input and output that this library does not perform: the engine says what
//! to ask of the store next, is handed the store's reply, and decides how to
//! go on. The order of the requests and the place of the guards are the
//! engine's; a caller only carries requests and replies.

use crate::engine::{holds, without_email};
use crate::error::EngineError;
use crate::ident::{identifier_bytes, is_identifier_text, Oid};
use crate::model::{emails, pointer_view, Occupant, Resident, ResidentView, Room, RoomView};
use crate::rules::{admission, without};
use vstd::prelude::*;

verus! {

/// What the engine asks of the store.
#[derive(Debug)]
pub enum Request {
    /// Look up the resident with this email.
    FindResident { email: String },
    /// Look up the room with this identifier.
    FindRoom { id: Oid },
    /// Look up the first room with this number.
    FindRoomByNumber { number: String },
    /// Remove the records of this email from the occupant list of every room.
    EvictEverywhere { email: String },
    /// Replace the occupant list of the room with this identifier.
    WriteOccupants { id: Oid, occupants: Vec<Occupant> },
    /// Set, or with `None` empty, the pointer of the resident with this email.
    WritePointer { email: String, pointer: Option<String> },
}

/// What the store answered.
#[derive(Debug)]
pub enum Reply {
    /// The resident that was looked up, if there is one.
    Resident(Option<Resident>),
    /// The room that was looked up, if there is one.
    Room(Option<Room>),
    /// The change that was asked for has been made.
    Written,
    /// The store could not be read or written.
    Failed,
}

/// How far an operation has come: what it waits for, and what it has to
/// remember for the steps after that.
#[derive(Debug)]
pub enum Progress {
    /// Assigning: waiting for the resident.
    AssignFindResident { email: String, room_id: Oid },
    /// Assigning: waiting for the target room.
    AssignFindRoom { email: String, room_id: Oid },
    /// Assigning: waiting for the resident to be taken out of every room.
    AssignEvict { email: String, room_id: Oid, number: String, occupants: Vec<Occupant> },
    /// Assigning: waiting for the target room's new occupant list to be stored.
    AssignWriteRoom { email: String, number: String },
    /// Assigning: waiting for the resident's pointer to be stored.
    AssignWritePointer { number: String },
    /// Unassigning: waiting for the resident.
    UnassignFindResident { email: String },
    /// Unassigning: waiting for the room that the pointer names.
    UnassignFindRoom { email: String },
    /// Unassigning: waiting for the room's new occupant list to be stored.
    UnassignWriteRoom { email: String },
    /// Unassigning: waiting for the emptied pointer to be stored.
    UnassignWritePointer,
}

/// The engine's next move: a request to carry to the store, with the progress
/// to come back with, or the end of the operation. An assignment that
/// succeeds ends with the room's number, an unassignment with `None`.
#[derive(Debug)]
pub enum Step {
    Ask(Progress, Request),
    Finish(Result<Option<String>, EngineError>),
}

/// What a request is, as a mathematical value.
pub enum RequestView {
    FindResident { email: Seq<char> },
    FindRoom { id: Seq<u8> },
    FindRoomByNumber { number: Seq<char> },
    EvictEverywhere { email: Seq<char> },
    WriteOccupants { id: Seq<u8>, occupants: Seq<Seq<char>> },
    WritePointer { email: Seq<char>, pointer: Option<Seq<char>> },
}

/// What a reply is, as a mathematical value.
pub enum ReplyView {
    Resident(Option<ResidentView>),
    Room(Option<RoomView>),
    Written,
    Failed,
}

/// What a progress is, as a mathematical value.
pub enum ProgressView {
    AssignFindResident { email: Seq<char>, room_id: Seq<u8> },
    AssignFindRoom { email: Seq<char>, room_id: Seq<u8> },
    AssignEvict { email: Seq<char>, room_id: Seq<u8>, number: Seq<char>, occupants: Seq<Seq<char>> },
    AssignWriteRoom { email: Seq<char>, number: Seq<char> },
    AssignWritePointer { number: Seq<char> },
    UnassignFindResident { email: Seq<char> },
    UnassignFindRoom { email: Seq<char> },
    UnassignWriteRoom { email: Seq<char> },
    UnassignWritePointer,
}

/// What a step is, as a mathematical value.
pub enum StepView {
    Ask(ProgressView, RequestView),
    Finish(Result<Option<Seq<char>>, EngineError>),
}

impl View for Request {
    type V = RequestView;

    open spec fn view(&self) -> RequestView {
        match *self {
            Request::FindResident { email } => RequestView::FindResident { email: email@ },
            Request::FindRoom { id } => RequestView::FindRoom { id: id@ },
            Request::FindRoomByNumber { number } => RequestView::FindRoomByNumber {
                number: number@,
            },
            Request::EvictEverywhere { email } => RequestView::EvictEverywhere { email: email@ },
            Request::WriteOccupants { id, occupants } => RequestView::WriteOccupants {
                id: id@,
                occupants: emails(occupants@),
            },
            Request::WritePointer { email, pointer } => RequestView::WritePointer {
                email: email@,
                pointer: pointer_view(pointer),
            },
        }
    }
}

impl View for Reply {
    type V = ReplyView;

    open spec fn view(&self) -> ReplyView {
        match *self {
            Reply::Resident(Some(resident)) => ReplyView::Resident(Some(resident@)),
            Reply::Resident(None) => ReplyView::Resident(None),
            Reply::Room(Some(room)) => ReplyView::Room(Some(room@)),
            Reply::Room(None) => ReplyView::Room(None),
            Reply::Written => ReplyView::Written,
            Reply::Failed => ReplyView::Failed,
        }
    }
}

impl View for Progress {
    type V = ProgressView;

    open spec fn view(&self) -> ProgressView {
        match *self {
            Progress::AssignFindResident { email, room_id } => ProgressView::AssignFindResident {
                email: email@,
                room_id: room_id@,
            },
            Progress::AssignFindRoom { email, room_id } => ProgressView::AssignFindRoom {
                email: email@,
                room_id: room_id@,
            },
            Progress::AssignEvict { email, room_id, number, occupants } => ProgressView::AssignEvict {
                email: email@,
                room_id: room_id@,
                number: number@,
                occupants: emails(occupants@),
            },
            Progress::AssignWriteRoom { email, number } => ProgressView::AssignWriteRoom {
                email: email@,
                number: number@,
            },
            Progress::AssignWritePointer { number } => ProgressView::AssignWritePointer {
                number: number@,
            },
            Progress::UnassignFindResident { email } => ProgressView::UnassignFindResident {
                email: email@,
            },
            Progress::UnassignFindRoom { email } => ProgressView::UnassignFindRoom {
                email: email@,
            },
            Progress::UnassignWriteRoom { email } => ProgressView::UnassignWriteRoom {
                email: email@,
            },
            Progress::UnassignWritePointer => ProgressView::UnassignWritePointer,
        }
    }
}

impl View for Step {
    type V = StepView;

    open spec fn view(&self) -> StepView {
        match *self {
            Step::Ask(progress, request) => StepView::Ask(progress@, request@),
            Step::Finish(Ok(number)) => StepView::Finish(Ok(pointer_view(number))),
            Step::Finish(Err(e)) => StepView::Finish(Err(e)),
        }
    }
}

/// The first step of an assignment of `email` to the room `room_id`: the
/// resident is looked up.
pub open spec fn assign_opening(email: Seq<char>, room_id: Seq<u8>) -> StepView {
    StepView::Ask(
        ProgressView::AssignFindResident { email, room_id },
        RequestView::FindResident { email },
    )
}

/// The first step of an unassignment: the resident is looked up.
pub open spec fn unassign_opening(email: Seq<char>) -> StepView {
    StepView::Ask(
        ProgressView::UnassignFindResident { email },
        RequestView::FindResident { email },
    )
}

/// The end of an operation on a failure of the store, or on a reply that does
/// not answer what was asked.
pub open spec fn store_failure() -> StepView {
    StepView::Finish(Err(EngineError::StoreError))
}

/// How an operation goes on when a resident was looked up.
pub open spec fn after_resident(p: ProgressView, found: Option<ResidentView>) -> StepView {
    match p {
        ProgressView::AssignFindResident { email, room_id } => match found {
            Some(_) => StepView::Ask(
                ProgressView::AssignFindRoom { email, room_id },
                RequestView::FindRoom { id: room_id },
            ),
            None => StepView::Finish(Err(EngineError::NotFound)),
        },
        ProgressView::UnassignFindResident { email } => match found {
            Some(resident) => match resident.assigned_room {
                Some(number) => StepView::Ask(
                    ProgressView::UnassignFindRoom { email },
                    RequestView::FindRoomByNumber { number },
                ),
                None => StepView::Finish(Ok(None)),
            },
            None => StepView::Finish(Err(EngineError::NotFound)),
        },
        _ => store_failure(),
    }
}

/// How an operation goes on when a room was looked up. An assignment applies
/// its two guards here, before anything is written.
pub open spec fn after_room(p: ProgressView, found: Option<RoomView>) -> StepView {
    match p {
        ProgressView::AssignFindRoom { email, room_id } => match found {
            Some(room) => match admission(room, email) {
                Err(e) => StepView::Finish(Err(e)),
                Ok(_) => StepView::Ask(
                    ProgressView::AssignEvict {
                        email,
                        room_id,
                        number: room.number,
                        occupants: without(room.occupants, email).push(email),
                    },
                    RequestView::EvictEverywhere { email },
                ),
            },
            None => StepView::Finish(Err(EngineError::NotFound)),
        },
        ProgressView::UnassignFindRoom { email } => match found {
            Some(room) => if room.occupants.contains(email) {
                StepView::Ask(
                    ProgressView::UnassignWriteRoom { email },
                    RequestView::WriteOccupants {
                        id: room.id,
                        occupants: without(room.occupants, email),
                    },
                )
            } else {
                StepView::Ask(
                    ProgressView::UnassignWritePointer,
                    RequestView::WritePointer { email, pointer: None },
                )
            },
            None => StepView::Ask(
                ProgressView::UnassignWritePointer,
                RequestView::WritePointer { email, pointer: None },
            ),
        },
        _ => store_failure(),
    }
}

/// How an operation goes on when a change has been made.
pub open spec fn after_write(p: ProgressView) -> StepView {
    match p {
        ProgressView::AssignEvict { email, room_id, number, occupants } => StepView::Ask(
            ProgressView::AssignWriteRoom { email, number },
            RequestView::WriteOccupants { id: room_id, occupants },
        ),
        ProgressView::AssignWriteRoom { email, number } => StepView::Ask(
            ProgressView::AssignWritePointer { number },
            RequestView::WritePointer { email, pointer: Some(number) },
        ),
        ProgressView::AssignWritePointer { number } => StepView::Finish(Ok(Some(number))),
        ProgressView::UnassignWriteRoom { email } => StepView::Ask(
            ProgressView::UnassignWritePointer,
            RequestView::WritePointer { email, pointer: None },
        ),
        ProgressView::UnassignWritePointer => StepView::Finish(Ok(None)),
        _ => store_failure(),
    }
}

/// How an operation at `p` goes on when the store replies `r`. A failure of
/// the store ends the operation at once, whatever it waited for.
pub open spec fn next_step(p: ProgressView, r: ReplyView) -> StepView {
    match r {
        ReplyView::Failed => store_failure(),
        ReplyView::Resident(found) => after_resident(p, found),
        ReplyView::Room(found) => after_room(p, found),
        ReplyView::Written => after_write(p),
    }
}

/// Opens an assignment of the resident `email` to the room whose identifier
/// is written in `room_id`. A text that is no identifier ends it at once.
pub fn begin_assign(email: &str, room_id: &str) -> (step: Step)
    ensures
        step@ == if is_identifier_text(room_id@) {
            assign_opening(email@, identifier_bytes(room_id@))
        } else {
            StepView::Finish(Err(EngineError::InvalidIdentifier))
        },
{
    match Oid::parse_str(room_id) {
        Ok(id) => Step::Ask(
            Progress::AssignFindResident { email: email.to_owned(), room_id: id },
            Request::FindResident { email: email.to_owned() },
        ),
        Err(_) => Step::Finish(Err(EngineError::InvalidIdentifier)),
    }
}

/// Opens an unassignment of the resident `email`.
pub fn begin_unassign(email: &str) -> (step: Step)
    ensures
        step@ == unassign_opening(email@),
{
    Step::Ask(
        Progress::UnassignFindResident { email: email.to_owned() },
        Request::FindResident { email: email.to_owned() },
    )
}

/// Decides how the operation at `progress` goes on when the store has replied
/// `reply`.
pub fn advance(progress: Progress, reply: Reply) -> (step: Step)
    ensures
        step@ == next_step(progress@, reply@),
{
    match reply {
        Reply::Failed => Step::Finish(Err(EngineError::StoreError)),
        Reply::Resident(found) => match progress {
            Progress::AssignFindResident { email, room_id } => match found {
                Some(_) => Step::Ask(
                    Progress::AssignFindRoom { email, room_id },
                    Request::FindRoom { id: room_id },
                ),
                None => Step::Finish(Err(EngineError::NotFound)),
            },
            Progress::UnassignFindResident { email } => match found {
                Some(resident) => match resident.assigned_room {
                    Some(number) => Step::Ask(
                        Progress::UnassignFindRoom { email },
                        Request::FindRoomByNumber { number },
                    ),
                    None => Step::Finish(Ok(None)),
                },
                None => Step::Finish(Err(EngineError::NotFound)),
            },
            _ => Step::Finish(Err(EngineError::StoreError)),
        },
        Reply::Room(found) => match progress {
            Progress::AssignFindRoom { email, room_id } => match found {
                Some(room) => match room.admission(&email) {
                    Err(e) => Step::Finish(Err(e)),
                    Ok(_) => {
                        let occupants = room.joined_by(&email);
                        let asked = email.clone();
                        Step::Ask(
                            Progress::AssignEvict { email, room_id, number: room.number, occupants },
                            Request::EvictEverywhere { email: asked },
                        )
                    },
                },
                None => Step::Finish(Err(EngineError::NotFound)),
            },
            Progress::UnassignFindRoom { email } => match found {
                Some(room) => {
                    if holds(&room.occupants, &email) {
                        let occupants = without_email(&room.occupants, &email);
                        Step::Ask(
                            Progress::UnassignWriteRoom { email },
                            Request::WriteOccupants { id: room.id, occupants },
                        )
                    } else {
                        Step::Ask(
                            Progress::UnassignWritePointer,
                            Request::WritePointer { email, pointer: None },
                        )
                    }
                },
                None => Step::Ask(
                    Progress::UnassignWritePointer,
                    Request::WritePointer { email, pointer: None },
                ),
            },
            _ => Step::Finish(Err(EngineError::StoreError)),
        },
        Reply::Written => match progress {
            Progress::AssignEvict { email, room_id, number, occupants } => Step::Ask(
                Progress::AssignWriteRoom { email, number },
                Request::WriteOccupants { id: room_id, occupants },
            ),
            Progress::AssignWriteRoom { email, number } => {
                let kept = number.clone();
                Step::Ask(
                    Progress::AssignWritePointer { number: kept },
                    Request::WritePointer { email, pointer: Some(number) },
                )
            },
            Progress::AssignWritePointer { number } => Step::Finish(Ok(Some(number))),
            Progress::UnassignWriteRoom { email } => Step::Ask(
                Progress::UnassignWritePointer,
                Request::WritePointer { email, pointer: None },
            ),
            Progress::UnassignWritePointer => Step::Finish(Ok(None)),
            _ => Step::Finish(Err(EngineError::StoreError)),
        },
    }
}

} // verus!

//! Event permalinks, computed by the messaging SDK.
use vstd::prelude::*;

verus! {

/// The matrix.to permalink of an event in a room, as the SDK renders it.
pub uninterp spec fn matrix_to_event_uri_of(room_id: Seq<char>, event_id: Seq<char>) -> Seq<char>;

/// Both strings parse as identifiers: a room identifier and an event identifier.
pub uninterp spec fn permalink_ids_parse_of(room_id: Seq<char>, event_id: Seq<char>) -> bool;

/// Relies on matrix_sdk's re-export of ruma's `RoomId::matrix_to_event_uri`, rendered through
/// its `Display` impl: the permalink depends on the two identifiers alone. It relies too on
/// the `TryFrom<&str>` parsers of `RoomId` and `EventId`, which accept or refuse a string by
/// its characters alone: it gives `None` exactly where either string fails to parse.
#[verifier::external_body]
pub(crate) fn event_permalink(room_id: &str, event_id: &str) -> (r: Option<String>)
    ensures
        r is Some <==> permalink_ids_parse_of(room_id@, event_id@),
        r matches Some(u) ==> u@ == matrix_to_event_uri_of(room_id@, event_id@),
{
    let room = <&matrix_sdk::ruma::RoomId>::try_from(room_id).ok()?;
    let event = <&matrix_sdk::ruma::EventId>::try_from(event_id).ok()?;
    Some(room.matrix_to_event_uri(event.to_owned()).to_string())
}

} // verus!

//! The operations as a user interface calls them: each takes the store and
//! typed arguments, and reports a failure as a message.

use vstd::prelude::*;
use crate::errors::{RecordError, StorageFault};
use crate::models::{
    client_views, session_views, Client, CreateClientDto, CreateSessionDto, Session,
    UpdateClientDto, UpdateSessionDto,
};
use crate::slot::ImageSlot;
use crate::state::{is_client_listing, sessions_newest_first};
use crate::store::RecordStore;

verus! {

/// Hands a success on and reports a failure as its message.
fn report<T>(outcome: Result<T, RecordError>) -> (result: Result<T, String>)
    ensures
        match outcome {
            Ok(value) => result matches Ok(reported) && reported == value,
            Err(error) => result matches Err(message) && message@ == error.message_text(),
        },
{
    match outcome {
        Ok(value) => Ok(value),
        Err(error) => Err(error.message()),
    }
}

/// Lists every client, newest registration date first.
pub fn get_clients(store: &RecordStore) -> (result: Result<Vec<Client>, String>)
    requires
        store.wf(),
    ensures
        result is Ok,
        is_client_listing(client_views(result->Ok_0@), store@.clients),
{
    report(Client::find_all(store))
}

/// Creates a client, registered at the time of the call, and returns the
/// new identity.
pub fn add_client(store: &mut RecordStore, client: CreateClientDto) -> (result: Result<i32, String>)
    requires
        old(store).wf(),
    ensures
        final(store).wf(),
        match old(store)@.client_refusal() {
            Some(error) => result matches Err(message) && message@ == error.message_text()
                && final(store)@ == old(store)@,
            None => result matches Ok(id) && id == old(store)@.clients.len() + 1 && final(store)@
                == old(store)@.with_client(client@, final(store)@.clients.last().registration_date),
        },
{
    report(Client::create(store, client))
}

/// Replaces the mutable fields of a client. Updating a client that does not
/// exist changes nothing and succeeds.
pub fn update_client(store: &mut RecordStore, client: UpdateClientDto) -> (result: Result<
    (),
    String,
>)
    requires
        old(store).wf(),
    ensures
        final(store).wf(),
        result is Ok,
        final(store)@ == old(store)@.with_client_update(client@),
{
    report(Client::update(store, client))
}

/// Lists the sessions of a client, greatest session number first.
pub fn get_client_sessions(store: &RecordStore, client_id: i32) -> (result: Result<
    Vec<Session>,
    String,
>)
    requires
        store.wf(),
    ensures
        result is Ok,
        session_views(result->Ok_0@) == sessions_newest_first(store@.sessions, client_id as int),
{
    report(Session::find_by_client_id(store, client_id))
}

/// The session with the identity `id`; a failure with the message of
/// `RecordError::NotFound` if there is none.
pub fn get_session(store: &RecordStore, id: i32) -> (result: Result<Session, String>)
    requires
        store.wf(),
    ensures
        match result {
            Ok(session) => store@.has_session(id as int) && session@ == store@.session(id as int),
            Err(message) => !store@.has_session(id as int) && message@
                == RecordError::NotFound.message_text(),
        },
{
    match Session::find_by_id(store, id) {
        Ok(Some(session)) => Ok(session),
        Ok(None) => Err(RecordError::NotFound.message()),
        Err(error) => Err(error.message()),
    }
}

/// Creates a session, dated at the time of the call, and returns the new
/// identity. The store assigns the session number.
pub fn add_session(store: &mut RecordStore, session: CreateSessionDto) -> (result: Result<
    i32,
    String,
>)
    requires
        old(store).wf(),
    ensures
        final(store).wf(),
        match old(store)@.session_refusal(session@.client_id) {
            Some(error) => result matches Err(message) && message@ == error.message_text()
                && final(store)@ == old(store)@,
            None => result matches Ok(id) && id == old(store)@.sessions.len() + 1 && final(store)@
                == old(store)@.with_session(session@, final(store)@.sessions.last().datetime),
        },
{
    report(Session::create(store, session))
}

/// Replaces every mutable field of a session. Updating a session that does
/// not exist changes nothing and succeeds.
pub fn update_session(store: &mut RecordStore, session: UpdateSessionDto) -> (result: Result<
    (),
    String,
>)
    requires
        old(store).wf(),
    ensures
        final(store).wf(),
        result is Ok,
        final(store)@ == old(store)@.with_session_update(session@),
{
    report(Session::update(store, session))
}

/// Previews the number that the next session of a client would get.
pub fn get_next_session_number(store: &RecordStore, client_id: i32) -> (result: Result<
    i32,
    String,
>)
    requires
        store.wf(),
    ensures
        match result {
            Ok(number) => number == store@.next_session_number(client_id as int),
            Err(message) => store@.next_session_number(client_id as int) > i32::MAX && message@
                == RecordError::Storage(StorageFault::Exhausted).message_text(),
        },
{
    report(Session::get_next_session_number(store, client_id))
}

/// Sets the crop metadata of one image slot of a session, leaving every
/// other field untouched. An unknown slot name fails with the message of
/// `RecordError::InvalidSlot` and changes nothing.
pub fn update_session_crop(
    store: &mut RecordStore,
    session_id: i32,
    image_type: String,
    crop_data: String,
) -> (result: Result<(), String>)
    requires
        old(store).wf(),
    ensures
        final(store).wf(),
        match ImageSlot::named(image_type@) {
            Some(slot) => result is Ok && final(store)@ == old(store)@.with_crop(
                session_id as int,
                slot,
                crop_data@,
            ),
            None => result matches Err(message) && message@
                == RecordError::InvalidSlot.message_text() && final(store)@ == old(store)@,
        },
{
    report(Session::update_crop(store, session_id, image_type.as_str(), crop_data))
}

} // verus!

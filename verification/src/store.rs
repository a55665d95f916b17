//! The record store and the operations on its clients and sessions.

use vstd::prelude::*;
use crate::clock::current_timestamp;
use crate::errors::{RecordError, StorageFault};
use crate::models::{
    client_views, session_views, Client, CreateClientDto, CreateSessionDto, Session, SessionView,
    UpdateClientDto, UpdateSessionDto,
};
use crate::sequencer::{
    lemma_session_count_bounded, max_as_int, max_session_number, next_session_number,
    session_count,
};
use crate::slot::ImageSlot;
use crate::state::{
    is_client_listing, lemma_next_session_number, lemma_with_client_update_wf,
    lemma_with_client_wf, lemma_with_crop_wf, lemma_with_session_update_wf,
    lemma_with_session_wf, listed_before, sessions_newest_first, StoreView,
};
use crate::text::{
    lemma_bytes_precede_total, lemma_bytes_precede_transitive, precedes, text_precedes,
};
use vstd::seq_lib::{to_multiset_build, to_multiset_insert};
use vstd::utf8::encode_utf8;

verus! {

/// The record store: every client and every session, in order of creation.
/// A store is made empty or rebuilt from persisted records, and changes only
/// through the operations of this module, each of which keeps it well formed.
pub struct RecordStore {
    clients: Vec<Client>,
    sessions: Vec<Session>,
}

impl View for RecordStore {
    type V = StoreView;

    closed spec fn view(&self) -> StoreView {
        StoreView {
            clients: client_views(self.clients@),
            sessions: session_views(self.sessions@),
        }
    }
}

impl RecordStore {
    /// Whether the store satisfies its invariant.
    pub open spec fn wf(&self) -> bool {
        self@.wf()
    }

    /// A store that holds nothing.
    pub fn new() -> (store: RecordStore)
        ensures
            store@ == StoreView::empty(),
            store.wf(),
    {
        let store = RecordStore { clients: Vec::new(), sessions: Vec::new() };
        assert(store@.clients =~= Seq::empty());
        assert(store@.sessions =~= Seq::empty());
        store
    }

    /// Rebuilds a store from persisted records, clients and sessions each in
    /// order of identity. Records that do not make a well-formed store are
    /// refused.
    pub fn restore(clients: Vec<Client>, sessions: Vec<Session>) -> (result: Result<
        RecordStore,
        RecordError,
    >)
        ensures
            match result {
                Ok(store) => store.wf() && store@ == (StoreView {
                    clients: client_views(clients@),
                    sessions: session_views(sessions@),
                }),
                Err(error) => error == RecordError::Storage(StorageFault::Inconsistent) && !(
                StoreView {
                    clients: client_views(clients@),
                    sessions: session_views(sessions@),
                }).wf(),
            },
    {
        let ghost records = StoreView {
            clients: client_views(clients@),
            sessions: session_views(sessions@),
        };
        if clients.len() > i32::MAX as usize || sessions.len() > i32::MAX as usize {
            return Err(RecordError::Storage(StorageFault::Inconsistent));
        }
        let mut counts: Vec<i32> = Vec::new();
        let mut i: usize = 0;
        while i < clients.len()
            invariant
                i <= clients@.len(),
                clients@.len() <= i32::MAX,
                records == (StoreView {
                    clients: client_views(clients@),
                    sessions: session_views(sessions@),
                }),
                counts@.len() == i,
                forall|k: int| 0 <= k < i ==> (#[trigger] records.clients[k]).id == k + 1,
                forall|k: int| 0 <= k < i ==> (#[trigger] counts@[k]) == 0,
            decreases clients@.len() - i,
        {
            if clients[i].id as i64 != i as i64 + 1 {
                assert(records.clients[i as int].id != i + 1);
                return Err(RecordError::Storage(StorageFault::Inconsistent));
            }
            counts.push(0);
            i += 1;
        }
        let mut j: usize = 0;
        assert(records.sessions.take(0) =~= Seq::empty());
        assert forall|c: int| 1 <= c <= counts@.len() implies (#[trigger] counts@[c - 1])
            == session_count(records.sessions.take(0), c) by {}
        while j < sessions.len()
            invariant
                j <= sessions@.len(),
                sessions@.len() <= i32::MAX,
                records == (StoreView {
                    clients: client_views(clients@),
                    sessions: session_views(sessions@),
                }),
                counts@.len() == records.clients.len(),
                forall|k: int| 0 <= k < j ==> (#[trigger] records.sessions[k]).id == k + 1,
                forall|k: int|
                    0 <= k < j ==> records.has_client((#[trigger] records.sessions[k]).client_id),
                forall|k: int|
                    0 <= k < j ==> (#[trigger] records.sessions[k]).session_number
                        == session_count(records.sessions.take(k), records.sessions[k].client_id)
                        + 1,
                forall|c: int|
                    1 <= c <= counts@.len() ==> (#[trigger] counts@[c - 1]) == session_count(
                        records.sessions.take(j as int),
                        c,
                    ),
            decreases sessions@.len() - j,
        {
            let session = &sessions[j];
            assert(session@ == records.sessions[j as int]);
            if session.id as i64 != j as i64 + 1 {
                assert(records.sessions[j as int].id != j + 1);
                return Err(RecordError::Storage(StorageFault::Inconsistent));
            }
            if session.client_id < 1 || session.client_id as usize > counts.len() {
                assert(!records.has_client(records.sessions[j as int].client_id));
                return Err(RecordError::Storage(StorageFault::Inconsistent));
            }
            let slot = (session.client_id - 1) as usize;
            let earlier = counts[slot];
            proof {
                lemma_session_count_bounded(
                    records.sessions.take(j as int),
                    session.client_id as int,
                );
                assert(earlier == session_count(
                    records.sessions.take(j as int),
                    session.client_id as int,
                ));
            }
            if session.session_number as i64 != earlier as i64 + 1 {
                assert(records.sessions[j as int].session_number != session_count(
                    records.sessions.take(j as int),
                    records.sessions[j as int].client_id,
                ) + 1);
                return Err(RecordError::Storage(StorageFault::Inconsistent));
            }
            counts[slot] = earlier + 1;
            proof {
                let longer = records.sessions.take(j + 1);
                assert(longer.drop_last() =~= records.sessions.take(j as int));
                assert(longer.last() == records.sessions[j as int]);
                assert forall|c: int| 1 <= c <= counts@.len() implies (#[trigger] counts@[c - 1])
                    == session_count(longer, c) by {}
            }
            j += 1;
        }
        let store = RecordStore { clients, sessions };
        assert(store@ == records);
        Ok(store)
    }
}

impl Session {
    /// The number the next session of `client_id` gets: one more than the
    /// greatest number among the client's sessions, or 1 if the client has
    /// none. Fails only if that number does not fit the record.
    pub fn get_next_session_number(store: &RecordStore, client_id: i32) -> (result: Result<
        i32,
        RecordError,
    >)
        requires
            store.wf(),
        ensures
            match result {
                Ok(number) => number == store@.next_session_number(client_id as int),
                Err(error) => error == RecordError::Storage(StorageFault::Exhausted)
                    && store@.next_session_number(client_id as int) > i32::MAX,
            },
    {
        let mut max: Option<i64> = None;
        let mut j: usize = 0;
        while j < store.sessions.len()
            invariant
                j <= store.sessions@.len(),
                max_as_int(max) == max_session_number(
                    store@.sessions.take(j as int),
                    client_id as int,
                ),
            decreases store.sessions@.len() - j,
        {
            let session = &store.sessions[j];
            proof {
                let prefix = store@.sessions.take(j + 1);
                assert(prefix.drop_last() =~= store@.sessions.take(j as int));
                assert(prefix.last() == session@);
            }
            if session.client_id == client_id {
                let number = session.session_number as i64;
                let keep = match max {
                    Some(greatest) => greatest >= number,
                    None => false,
                };
                if !keep {
                    max = Some(number);
                }
            }
            j += 1;
        }
        proof {
            assert(store@.sessions.take(j as int) =~= store@.sessions);
            lemma_next_session_number(store@, client_id as int);
        }
        next_session_number(max)
    }

    /// Creates a session from `dto`, dated `datetime`. The store assigns the
    /// identity and the session number; a session for a client that the store
    /// does not hold is refused.
    pub fn create_at(store: &mut RecordStore, dto: CreateSessionDto, datetime: String) -> (result:
        Result<i32, RecordError>)
        requires
            old(store).wf(),
        ensures
            final(store).wf(),
            result == (match old(store)@.session_refusal(dto@.client_id) {
                Some(error) => Err::<i32, RecordError>(error),
                None => Ok((old(store)@.sessions.len() + 1) as i32),
            }),
            final(store)@ == (if result is Ok {
                old(store)@.with_session(dto@, datetime@)
            } else {
                old(store)@
            }),
    {
        if dto.client_id < 1 || dto.client_id as usize > store.clients.len() {
            return Err(RecordError::Storage(StorageFault::UnknownClient));
        }
        if store.sessions.len() >= i32::MAX as usize {
            return Err(RecordError::Storage(StorageFault::Exhausted));
        }
        proof {
            lemma_next_session_number(store@, dto@.client_id);
            lemma_with_session_wf(store@, dto@, datetime@);
        }
        match Session::get_next_session_number(store, dto.client_id) {
            Err(error) => Err(error),
            Ok(session_number) => {
                let id = (store.sessions.len() + 1) as i32;
                let session = Session {
                    id,
                    client_id: dto.client_id,
                    datetime,
                    session_number,
                    height: dto.height,
                    weight: dto.weight,
                    anterior: dto.anterior,
                    posterior: dto.posterior,
                    right_lateral: dto.right_lateral,
                    left_lateral: dto.left_lateral,
                    notes: dto.notes,
                    anterior_crop: dto.anterior_crop,
                    posterior_crop: dto.posterior_crop,
                    right_lateral_crop: dto.right_lateral_crop,
                    left_lateral_crop: dto.left_lateral_crop,
                };
                assert(session@ == old(store)@.new_session(dto@, datetime@));
                store.sessions.push(session);
                assert(store@.sessions =~= old(store)@.with_session(dto@, datetime@).sessions);
                Ok(id)
            },
        }
    }

    /// Creates a session from `dto`, dated by the clock at the time of the
    /// call. What `create_at` states holds here for the date that the clock
    /// gave, which is the new session's `datetime`.
    pub fn create(store: &mut RecordStore, dto: CreateSessionDto) -> (result: Result<
        i32,
        RecordError,
    >)
        requires
            old(store).wf(),
        ensures
            final(store).wf(),
            result == (match old(store)@.session_refusal(dto@.client_id) {
                Some(error) => Err::<i32, RecordError>(error),
                None => Ok((old(store)@.sessions.len() + 1) as i32),
            }),
            final(store)@ == (if result is Ok {
                old(store)@.with_session(dto@, final(store)@.sessions.last().datetime)
            } else {
                old(store)@
            }),
    {
        let datetime = current_timestamp();
        Session::create_at(store, dto, datetime)
    }
}

impl Session {
    /// The sessions of `client_id`, greatest session number first; empty if
    /// the client has no session or does not exist.
    pub fn find_by_client_id(store: &RecordStore, client_id: i32) -> (result: Result<
        Vec<Session>,
        RecordError,
    >)
        requires
            store.wf(),
        ensures
            result is Ok,
            session_views(result->Ok_0@) == sessions_newest_first(
                store@.sessions,
                client_id as int,
            ),
    {
        let mut found: Vec<Session> = Vec::new();
        let mut j: usize = store.sessions.len();
        assert(store@.sessions.take(j as int) =~= store@.sessions);
        while j > 0
            invariant
                j <= store.sessions@.len(),
                session_views(found@) + sessions_newest_first(
                    store@.sessions.take(j as int),
                    client_id as int,
                ) == sessions_newest_first(store@.sessions, client_id as int),
            decreases j,
        {
            j -= 1;
            let session = &store.sessions[j];
            proof {
                let prefix = store@.sessions.take(j + 1);
                assert(prefix.drop_last() =~= store@.sessions.take(j as int));
                assert(prefix.last() == session@);
            }
            if session.client_id == client_id {
                let ghost before = session_views(found@);
                found.push(session.clone());
                assert(session_views(found@) =~= before + seq![session@]);
                assert((before + seq![session@]) + sessions_newest_first(
                    store@.sessions.take(j as int),
                    client_id as int,
                ) =~= before + (seq![session@] + sessions_newest_first(
                    store@.sessions.take(j as int),
                    client_id as int,
                )));
            }
        }
        assert(session_views(found@) + Seq::<SessionView>::empty() =~= session_views(found@));
        Ok(found)
    }

    /// The session with the identity `id`, or `None` if there is none.
    pub fn find_by_id(store: &RecordStore, id: i32) -> (result: Result<Option<Session>, RecordError>)
        requires
            store.wf(),
        ensures
            result is Ok,
            match result->Ok_0 {
                Some(session) => store@.has_session(id as int) && session@ == store@.session(
                    id as int,
                ),
                None => !store@.has_session(id as int),
            },
    {
        if id < 1 || id as usize > store.sessions.len() {
            return Ok(None);
        }
        let session = store.sessions[(id - 1) as usize].clone();
        Ok(Some(session))
    }

    /// Replaces every mutable field of the session `dto.id` by the value in
    /// `dto`; an absent value clears the stored one. The identity, the
    /// client, the date and the session number stay. Without such a session
    /// nothing changes, and that is no failure.
    pub fn update(store: &mut RecordStore, dto: UpdateSessionDto) -> (result: Result<
        (),
        RecordError,
    >)
        requires
            old(store).wf(),
        ensures
            final(store).wf(),
            result is Ok,
            final(store)@ == old(store)@.with_session_update(dto@),
    {
        proof {
            lemma_with_session_update_wf(store@, dto@);
        }
        if dto.id < 1 || dto.id as usize > store.sessions.len() {
            return Ok(());
        }
        let index = (dto.id - 1) as usize;
        let stored = &store.sessions[index];
        let replaced = Session {
            id: stored.id,
            client_id: stored.client_id,
            datetime: stored.datetime.clone(),
            session_number: stored.session_number,
            height: dto.height,
            weight: dto.weight,
            anterior: dto.anterior,
            posterior: dto.posterior,
            right_lateral: dto.right_lateral,
            left_lateral: dto.left_lateral,
            notes: dto.notes,
            anterior_crop: dto.anterior_crop,
            posterior_crop: dto.posterior_crop,
            right_lateral_crop: dto.right_lateral_crop,
            left_lateral_crop: dto.left_lateral_crop,
        };
        assert(replaced@ == old(store)@.session(dto@.id).replaced_by(dto@));
        store.sessions[index] = replaced;
        assert(store@.sessions =~= old(store)@.with_session_update(dto@).sessions);
        Ok(())
    }

    /// Sets the crop metadata of one image slot of the session `session_id`
    /// and leaves every other field as it is. A slot name that is none of the
    /// four known ones is refused, and then nothing changes. Without such a
    /// session nothing changes, and that is no failure.
    pub fn update_crop(
        store: &mut RecordStore,
        session_id: i32,
        image_type: &str,
        crop_data: String,
    ) -> (result: Result<(), RecordError>)
        requires
            old(store).wf(),
        ensures
            final(store).wf(),
            match ImageSlot::named(image_type@) {
                Some(slot) => result is Ok && final(store)@ == old(store)@.with_crop(
                    session_id as int,
                    slot,
                    crop_data@,
                ),
                None => result == Err::<(), RecordError>(RecordError::InvalidSlot) && final(store)@
                    == old(store)@,
            },
    {
        let slot = match ImageSlot::parse(image_type) {
            Ok(slot) => slot,
            Err(error) => {
                return Err(error);
            },
        };
        proof {
            lemma_with_crop_wf(store@, session_id as int, slot, crop_data@);
        }
        if session_id < 1 || session_id as usize > store.sessions.len() {
            return Ok(());
        }
        let index = (session_id - 1) as usize;
        let mut patched = store.sessions[index].clone();
        match slot {
            ImageSlot::Anterior => {
                patched.anterior_crop = Some(crop_data);
            },
            ImageSlot::Posterior => {
                patched.posterior_crop = Some(crop_data);
            },
            ImageSlot::RightLateral => {
                patched.right_lateral_crop = Some(crop_data);
            },
            ImageSlot::LeftLateral => {
                patched.left_lateral_crop = Some(crop_data);
            },
        }
        assert(patched@ == old(store)@.session(session_id as int).with_crop(slot, Some(crop_data@)));
        store.sessions[index] = patched;
        assert(store@.sessions =~= old(store)@.with_crop(
            session_id as int,
            slot,
            crop_data@,
        ).sessions);
        Ok(())
    }
}

impl Client {
    /// Creates a client from `dto`, registered at `registration_date`. The
    /// store assigns the identity.
    pub fn create_at(store: &mut RecordStore, dto: CreateClientDto, registration_date: String) -> (result:
        Result<i32, RecordError>)
        requires
            old(store).wf(),
        ensures
            final(store).wf(),
            result == (match old(store)@.client_refusal() {
                Some(error) => Err::<i32, RecordError>(error),
                None => Ok((old(store)@.clients.len() + 1) as i32),
            }),
            final(store)@ == (if result is Ok {
                old(store)@.with_client(dto@, registration_date@)
            } else {
                old(store)@
            }),
    {
        if store.clients.len() >= i32::MAX as usize {
            return Err(RecordError::Storage(StorageFault::Exhausted));
        }
        proof {
            lemma_with_client_wf(store@, dto@, registration_date@);
        }
        let id = (store.clients.len() + 1) as i32;
        let client = Client {
            id,
            firstname: dto.firstname,
            lastname: dto.lastname,
            dob: dto.dob,
            sex: dto.sex,
            registration_date,
        };
        assert(client@ == old(store)@.new_client(dto@, registration_date@));
        store.clients.push(client);
        assert(store@.clients =~= old(store)@.with_client(dto@, registration_date@).clients);
        Ok(id)
    }

    /// Creates a client from `dto`, registered at the time the clock gives
    /// when called. What `create_at` states holds here for that time, which
    /// is the new client's `registration_date`.
    pub fn create(store: &mut RecordStore, dto: CreateClientDto) -> (result: Result<
        i32,
        RecordError,
    >)
        requires
            old(store).wf(),
        ensures
            final(store).wf(),
            result == (match old(store)@.client_refusal() {
                Some(error) => Err::<i32, RecordError>(error),
                None => Ok((old(store)@.clients.len() + 1) as i32),
            }),
            final(store)@ == (if result is Ok {
                old(store)@.with_client(dto@, final(store)@.clients.last().registration_date)
            } else {
                old(store)@
            }),
    {
        let registration_date = current_timestamp();
        Client::create_at(store, dto, registration_date)
    }

    /// Replaces the names, the date of birth and the sex of the client
    /// `dto.id`; the identity and the registration date stay. Without such a
    /// client nothing changes, and that is no failure.
    pub fn update(store: &mut RecordStore, dto: UpdateClientDto) -> (result: Result<
        (),
        RecordError,
    >)
        requires
            old(store).wf(),
        ensures
            final(store).wf(),
            result is Ok,
            final(store)@ == old(store)@.with_client_update(dto@),
    {
        proof {
            lemma_with_client_update_wf(store@, dto@);
        }
        if dto.id < 1 || dto.id as usize > store.clients.len() {
            return Ok(());
        }
        let index = (dto.id - 1) as usize;
        let stored = &store.clients[index];
        let replaced = Client {
            id: stored.id,
            firstname: dto.firstname,
            lastname: dto.lastname,
            dob: dto.dob,
            sex: dto.sex,
            registration_date: stored.registration_date.clone(),
        };
        assert(replaced@ == old(store)@.client(dto@.id).replaced_by(dto@));
        store.clients[index] = replaced;
        assert(store@.clients =~= old(store)@.with_client_update(dto@).clients);
        Ok(())
    }

    /// Every client, newest registration date first. Dates are ordered as
    /// text, byte by byte; clients of one date come in order of creation.
    pub fn find_all(store: &RecordStore) -> (result: Result<Vec<Client>, RecordError>)
        requires
            store.wf(),
        ensures
            result is Ok,
            is_client_listing(client_views(result->Ok_0@), store@.clients),
    {
        let mut listing: Vec<Client> = Vec::new();
        let mut i: usize = 0;
        assert(store@.clients.take(0) =~= client_views(listing@));
        while i < store.clients.len()
            invariant
                i <= store.clients@.len(),
                store.wf(),
                is_client_listing(client_views(listing@), store@.clients.take(i as int)),
                forall|k: int|
                    0 <= k < listing@.len() ==> (#[trigger] client_views(listing@)[k]).id <= i,
            decreases store.clients@.len() - i,
        {
            let client = &store.clients[i];
            let ghost before = client_views(listing@);
            assert(client@ == store@.clients[i as int]);
            let mut position: usize = 0;
            while position < listing.len() && precedes(
                client.registration_date.as_str(),
                listing[position].registration_date.as_str(),
            )
                invariant
                    position <= listing@.len(),
                    before == client_views(listing@),
                    forall|k: int|
                        0 <= k < position ==> text_precedes(
                            client@.registration_date,
                            (#[trigger] before[k]).registration_date,
                        ),
                decreases listing@.len() - position,
            {
                position += 1;
            }
            proof {
                let date = encode_utf8(client@.registration_date);
                assert forall|k: int| position <= k < before.len() implies !text_precedes(
                    client@.registration_date,
                    (#[trigger] before[k]).registration_date,
                ) && text_precedes(before[k].registration_date, client@.registration_date) by {
                    let other = encode_utf8(before[k].registration_date);
                    if k > position && text_precedes(
                        client@.registration_date,
                        before[k].registration_date,
                    ) {
                        assert(listed_before(before[position as int], before[k]));
                        lemma_bytes_precede_transitive(
                            date,
                            other,
                            encode_utf8(before[position as int].registration_date),
                        );
                    }
                    lemma_bytes_precede_total(date, other);
                }
            }
            listing.insert(position, client.clone());
            proof {
                let after = client_views(listing@);
                assert(after =~= before.insert(position as int, client@));
                to_multiset_insert(before, position as int, client@);
                assert(store@.clients.take(i + 1) =~= store@.clients.take(i as int).push(client@));
                to_multiset_build(store@.clients.take(i as int), client@);
                assert forall|a: int, b: int| 0 <= a < b < after.len() implies listed_before(
                    #[trigger] after[a],
                    #[trigger] after[b],
                ) by {
                    if b < position {
                        assert(listed_before(before[a], before[b]));
                    } else if b == position {
                        assert(before[a].id <= i);
                    } else if a < position {
                        assert(listed_before(before[a], before[b - 1]));
                    } else if a == position {
                        assert(after[b] == before[b - 1]);
                    } else {
                        assert(listed_before(before[a - 1], before[b - 1]));
                    }
                }
                assert forall|k: int| 0 <= k < listing@.len() implies (#[trigger] after[k]).id <= i
                    + 1 by {
                    if k < position {
                        assert(before[k].id <= i);
                    } else if k > position {
                        assert(before[k - 1].id <= i);
                    }
                }
            }
            i += 1;
        }
        assert(store@.clients.take(i as int) =~= store@.clients);
        Ok(listing)
    }
}

} // verus!

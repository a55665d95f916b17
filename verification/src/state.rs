//! The record store as a mathematical value: what it holds, when it is well
//! formed, and what each operation makes of it.

use vstd::prelude::*;
use crate::errors::{RecordError, StorageFault};
use crate::models::{
    ClientView, CreateClientDtoView, CreateSessionDtoView, SessionView, UpdateClientDtoView,
    UpdateSessionDtoView,
};
use crate::sequencer::{
    following_number, lemma_following_is_count_plus_one, lemma_session_count_bounded,
    max_session_number, numbered_in_order, session_count,
};
use crate::slot::ImageSlot;
use crate::text::text_precedes;

verus! {

/// What a record store holds: its clients and its sessions, each in the
/// order of creation.
pub struct StoreView {
    pub clients: Seq<ClientView>,
    pub sessions: Seq<SessionView>,
}

impl SessionView {
    /// This session with the crop metadata of `slot` replaced by `crop`.
    pub open spec fn with_crop(self, slot: ImageSlot, crop: Option<Seq<char>>) -> SessionView {
        match slot {
            ImageSlot::Anterior => SessionView { anterior_crop: crop, ..self },
            ImageSlot::Posterior => SessionView { posterior_crop: crop, ..self },
            ImageSlot::RightLateral => SessionView { right_lateral_crop: crop, ..self },
            ImageSlot::LeftLateral => SessionView { left_lateral_crop: crop, ..self },
        }
    }

    /// This session with every mutable field replaced by the value in `dto`,
    /// present or absent.
    pub open spec fn replaced_by(self, dto: UpdateSessionDtoView) -> SessionView {
        SessionView {
            id: self.id,
            client_id: self.client_id,
            datetime: self.datetime,
            session_number: self.session_number,
            height: dto.height,
            weight: dto.weight,
            anterior: dto.anterior,
            posterior: dto.posterior,
            right_lateral: dto.right_lateral,
            left_lateral: dto.left_lateral,
            notes: dto.notes,
            anterior_crop: dto.anterior_crop,
            posterior_crop: dto.posterior_crop,
            right_lateral_crop: dto.right_lateral_crop,
            left_lateral_crop: dto.left_lateral_crop,
        }
    }
}

impl ClientView {
    /// This client with every mutable field replaced by the value in `dto`.
    pub open spec fn replaced_by(self, dto: UpdateClientDtoView) -> ClientView {
        ClientView {
            id: self.id,
            firstname: dto.firstname,
            lastname: dto.lastname,
            dob: dto.dob,
            sex: dto.sex,
            registration_date: self.registration_date,
        }
    }
}

impl StoreView {
    /// The store that holds nothing.
    pub open spec fn empty() -> StoreView {
        StoreView { clients: Seq::empty(), sessions: Seq::empty() }
    }

    /// The invariant of the store. Identities are handed out in order of
    /// creation, starting at 1; every session belongs to a client of the
    /// store; and the sessions of each client are numbered 1, 2, 3, ... in
    /// order of creation.
    pub open spec fn wf(self) -> bool {
        &&& self.clients.len() <= i32::MAX
        &&& self.sessions.len() <= i32::MAX
        &&& forall|i: int| 0 <= i < self.clients.len() ==> (#[trigger] self.clients[i]).id == i + 1
        &&& forall|j: int|
            0 <= j < self.sessions.len() ==> (#[trigger] self.sessions[j]).id == j + 1
        &&& forall|j: int|
            0 <= j < self.sessions.len() ==> self.has_client((#[trigger] self.sessions[j]).client_id)
        &&& numbered_in_order(self.sessions)
    }

    /// Whether a client has the identity `id`.
    pub open spec fn has_client(self, id: int) -> bool {
        1 <= id <= self.clients.len()
    }

    /// Whether a session has the identity `id`.
    pub open spec fn has_session(self, id: int) -> bool {
        1 <= id <= self.sessions.len()
    }

    /// The client with the identity `id`.
    pub open spec fn client(self, id: int) -> ClientView
        recommends
            self.has_client(id),
    {
        self.clients[id - 1]
    }

    /// The session with the identity `id`.
    pub open spec fn session(self, id: int) -> SessionView
        recommends
            self.has_session(id),
    {
        self.sessions[id - 1]
    }

    /// The number the next session of `client_id` gets.
    pub open spec fn next_session_number(self, client_id: int) -> int {
        following_number(max_session_number(self.sessions, client_id))
    }

    /// The client that a creation with `dto` at `registration_date` adds.
    pub open spec fn new_client(
        self,
        dto: CreateClientDtoView,
        registration_date: Seq<char>,
    ) -> ClientView {
        ClientView {
            id: self.clients.len() as int + 1,
            firstname: dto.firstname,
            lastname: dto.lastname,
            dob: dto.dob,
            sex: dto.sex,
            registration_date,
        }
    }

    /// Whether the store can give a further client an identity.
    pub open spec fn admits_client(self) -> bool {
        self.clients.len() < i32::MAX
    }

    /// Why the store refuses to create a client, if it does.
    pub open spec fn client_refusal(self) -> Option<RecordError> {
        if !self.admits_client() {
            Some(RecordError::Storage(StorageFault::Exhausted))
        } else {
            None
        }
    }

    /// The store after a client was created from `dto` at `registration_date`.
    pub open spec fn with_client(
        self,
        dto: CreateClientDtoView,
        registration_date: Seq<char>,
    ) -> StoreView {
        StoreView {
            clients: self.clients.push(self.new_client(dto, registration_date)),
            sessions: self.sessions,
        }
    }

    /// The store after the client `dto.id` was updated; unchanged if there is
    /// no such client.
    pub open spec fn with_client_update(self, dto: UpdateClientDtoView) -> StoreView {
        if self.has_client(dto.id) {
            StoreView {
                clients: self.clients.update(dto.id - 1, self.client(dto.id).replaced_by(dto)),
                sessions: self.sessions,
            }
        } else {
            self
        }
    }

    /// The session that a creation with `dto` at `datetime` adds.
    pub open spec fn new_session(self, dto: CreateSessionDtoView, datetime: Seq<char>) -> SessionView {
        SessionView {
            id: self.sessions.len() as int + 1,
            client_id: dto.client_id,
            datetime,
            session_number: self.next_session_number(dto.client_id),
            height: dto.height,
            weight: dto.weight,
            anterior: dto.anterior,
            posterior: dto.posterior,
            right_lateral: dto.right_lateral,
            left_lateral: dto.left_lateral,
            notes: dto.notes,
            anterior_crop: dto.anterior_crop,
            posterior_crop: dto.posterior_crop,
            right_lateral_crop: dto.right_lateral_crop,
            left_lateral_crop: dto.left_lateral_crop,
        }
    }

    /// Whether the store can give a further session an identity.
    pub open spec fn admits_session(self) -> bool {
        self.sessions.len() < i32::MAX
    }

    /// Why the store refuses to create a session for `client_id`, if it does.
    pub open spec fn session_refusal(self, client_id: int) -> Option<RecordError> {
        if !self.has_client(client_id) {
            Some(RecordError::Storage(StorageFault::UnknownClient))
        } else if !self.admits_session() {
            Some(RecordError::Storage(StorageFault::Exhausted))
        } else {
            None
        }
    }

    /// The store after a session was created from `dto` at `datetime`.
    pub open spec fn with_session(self, dto: CreateSessionDtoView, datetime: Seq<char>) -> StoreView {
        StoreView {
            clients: self.clients,
            sessions: self.sessions.push(self.new_session(dto, datetime)),
        }
    }

    /// The store after the session `dto.id` was replaced; unchanged if there
    /// is no such session.
    pub open spec fn with_session_update(self, dto: UpdateSessionDtoView) -> StoreView {
        if self.has_session(dto.id) {
            StoreView {
                clients: self.clients,
                sessions: self.sessions.update(dto.id - 1, self.session(dto.id).replaced_by(dto)),
            }
        } else {
            self
        }
    }

    /// The store after the crop metadata of `slot` of the session
    /// `session_id` was set to `crop`; unchanged if there is no such session.
    pub open spec fn with_crop(self, session_id: int, slot: ImageSlot, crop: Seq<char>) -> StoreView {
        if self.has_session(session_id) {
            StoreView {
                clients: self.clients,
                sessions: self.sessions.update(
                    session_id - 1,
                    self.session(session_id).with_crop(slot, Some(crop)),
                ),
            }
        } else {
            self
        }
    }
}

/// Whether `a` stands before `b` in a listing of clients: `a` registered
/// later than `b`, or at the same date and was created first.
pub open spec fn listed_before(a: ClientView, b: ClientView) -> bool {
    &&& text_precedes(b.registration_date, a.registration_date)
    &&& text_precedes(a.registration_date, b.registration_date) ==> a.id < b.id
}

/// Whether `listing` is the listing of `clients`: the same clients, newest
/// registration date first, clients of one date in order of creation.
pub open spec fn is_client_listing(listing: Seq<ClientView>, clients: Seq<ClientView>) -> bool {
    &&& listing.to_multiset() == clients.to_multiset()
    &&& forall|i: int, j: int|
        0 <= i < j < listing.len() ==> listed_before(#[trigger] listing[i], #[trigger] listing[j])
}

/// The sessions of `client_id` among `sessions`, the one created last first.
pub open spec fn sessions_newest_first(
    sessions: Seq<SessionView>,
    client_id: int,
) -> Seq<SessionView>
    decreases sessions.len(),
{
    if sessions.len() == 0 {
        Seq::empty()
    } else if sessions.last().client_id == client_id {
        seq![sessions.last()] + sessions_newest_first(sessions.drop_last(), client_id)
    } else {
        sessions_newest_first(sessions.drop_last(), client_id)
    }
}

/// Creating a client keeps the store well formed.
pub proof fn lemma_with_client_wf(
    store: StoreView,
    dto: CreateClientDtoView,
    registration_date: Seq<char>,
)
    requires
        store.wf(),
        store.admits_client(),
    ensures
        store.with_client(dto, registration_date).wf(),
{
}

/// Updating a client keeps the store well formed.
pub proof fn lemma_with_client_update_wf(store: StoreView, dto: UpdateClientDtoView)
    requires
        store.wf(),
    ensures
        store.with_client_update(dto).wf(),
{
}

/// In a well-formed store, the next session number of a client is one more
/// than the number of the client's sessions, and fits the record whenever the
/// store admits a further session.
pub proof fn lemma_next_session_number(store: StoreView, client_id: int)
    requires
        store.wf(),
    ensures
        store.next_session_number(client_id) == session_count(store.sessions, client_id) + 1,
        1 <= store.next_session_number(client_id) <= store.sessions.len() + 1,
{
    lemma_following_is_count_plus_one(store.sessions, client_id);
    lemma_session_count_bounded(store.sessions, client_id);
}

/// Creating a session for a client of the store keeps the store well formed.
pub proof fn lemma_with_session_wf(store: StoreView, dto: CreateSessionDtoView, datetime: Seq<char>)
    requires
        store.wf(),
        store.admits_session(),
        store.has_client(dto.client_id),
    ensures
        store.with_session(dto, datetime).wf(),
{
    let after = store.with_session(dto, datetime);
    let n = store.sessions.len() as int;
    lemma_next_session_number(store, dto.client_id);
    assert forall|j: int| 0 <= j < after.sessions.len() implies (#[trigger] after.sessions[j]).session_number
        == session_count(after.sessions.take(j), after.sessions[j].client_id) + 1 by {
        if j < n {
            assert(after.sessions.take(j) =~= store.sessions.take(j));
            assert(after.sessions[j] == store.sessions[j]);
        } else {
            assert(after.sessions.take(j) =~= store.sessions);
        }
    }
}

/// A change of fields that keeps each session's client keeps the count of
/// every client's sessions.
pub proof fn lemma_session_count_same_clients(
    before: Seq<SessionView>,
    after: Seq<SessionView>,
    client_id: int,
)
    requires
        before.len() == after.len(),
        forall|j: int| 0 <= j < before.len() ==> before[j].client_id == after[j].client_id,
    ensures
        session_count(before, client_id) == session_count(after, client_id),
    decreases before.len(),
{
    if before.len() > 0 {
        lemma_session_count_same_clients(before.drop_last(), after.drop_last(), client_id);
    }
}

/// Replacing a session's mutable fields keeps the store well formed.
pub proof fn lemma_with_session_update_wf(store: StoreView, dto: UpdateSessionDtoView)
    requires
        store.wf(),
    ensures
        store.with_session_update(dto).wf(),
{
    let after = store.with_session_update(dto);
    assert forall|j: int| 0 <= j < after.sessions.len() implies (#[trigger] after.sessions[j]).session_number
        == session_count(after.sessions.take(j), after.sessions[j].client_id) + 1 by {
        lemma_session_count_same_clients(
            store.sessions.take(j),
            after.sessions.take(j),
            after.sessions[j].client_id,
        );
        assert(store.sessions[j].session_number == after.sessions[j].session_number);
    }
}

/// Setting one crop field keeps the store well formed.
pub proof fn lemma_with_crop_wf(store: StoreView, session_id: int, slot: ImageSlot, crop: Seq<char>)
    requires
        store.wf(),
    ensures
        store.with_crop(session_id, slot, crop).wf(),
{
    let after = store.with_crop(session_id, slot, crop);
    assert forall|j: int| 0 <= j < after.sessions.len() implies (#[trigger] after.sessions[j]).session_number
        == session_count(after.sessions.take(j), after.sessions[j].client_id) + 1 by {
        lemma_session_count_same_clients(
            store.sessions.take(j),
            after.sessions.take(j),
            after.sessions[j].client_id,
        );
        assert(store.sessions[j].session_number == after.sessions[j].session_number);
    }
}

} // verus!

//! What holds of every well-formed store and of every payload, stated over
//! the mathematical values that the operations' contracts speak of.

use vstd::prelude::*;
use vstd::seq_lib::to_multiset_remove;
use vstd::utf8::{encode_utf8, is_ascii_chars, is_ascii_chars_encode_utf8};
use crate::models::{ClientView, CreateSessionDtoView, SessionView, UpdateSessionDtoView};
use crate::photo::{
    data_uri_header, decodes_to, is_standard_symbol, lemma_data_uri_payload,
    lemma_payload_starts_after_last_comma, lemma_payload_without_comma, payload_of,
    standard_decoding, COMMA,
};
use crate::sequencer::{lemma_numbered_prefix, numbered_in_order, session_count};
use crate::slot::ImageSlot;
use crate::state::{
    is_client_listing, lemma_next_session_number, lemma_with_session_wf, listed_before,
    sessions_newest_first, StoreView,
};
use crate::text::{lemma_bytes_precede_total, text_precedes};

verus! {

/// In a listing of clients no client stands before one that registered
/// later.
pub proof fn law_listing_is_newest_first(
    listing: Seq<ClientView>,
    clients: Seq<ClientView>,
    i: int,
    j: int,
)
    requires
        is_client_listing(listing, clients),
        0 <= i <= j < listing.len(),
    ensures
        text_precedes(listing[j].registration_date, listing[i].registration_date),
{
    if i == j {
        let date = encode_utf8(listing[i].registration_date);
        lemma_bytes_precede_total(date, date);
    }
}

/// A listing of clients holds every client of the store, and no other.
pub proof fn law_listing_holds_every_client(
    listing: Seq<ClientView>,
    clients: Seq<ClientView>,
    client: ClientView,
)
    requires
        is_client_listing(listing, clients),
    ensures
        listing.len() == clients.len(),
        listing.contains(client) <==> clients.contains(client),
{
    listing.to_multiset_ensures();
    clients.to_multiset_ensures();
    assert(listing.contains(client) <==> listing.to_multiset().count(client) > 0);
    assert(clients.contains(client) <==> clients.to_multiset().count(client) > 0);
}

/// The store's clients have one listing only: the order of a listing leaves
/// nothing open.
pub proof fn law_listing_is_determined(
    first: Seq<ClientView>,
    second: Seq<ClientView>,
    clients: Seq<ClientView>,
)
    requires
        is_client_listing(first, clients),
        is_client_listing(second, clients),
    ensures
        first == second,
    decreases first.len(),
{
    first.to_multiset_ensures();
    second.to_multiset_ensures();
    if first.len() == 0 {
        assert(first =~= second);
    } else {
        let head = first[0];
        assert(first.contains(head));
        assert(second.to_multiset().count(head) > 0);
        assert(second.contains(head));
        let p = choose|p: int| 0 <= p < second.len() && second[p] == head;
        if p > 0 {
            let other = second[0];
            assert(listed_before(second[0], second[p]));
            assert(second.contains(other));
            assert(first.to_multiset().count(other) > 0);
            assert(first.contains(other));
            let q = choose|q: int| 0 <= q < first.len() && first[q] == other;
            if q > 0 {
                assert(listed_before(first[0], first[q]));
            }
        }
        assert(second[0] == head);
        let first_rest = first.drop_first();
        let second_rest = second.drop_first();
        assert(first_rest =~= first.remove(0));
        assert(second_rest =~= second.remove(0));
        to_multiset_remove(first, 0);
        to_multiset_remove(second, 0);
        assert forall|i: int, j: int| 0 <= i < j < first_rest.len() implies listed_before(
            #[trigger] first_rest[i],
            #[trigger] first_rest[j],
        ) by {
            assert(listed_before(first[i + 1], first[j + 1]));
        }
        assert forall|i: int, j: int| 0 <= i < j < second_rest.len() implies listed_before(
            #[trigger] second_rest[i],
            #[trigger] second_rest[j],
        ) by {
            assert(listed_before(second[i + 1], second[j + 1]));
        }
        law_listing_is_determined(first_rest, second_rest, first_rest);
        assert(first =~= seq![head] + first_rest);
        assert(second =~= seq![head] + second_rest);
    }
}

/// The listing of a client's sessions has as many sessions as the client
/// has, all of them the client's.
proof fn lemma_listing_counts(sessions: Seq<SessionView>, client_id: int)
    ensures
        sessions_newest_first(sessions, client_id).len() == session_count(sessions, client_id),
        forall|i: int|
            0 <= i < sessions_newest_first(sessions, client_id).len() ==> (
            #[trigger] sessions_newest_first(sessions, client_id)[i]).client_id == client_id,
    decreases sessions.len(),
{
    if sessions.len() > 0 {
        lemma_listing_counts(sessions.drop_last(), client_id);
    }
}

/// The session numbers of a client are exactly 1 to N, where N is the number
/// of the client's sessions: listed newest first, the sessions carry N, N-1,
/// ..., 1. No number is missing and none occurs twice, whatever sessions of
/// other clients were created in between.
pub proof fn law_session_numbers_are_gap_free(store: StoreView, client_id: int)
    requires
        store.wf(),
    ensures
        sessions_newest_first(store.sessions, client_id).len() == session_count(
            store.sessions,
            client_id,
        ),
        forall|i: int|
            0 <= i < sessions_newest_first(store.sessions, client_id).len() ==> (
            #[trigger] sessions_newest_first(store.sessions, client_id)[i]).session_number
                == sessions_newest_first(store.sessions, client_id).len() - i,
{
    lemma_numbers_descend(store.sessions, client_id);
}

/// Among sessions numbered in order, the listing of a client's sessions
/// counts down from the number of the client's sessions to 1.
proof fn lemma_numbers_descend(sessions: Seq<SessionView>, client_id: int)
    requires
        numbered_in_order(sessions),
    ensures
        sessions_newest_first(sessions, client_id).len() == session_count(sessions, client_id),
        forall|i: int|
            0 <= i < sessions_newest_first(sessions, client_id).len() ==> (
            #[trigger] sessions_newest_first(sessions, client_id)[i]).session_number
                == sessions_newest_first(sessions, client_id).len() - i,
    decreases sessions.len(),
{
    lemma_listing_counts(sessions, client_id);
    if sessions.len() > 0 {
        let n = sessions.len() - 1;
        lemma_numbered_prefix(sessions, n);
        assert(sessions.take(n) =~= sessions.drop_last());
        lemma_numbers_descend(sessions.drop_last(), client_id);
        lemma_listing_counts(sessions.drop_last(), client_id);
        assert(sessions[n] == sessions.last());
    }
}

/// Two sessions of one client never carry the same number: the one created
/// later carries the greater one.
pub proof fn law_session_numbers_are_unique(store: StoreView, i: int, j: int)
    requires
        store.wf(),
        0 <= i < j < store.sessions.len(),
        store.sessions[i].client_id == store.sessions[j].client_id,
    ensures
        store.sessions[i].session_number < store.sessions[j].session_number,
{
    let client_id = store.sessions[i].client_id;
    lemma_count_grows(store.sessions, client_id, i + 1, j);
    assert(store.sessions.take(i + 1).drop_last() =~= store.sessions.take(i));
}

/// A longer prefix holds at least as many sessions of a client.
proof fn lemma_count_grows(sessions: Seq<SessionView>, client_id: int, m: int, n: int)
    requires
        0 <= m <= n <= sessions.len(),
    ensures
        session_count(sessions.take(m), client_id) <= session_count(sessions.take(n), client_id),
    decreases n - m,
{
    if m < n {
        lemma_count_grows(sessions, client_id, m, n - 1);
        assert(sessions.take(n).drop_last() =~= sessions.take(n - 1));
    }
}

/// A preview of a client's next session number gives the count of the
/// client's sessions plus one; the session created next for the client gets
/// exactly that number, and a preview after the creation gives one more.
pub proof fn law_next_number_advances_by_one(
    store: StoreView,
    dto: CreateSessionDtoView,
    datetime: Seq<char>,
)
    requires
        store.wf(),
        store.session_refusal(dto.client_id) is None,
    ensures
        store.next_session_number(dto.client_id) == session_count(store.sessions, dto.client_id)
            + 1,
        store.new_session(dto, datetime).session_number == store.next_session_number(
            dto.client_id,
        ),
        store.with_session(dto, datetime).next_session_number(dto.client_id)
            == store.next_session_number(dto.client_id) + 1,
{
    let after = store.with_session(dto, datetime);
    lemma_with_session_wf(store, dto, datetime);
    lemma_next_session_number(store, dto.client_id);
    lemma_next_session_number(after, dto.client_id);
    assert(after.sessions.drop_last() =~= store.sessions);
}

/// Creating a session for one client changes neither the sessions nor the
/// next session number of any other client.
pub proof fn law_creation_leaves_other_clients(
    store: StoreView,
    dto: CreateSessionDtoView,
    datetime: Seq<char>,
    other: int,
)
    requires
        store.wf(),
        store.session_refusal(dto.client_id) is None,
        other != dto.client_id,
    ensures
        sessions_newest_first(store.with_session(dto, datetime).sessions, other)
            == sessions_newest_first(store.sessions, other),
        store.with_session(dto, datetime).next_session_number(other) == store.next_session_number(
            other,
        ),
{
    let after = store.with_session(dto, datetime);
    assert(after.sessions.drop_last() =~= store.sessions);
}

/// Two sessions created one after the other for one client get different
/// numbers, the second one the greater: a creation reads the greatest number
/// and adds the session in one step, so no other creation comes between.
pub proof fn law_successive_creations_differ(
    store: StoreView,
    first: CreateSessionDtoView,
    first_datetime: Seq<char>,
    second: CreateSessionDtoView,
    second_datetime: Seq<char>,
)
    requires
        store.wf(),
        first.client_id == second.client_id,
        store.session_refusal(first.client_id) is None,
        store.with_session(first, first_datetime).session_refusal(second.client_id) is None,
    ensures
        store.with_session(first, first_datetime).new_session(
            second,
            second_datetime,
        ).session_number == store.new_session(first, first_datetime).session_number + 1,
{
    law_next_number_advances_by_one(store, first, first_datetime);
}

/// Whether two sessions agree in every field but the crop metadata of
/// `slot`.
pub open spec fn same_but_crop(a: SessionView, b: SessionView, slot: ImageSlot) -> bool {
    &&& a.id == b.id
    &&& a.client_id == b.client_id
    &&& a.datetime == b.datetime
    &&& a.session_number == b.session_number
    &&& a.height == b.height
    &&& a.weight == b.weight
    &&& a.anterior == b.anterior
    &&& a.posterior == b.posterior
    &&& a.right_lateral == b.right_lateral
    &&& a.left_lateral == b.left_lateral
    &&& a.notes == b.notes
    &&& slot != ImageSlot::Anterior ==> a.anterior_crop == b.anterior_crop
    &&& slot != ImageSlot::Posterior ==> a.posterior_crop == b.posterior_crop
    &&& slot != ImageSlot::RightLateral ==> a.right_lateral_crop == b.right_lateral_crop
    &&& slot != ImageSlot::LeftLateral ==> a.left_lateral_crop == b.left_lateral_crop
}

/// The crop metadata of `slot` in a session.
pub open spec fn crop_of(session: SessionView, slot: ImageSlot) -> Option<Seq<char>> {
    match slot {
        ImageSlot::Anterior => session.anterior_crop,
        ImageSlot::Posterior => session.posterior_crop,
        ImageSlot::RightLateral => session.right_lateral_crop,
        ImageSlot::LeftLateral => session.left_lateral_crop,
    }
}

/// Setting the crop metadata of one slot changes that field of that session
/// and nothing else: not the other fields of the session, the crop metadata
/// of the other three slots among them, not any other session, not any
/// client.
pub proof fn law_crop_update_is_sparse(
    store: StoreView,
    session_id: int,
    slot: ImageSlot,
    crop: Seq<char>,
)
    requires
        store.has_session(session_id),
    ensures
        store.with_crop(session_id, slot, crop).clients == store.clients,
        store.with_crop(session_id, slot, crop).sessions.len() == store.sessions.len(),
        forall|id: int|
            store.has_session(id) && id != session_id ==> #[trigger] store.with_crop(
                session_id,
                slot,
                crop,
            ).session(id) == store.session(id),
        same_but_crop(
            store.with_crop(session_id, slot, crop).session(session_id),
            store.session(session_id),
            slot,
        ),
        crop_of(store.with_crop(session_id, slot, crop).session(session_id), slot) == Some(crop),
{
}

/// The update that carries no value at all for the session `id`.
pub open spec fn blank_update(id: int) -> UpdateSessionDtoView {
    UpdateSessionDtoView {
        id,
        height: None,
        weight: None,
        anterior: None,
        posterior: None,
        right_lateral: None,
        left_lateral: None,
        notes: None,
        anterior_crop: None,
        posterior_crop: None,
        right_lateral_crop: None,
        left_lateral_crop: None,
    }
}

/// An update replaces a session in full: afterwards every mutable field
/// holds what the update carries, present or absent, whatever it held
/// before, while the identity, the client, the date and the session number
/// are those of before. No other session and no client changes.
pub proof fn law_session_update_is_full_replace(store: StoreView, dto: UpdateSessionDtoView)
    requires
        store.has_session(dto.id),
    ensures
        store.with_session_update(dto).clients == store.clients,
        store.with_session_update(dto).sessions.len() == store.sessions.len(),
        forall|id: int|
            store.has_session(id) && id != dto.id ==> #[trigger] store.with_session_update(
                dto,
            ).session(id) == store.session(id),
        store.with_session_update(dto).session(dto.id) == (SessionView {
            id: store.session(dto.id).id,
            client_id: store.session(dto.id).client_id,
            datetime: store.session(dto.id).datetime,
            session_number: store.session(dto.id).session_number,
            height: dto.height,
            weight: dto.weight,
            anterior: dto.anterior,
            posterior: dto.posterior,
            right_lateral: dto.right_lateral,
            left_lateral: dto.left_lateral,
            notes: dto.notes,
            anterior_crop: dto.anterior_crop,
            posterior_crop: dto.posterior_crop,
            right_lateral_crop: dto.right_lateral_crop,
            left_lateral_crop: dto.left_lateral_crop,
        }),
{
}

/// An update without any value clears every optional field of the session,
/// and keeps its identity, client, date and session number.
pub proof fn law_blank_update_clears_every_field(store: StoreView, id: int)
    requires
        store.has_session(id),
    ensures
        ({
            let before = store.session(id);
            let after = store.with_session_update(blank_update(id)).session(id);
            &&& after.id == before.id
            &&& after.client_id == before.client_id
            &&& after.datetime == before.datetime
            &&& after.session_number == before.session_number
            &&& after.height is None
            &&& after.weight is None
            &&& after.anterior is None
            &&& after.posterior is None
            &&& after.right_lateral is None
            &&& after.left_lateral is None
            &&& after.notes is None
            &&& after.anterior_crop is None
            &&& after.posterior_crop is None
            &&& after.right_lateral_crop is None
            &&& after.left_lateral_crop is None
        }),
{
}

/// A data-URI header does not change what a payload decodes to: with data
/// that holds no comma, the payload behind any header and a comma is the
/// data, as is the bare data.
pub proof fn law_header_is_stripped(header: Seq<u8>, data: Seq<u8>)
    requires
        forall|i: int| 0 <= i < data.len() ==> data[i] != COMMA,
    ensures
        payload_of(header + seq![COMMA] + data) == data,
        payload_of(data) == data,
        standard_decoding(payload_of(header + seq![COMMA] + data)) == standard_decoding(
            payload_of(data),
        ),
{
    let whole = header + seq![COMMA] + data;
    let start: int = header.len() as int + 1;
    assert(whole[start - 1] == COMMA);
    assert forall|i: int| start <= i < whole.len() implies whole[i] != COMMA by {
        assert(whole[i] == data[i - start]);
    }
    lemma_payload_starts_after_last_comma(whole, start);
    assert(whole.subrange(start, whole.len() as int) =~= data);
    lemma_payload_without_comma(data);
}

/// Base64 text of a photograph's bytes is saved as those bytes, whether it
/// comes bare or behind the data-URI header under which a stored photograph
/// is loaded: saving what was loaded stores the same bytes again.
pub proof fn law_photo_round_trip(image_data: Seq<u8>, text: Seq<char>)
    requires
        forall|i: int| 0 <= i < text.len() ==> is_standard_symbol(#[trigger] text[i]),
        decodes_to(encode_utf8(text), image_data),
    ensures
        decodes_to(payload_of(encode_utf8(text)), image_data),
        decodes_to(payload_of(encode_utf8(data_uri_header() + text)), image_data),
{
    lemma_data_uri_payload(text);
    assert(is_ascii_chars(text));
    is_ascii_chars_encode_utf8(text);
    let bytes = encode_utf8(text);
    assert forall|i: int| 0 <= i < bytes.len() implies bytes[i] != COMMA by {
        assert(is_standard_symbol(text[i]));
    }
    lemma_payload_without_comma(bytes);
}

} // verus!

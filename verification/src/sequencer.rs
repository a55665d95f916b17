//! The per-client session ordinal: the number a client's next session gets,
//! and why the numbers of a client's sessions never repeat or leave a gap.

use vstd::prelude::*;
use crate::errors::{RecordError, StorageFault};
use crate::models::SessionView;

verus! {

/// How many of `sessions` belong to the client `client_id`.
pub open spec fn session_count(sessions: Seq<SessionView>, client_id: int) -> nat
    decreases sessions.len(),
{
    if sessions.len() == 0 {
        0
    } else if sessions.last().client_id == client_id {
        session_count(sessions.drop_last(), client_id) + 1
    } else {
        session_count(sessions.drop_last(), client_id)
    }
}

/// The greatest session number among the sessions of `client_id`, if the
/// client has any.
pub open spec fn max_session_number(sessions: Seq<SessionView>, client_id: int) -> Option<int>
    decreases sessions.len(),
{
    if sessions.len() == 0 {
        None
    } else {
        let earlier = max_session_number(sessions.drop_last(), client_id);
        let last = sessions.last();
        if last.client_id != client_id {
            earlier
        } else if earlier is Some && earlier->0 >= last.session_number {
            earlier
        } else {
            Some(last.session_number)
        }
    }
}

/// The number that follows the greatest one in use: one more than it, or 1
/// when none is in use.
pub open spec fn following_number(max: Option<int>) -> int {
    match max {
        Some(number) => number + 1,
        None => 1,
    }
}

/// Every session carries the ordinal of its creation among the sessions of
/// its client: the first session of a client has number 1, the next one 2,
/// and so on.
pub open spec fn numbered_in_order(sessions: Seq<SessionView>) -> bool {
    forall|j: int|
        0 <= j < sessions.len() ==> (#[trigger] sessions[j]).session_number == session_count(
            sessions.take(j),
            sessions[j].client_id,
        ) + 1
}

/// The number for a client's next session, from the greatest number that the
/// client's sessions carry so far. A number that does not fit the record is
/// refused.
pub fn next_session_number(max: Option<i64>) -> (result: Result<i32, RecordError>)
    ensures
        match result {
            Ok(number) => number == following_number(max_as_int(max)),
            Err(error) => error == RecordError::Storage(StorageFault::Exhausted) && !(i32::MIN
                <= following_number(max_as_int(max)) <= i32::MAX),
        },
{
    match max {
        None => Ok(1),
        Some(number) => {
            if number >= i32::MIN as i64 - 1 && number < i32::MAX as i64 {
                Ok((number + 1) as i32)
            } else {
                Err(RecordError::Storage(StorageFault::Exhausted))
            }
        },
    }
}

/// An optional machine integer as an optional mathematical integer.
pub open spec fn max_as_int(max: Option<i64>) -> Option<int> {
    match max {
        Some(number) => Some(number as int),
        None => None,
    }
}

/// A client has at most as many sessions as there are sessions.
pub proof fn lemma_session_count_bounded(sessions: Seq<SessionView>, client_id: int)
    ensures
        session_count(sessions, client_id) <= sessions.len(),
    decreases sessions.len(),
{
    if sessions.len() > 0 {
        lemma_session_count_bounded(sessions.drop_last(), client_id);
    }
}

/// A prefix of sessions numbered in order is numbered in order.
pub proof fn lemma_numbered_prefix(sessions: Seq<SessionView>, n: int)
    requires
        numbered_in_order(sessions),
        0 <= n <= sessions.len(),
    ensures
        numbered_in_order(sessions.take(n)),
{
    assert forall|j: int| 0 <= j < n implies (#[trigger] sessions.take(n)[j]).session_number
        == session_count(sessions.take(n).take(j), sessions.take(n)[j].client_id) + 1 by {
        assert(sessions.take(n).take(j) =~= sessions.take(j));
        assert(sessions.take(n)[j] == sessions[j]);
    }
}

/// Among sessions numbered in order, the greatest number of a client is the
/// count of the client's sessions.
pub proof fn lemma_max_is_count(sessions: Seq<SessionView>, client_id: int)
    requires
        numbered_in_order(sessions),
    ensures
        max_session_number(sessions, client_id) == (if session_count(sessions, client_id) == 0 {
            None::<int>
        } else {
            Some(session_count(sessions, client_id) as int)
        }),
    decreases sessions.len(),
{
    if sessions.len() > 0 {
        let n = sessions.len() - 1;
        lemma_numbered_prefix(sessions, n);
        assert(sessions.take(n) =~= sessions.drop_last());
        lemma_max_is_count(sessions.drop_last(), client_id);
        assert(sessions[n] == sessions.last());
    }
}

/// Among sessions numbered in order, the next number of a client is one more
/// than the count of the client's sessions.
pub proof fn lemma_following_is_count_plus_one(sessions: Seq<SessionView>, client_id: int)
    requires
        numbered_in_order(sessions),
    ensures
        following_number(max_session_number(sessions, client_id)) == session_count(
            sessions,
            client_id,
        ) + 1,
{
    lemma_max_is_count(sessions, client_id);
}

} // verus!

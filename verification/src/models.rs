//! The records the store keeps and the payloads that create or change them,
//! each with its mathematical view.

use vstd::prelude::*;

verus! {

/// A real-valued measurement, carried as the IEEE-754 bit pattern of a
/// double-precision number. The library stores and returns it untouched.
#[derive(Clone, Copy, Debug, PartialEq, Eq, Structural)]
pub struct Measurement {
    pub bits: u64,
}

/// The text inside an optional string.
pub open spec fn optional_text(value: Option<String>) -> Option<Seq<char>> {
    match value {
        Some(text) => Some(text@),
        None => None,
    }
}

/// Copies an optional string.
pub fn copy_optional_text(value: &Option<String>) -> (copy: Option<String>)
    ensures
        copy == *value,
{
    match value {
        Some(text) => Some(text.clone()),
        None => None,
    }
}

/// A person whose sessions are recorded.
#[derive(Debug, PartialEq, Eq)]
pub struct Client {
    pub id: i32,
    pub firstname: String,
    pub lastname: String,
    pub dob: String,
    pub sex: String,
    pub registration_date: String,
}

/// What a `Client` holds, as mathematical values.
pub struct ClientView {
    pub id: int,
    pub firstname: Seq<char>,
    pub lastname: Seq<char>,
    pub dob: Seq<char>,
    pub sex: Seq<char>,
    pub registration_date: Seq<char>,
}

impl View for Client {
    type V = ClientView;

    open spec fn view(&self) -> ClientView {
        ClientView {
            id: self.id as int,
            firstname: self.firstname@,
            lastname: self.lastname@,
            dob: self.dob@,
            sex: self.sex@,
            registration_date: self.registration_date@,
        }
    }
}

impl Clone for Client {
    fn clone(&self) -> (copy: Self)
        ensures
            copy == *self,
    {
        Client {
            id: self.id,
            firstname: self.firstname.clone(),
            lastname: self.lastname.clone(),
            dob: self.dob.clone(),
            sex: self.sex.clone(),
            registration_date: self.registration_date.clone(),
        }
    }
}

/// The caller-supplied fields of a new client.
#[derive(Debug, PartialEq, Eq)]
pub struct CreateClientDto {
    pub firstname: String,
    pub lastname: String,
    pub dob: String,
    pub sex: String,
}

/// What a `CreateClientDto` holds, as mathematical values.
pub struct CreateClientDtoView {
    pub firstname: Seq<char>,
    pub lastname: Seq<char>,
    pub dob: Seq<char>,
    pub sex: Seq<char>,
}

impl View for CreateClientDto {
    type V = CreateClientDtoView;

    open spec fn view(&self) -> CreateClientDtoView {
        CreateClientDtoView {
            firstname: self.firstname@,
            lastname: self.lastname@,
            dob: self.dob@,
            sex: self.sex@,
        }
    }
}

/// The new values of a client's mutable fields, with the client's identity.
#[derive(Debug, PartialEq, Eq)]
pub struct UpdateClientDto {
    pub id: i32,
    pub firstname: String,
    pub lastname: String,
    pub dob: String,
    pub sex: String,
}

/// What an `UpdateClientDto` holds, as mathematical values.
pub struct UpdateClientDtoView {
    pub id: int,
    pub firstname: Seq<char>,
    pub lastname: Seq<char>,
    pub dob: Seq<char>,
    pub sex: Seq<char>,
}

impl View for UpdateClientDto {
    type V = UpdateClientDtoView;

    open spec fn view(&self) -> UpdateClientDtoView {
        UpdateClientDtoView {
            id: self.id as int,
            firstname: self.firstname@,
            lastname: self.lastname@,
            dob: self.dob@,
            sex: self.sex@,
        }
    }
}

/// One dated measurement and photo-set event of a client.
#[derive(Debug, PartialEq, Eq)]
pub struct Session {
    pub id: i32,
    pub client_id: i32,
    pub datetime: String,
    pub session_number: i32,
    pub height: Option<Measurement>,
    pub weight: Option<Measurement>,
    pub anterior: Option<String>,
    pub posterior: Option<String>,
    pub right_lateral: Option<String>,
    pub left_lateral: Option<String>,
    pub notes: Option<String>,
    pub anterior_crop: Option<String>,
    pub posterior_crop: Option<String>,
    pub right_lateral_crop: Option<String>,
    pub left_lateral_crop: Option<String>,
}

/// What a `Session` holds, as mathematical values.
pub struct SessionView {
    pub id: int,
    pub client_id: int,
    pub datetime: Seq<char>,
    pub session_number: int,
    pub height: Option<Measurement>,
    pub weight: Option<Measurement>,
    pub anterior: Option<Seq<char>>,
    pub posterior: Option<Seq<char>>,
    pub right_lateral: Option<Seq<char>>,
    pub left_lateral: Option<Seq<char>>,
    pub notes: Option<Seq<char>>,
    pub anterior_crop: Option<Seq<char>>,
    pub posterior_crop: Option<Seq<char>>,
    pub right_lateral_crop: Option<Seq<char>>,
    pub left_lateral_crop: Option<Seq<char>>,
}

impl View for Session {
    type V = SessionView;

    open spec fn view(&self) -> SessionView {
        SessionView {
            id: self.id as int,
            client_id: self.client_id as int,
            datetime: self.datetime@,
            session_number: self.session_number as int,
            height: self.height,
            weight: self.weight,
            anterior: optional_text(self.anterior),
            posterior: optional_text(self.posterior),
            right_lateral: optional_text(self.right_lateral),
            left_lateral: optional_text(self.left_lateral),
            notes: optional_text(self.notes),
            anterior_crop: optional_text(self.anterior_crop),
            posterior_crop: optional_text(self.posterior_crop),
            right_lateral_crop: optional_text(self.right_lateral_crop),
            left_lateral_crop: optional_text(self.left_lateral_crop),
        }
    }
}

impl Clone for Session {
    fn clone(&self) -> (copy: Self)
        ensures
            copy == *self,
    {
        Session {
            id: self.id,
            client_id: self.client_id,
            datetime: self.datetime.clone(),
            session_number: self.session_number,
            height: self.height,
            weight: self.weight,
            anterior: copy_optional_text(&self.anterior),
            posterior: copy_optional_text(&self.posterior),
            right_lateral: copy_optional_text(&self.right_lateral),
            left_lateral: copy_optional_text(&self.left_lateral),
            notes: copy_optional_text(&self.notes),
            anterior_crop: copy_optional_text(&self.anterior_crop),
            posterior_crop: copy_optional_text(&self.posterior_crop),
            right_lateral_crop: copy_optional_text(&self.right_lateral_crop),
            left_lateral_crop: copy_optional_text(&self.left_lateral_crop),
        }
    }
}

/// The caller-supplied fields of a new session.
#[derive(Debug, PartialEq, Eq)]
pub struct CreateSessionDto {
    pub client_id: i32,
    pub height: Option<Measurement>,
    pub weight: Option<Measurement>,
    pub anterior: Option<String>,
    pub posterior: Option<String>,
    pub right_lateral: Option<String>,
    pub left_lateral: Option<String>,
    pub notes: Option<String>,
    pub anterior_crop: Option<String>,
    pub posterior_crop: Option<String>,
    pub right_lateral_crop: Option<String>,
    pub left_lateral_crop: Option<String>,
}

/// What a `CreateSessionDto` holds, as mathematical values.
pub struct CreateSessionDtoView {
    pub client_id: int,
    pub height: Option<Measurement>,
    pub weight: Option<Measurement>,
    pub anterior: Option<Seq<char>>,
    pub posterior: Option<Seq<char>>,
    pub right_lateral: Option<Seq<char>>,
    pub left_lateral: Option<Seq<char>>,
    pub notes: Option<Seq<char>>,
    pub anterior_crop: Option<Seq<char>>,
    pub posterior_crop: Option<Seq<char>>,
    pub right_lateral_crop: Option<Seq<char>>,
    pub left_lateral_crop: Option<Seq<char>>,
}

impl View for CreateSessionDto {
    type V = CreateSessionDtoView;

    open spec fn view(&self) -> CreateSessionDtoView {
        CreateSessionDtoView {
            client_id: self.client_id as int,
            height: self.height,
            weight: self.weight,
            anterior: optional_text(self.anterior),
            posterior: optional_text(self.posterior),
            right_lateral: optional_text(self.right_lateral),
            left_lateral: optional_text(self.left_lateral),
            notes: optional_text(self.notes),
            anterior_crop: optional_text(self.anterior_crop),
            posterior_crop: optional_text(self.posterior_crop),
            right_lateral_crop: optional_text(self.right_lateral_crop),
            left_lateral_crop: optional_text(self.left_lateral_crop),
        }
    }
}

/// The new values of all of a session's mutable fields, with the session's
/// identity. An absent value clears the stored one.
#[derive(Debug, PartialEq, Eq)]
pub struct UpdateSessionDto {
    pub id: i32,
    pub height: Option<Measurement>,
    pub weight: Option<Measurement>,
    pub anterior: Option<String>,
    pub posterior: Option<String>,
    pub right_lateral: Option<String>,
    pub left_lateral: Option<String>,
    pub notes: Option<String>,
    pub anterior_crop: Option<String>,
    pub posterior_crop: Option<String>,
    pub right_lateral_crop: Option<String>,
    pub left_lateral_crop: Option<String>,
}

/// What an `UpdateSessionDto` holds, as mathematical values.
pub struct UpdateSessionDtoView {
    pub id: int,
    pub height: Option<Measurement>,
    pub weight: Option<Measurement>,
    pub anterior: Option<Seq<char>>,
    pub posterior: Option<Seq<char>>,
    pub right_lateral: Option<Seq<char>>,
    pub left_lateral: Option<Seq<char>>,
    pub notes: Option<Seq<char>>,
    pub anterior_crop: Option<Seq<char>>,
    pub posterior_crop: Option<Seq<char>>,
    pub right_lateral_crop: Option<Seq<char>>,
    pub left_lateral_crop: Option<Seq<char>>,
}

impl View for UpdateSessionDto {
    type V = UpdateSessionDtoView;

    open spec fn view(&self) -> UpdateSessionDtoView {
        UpdateSessionDtoView {
            id: self.id as int,
            height: self.height,
            weight: self.weight,
            anterior: optional_text(self.anterior),
            posterior: optional_text(self.posterior),
            right_lateral: optional_text(self.right_lateral),
            left_lateral: optional_text(self.left_lateral),
            notes: optional_text(self.notes),
            anterior_crop: optional_text(self.anterior_crop),
            posterior_crop: optional_text(self.posterior_crop),
            right_lateral_crop: optional_text(self.right_lateral_crop),
            left_lateral_crop: optional_text(self.left_lateral_crop),
        }
    }
}

/// The views of a sequence of clients.
pub open spec fn client_views(clients: Seq<Client>) -> Seq<ClientView> {
    clients.map_values(|client: Client| client@)
}

/// The views of a sequence of sessions.
pub open spec fn session_views(sessions: Seq<Session>) -> Seq<SessionView> {
    sessions.map_values(|session: Session| session@)
}

} // verus!

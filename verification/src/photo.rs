//! The photo archiver's computations: where a photograph is stored, which
//! bytes a transport-encoded payload stands for, and the data URI of stored
//! bytes. Reading and writing files is left to the caller.

use vstd::prelude::*;
use vstd::slice::slice_subrange;
use vstd::string::*;
use vstd::utf8::*;
use base64::Engine;
use crate::errors::{DecodeFault, RecordError};
use crate::text::{decimal, decimal_string};

verus! {

/// The byte that separates a data URI's header from its data.
pub const COMMA: u8 = 0x2c;

/// The directory, below the application's data directory, that holds every
/// photograph.
pub const PHOTOS_DIRECTORY: &'static str = "photos";

/// What the standard base64 alphabet with canonical padding decodes
/// `encoded` to, or why it does not decode.
pub uninterp spec fn standard_decoding(encoded: Seq<u8>) -> Result<Seq<u8>, DecodeFault>;

/// The standard base64 text, with padding, of `bytes`.
pub uninterp spec fn standard_encoding(bytes: Seq<u8>) -> Seq<char>;

/// Whether `symbol` belongs to the standard base64 alphabet or is the
/// padding sign.
pub open spec fn is_standard_symbol(symbol: char) -> bool {
    ||| 'A' <= symbol <= 'Z'
    ||| 'a' <= symbol <= 'z'
    ||| '0' <= symbol <= '9'
    ||| symbol == '+'
    ||| symbol == '/'
    ||| symbol == '='
}

/// Whether `encoded` is valid standard base64 for `bytes`.
pub open spec fn decodes_to(encoded: Seq<u8>, bytes: Seq<u8>) -> bool {
    standard_decoding(encoded) == Ok::<Seq<u8>, DecodeFault>(bytes)
}

/// Decodes standard base64 with `base64::Engine::decode` on
/// `base64::engine::general_purpose::STANDARD`. The outcome is a function of
/// the input alone and is named `standard_decoding`; the crate's error is
/// handed on variant by variant.
#[verifier::external_body]
fn decode_standard(encoded: &[u8]) -> (result: Result<Vec<u8>, DecodeFault>)
    ensures
        match result {
            Ok(bytes) => standard_decoding(encoded@) == Ok::<Seq<u8>, DecodeFault>(bytes@),
            Err(fault) => standard_decoding(encoded@) == Err::<Seq<u8>, DecodeFault>(fault),
        },
{
    match base64::engine::general_purpose::STANDARD.decode(encoded) {
        Ok(bytes) => Ok(bytes),
        Err(base64::DecodeError::InvalidByte(offset, byte)) => Err(
            DecodeFault::InvalidByte { offset, byte },
        ),
        Err(base64::DecodeError::InvalidLength(length)) => Err(
            DecodeFault::InvalidLength { length },
        ),
        Err(base64::DecodeError::InvalidLastSymbol(offset, byte)) => Err(
            DecodeFault::InvalidLastSymbol { offset, byte },
        ),
        Err(base64::DecodeError::InvalidPadding) => Err(DecodeFault::InvalidPadding),
    }
}

/// Encodes with `base64::Engine::encode` on
/// `base64::engine::general_purpose::STANDARD`, which panics if the length of
/// the text does not fit `usize`. The text is a function of the input alone
/// and is named `standard_encoding`; it consists of symbols of the alphabet
/// and padding signs, and the same engine decodes it to the input.
#[verifier::external_body]
fn encode_standard(bytes: &[u8]) -> (text: String)
    requires
        4 * ((bytes@.len() + 2) / 3) <= usize::MAX,
    ensures
        text@ == standard_encoding(bytes@),
        forall|i: int| 0 <= i < text@.len() ==> is_standard_symbol(#[trigger] text@[i]),
        decodes_to(encode_utf8(text@), bytes@),
{
    base64::engine::general_purpose::STANDARD.encode(bytes)
}

/// Where the data of a payload starts: after its last comma, or at its
/// beginning if it holds no comma.
pub open spec fn payload_start(encoded: Seq<u8>) -> int
    decreases encoded.len(),
{
    if encoded.len() == 0 {
        0
    } else if encoded.last() == COMMA {
        encoded.len() as int
    } else {
        payload_start(encoded.drop_last())
    }
}

/// The data of a payload: what follows a data-URI header, or the whole
/// payload if it has no header.
pub open spec fn payload_of(encoded: Seq<u8>) -> Seq<u8> {
    encoded.subrange(payload_start(encoded), encoded.len() as int)
}

/// The data of a payload starts within the payload, directly after a comma
/// unless at the beginning, and holds no comma.
pub proof fn lemma_payload_start(encoded: Seq<u8>)
    ensures
        0 <= payload_start(encoded) <= encoded.len(),
        payload_start(encoded) > 0 ==> encoded[payload_start(encoded) - 1] == COMMA,
        forall|i: int| payload_start(encoded) <= i < encoded.len() ==> encoded[i] != COMMA,
    decreases encoded.len(),
{
    if encoded.len() > 0 && encoded.last() != COMMA {
        let shorter = encoded.drop_last();
        lemma_payload_start(shorter);
        assert forall|i: int| payload_start(encoded) <= i < encoded.len() implies encoded[i]
            != COMMA by {
            if i < shorter.len() {
                assert(shorter[i] == encoded[i]);
            }
        }
    }
}

/// A position directly after a comma, with no comma behind it, is where the
/// data starts.
pub proof fn lemma_payload_starts_after_last_comma(encoded: Seq<u8>, start: int)
    requires
        0 < start <= encoded.len(),
        encoded[start - 1] == COMMA,
        forall|i: int| start <= i < encoded.len() ==> encoded[i] != COMMA,
    ensures
        payload_start(encoded) == start,
    decreases encoded.len(),
{
    if start < encoded.len() {
        lemma_payload_starts_after_last_comma(encoded.drop_last(), start);
    }
}

/// A payload without a comma is all data.
pub proof fn lemma_payload_without_comma(encoded: Seq<u8>)
    requires
        forall|i: int| 0 <= i < encoded.len() ==> encoded[i] != COMMA,
    ensures
        payload_of(encoded) == encoded,
    decreases encoded.len(),
{
    if encoded.len() > 0 {
        lemma_payload_without_comma(encoded.drop_last());
        lemma_payload_start(encoded.drop_last());
    }
    lemma_payload_start(encoded);
    assert(payload_start(encoded) == 0) by {
        if payload_start(encoded) > 0 {
            assert(encoded[payload_start(encoded) - 1] == COMMA);
        }
    }
    assert(encoded.subrange(0, encoded.len() as int) =~= encoded);
}

/// The data of a payload: the bytes after its last comma, or all of it.
pub fn payload(encoded: &[u8]) -> (data: &[u8])
    ensures
        data@ == payload_of(encoded@),
{
    let mut start: usize = encoded.len();
    assert(encoded@.take(start as int) =~= encoded@);
    while start > 0 && encoded[start - 1] != COMMA
        invariant
            start <= encoded@.len(),
            payload_start(encoded@) == payload_start(encoded@.take(start as int)),
        decreases start,
    {
        assert(encoded@.take(start as int).drop_last() =~= encoded@.take(start - 1));
        start -= 1;
    }
    assert(payload_start(encoded@) == start) by {
        if start > 0 {
            assert(encoded@.take(start as int).last() == COMMA);
        }
    }
    slice_subrange(encoded, start, encoded.len())
}

/// The bytes that a transport-encoded image stands for. The image comes as
/// base64 text, bare or behind a data-URI header; the header is dropped.
pub fn decode_payload(base64_image: &str) -> (result: Result<Vec<u8>, RecordError>)
    ensures
        match result {
            Ok(image_data) => standard_decoding(payload_of(encode_utf8(base64_image@))) == Ok::<
                Seq<u8>,
                DecodeFault,
            >(image_data@),
            Err(error) => error is Decode && standard_decoding(
                payload_of(encode_utf8(base64_image@)),
            ) == Err::<Seq<u8>, DecodeFault>(error->Decode_0),
        },
{
    match decode_standard(payload(base64_image.as_bytes())) {
        Ok(image_data) => Ok(image_data),
        Err(fault) => Err(RecordError::Decode(fault)),
    }
}

/// The header of the data URI of a stored photograph.
pub open spec fn data_uri_header() -> Seq<char> {
    "data:image/jpeg;base64,"@
}

/// The data URI of a photograph's bytes: the JPEG header, then the bytes in
/// base64. Decoding the URI as a payload gives the bytes back.
pub fn encode_data_uri(image_data: &[u8]) -> (uri: String)
    requires
        4 * ((image_data@.len() + 2) / 3) <= usize::MAX,
    ensures
        uri@ == data_uri_header() + standard_encoding(image_data@),
        decodes_to(payload_of(encode_utf8(uri@)), image_data@),
{
    let text = encode_standard(image_data);
    let mut uri = String::from_str("data:image/jpeg;base64,");
    uri.append(text.as_str());
    proof {
        lemma_data_uri_payload(text@);
    }
    uri
}

/// Behind the data-URI header, base64 text is the payload's data.
pub proof fn lemma_data_uri_payload(text: Seq<char>)
    requires
        forall|i: int| 0 <= i < text.len() ==> is_standard_symbol(#[trigger] text[i]),
    ensures
        payload_of(encode_utf8(data_uri_header() + text)) == encode_utf8(text),
{
    reveal_strlit("data:image/jpeg;base64,");
    let header = data_uri_header();
    let uri = header + text;
    assert(header.len() == 23);
    assert(is_ascii_chars(header));
    assert(is_ascii_chars(text));
    assert(is_ascii_chars(uri));
    is_ascii_chars_encode_utf8(uri);
    is_ascii_chars_encode_utf8(text);
    let bytes = encode_utf8(uri);
    assert(uri[22] == ',');
    assert(bytes[22] == COMMA);
    assert forall|i: int| 23 <= i < bytes.len() implies bytes[i] != COMMA by {
        assert(uri[i] == text[i - 23]);
        assert(is_standard_symbol(text[i - 23]));
    }
    lemma_payload_starts_after_last_comma(bytes, 23);
    assert(bytes.subrange(23, bytes.len() as int) =~= encode_utf8(text)) by {
        assert forall|i: int| 0 <= i < text.len() implies bytes[i + 23] == encode_utf8(text)[i] by {
            assert(uri[i + 23] == text[i]);
        }
    }
}

/// The directory of a client's photographs: the client's identity and first
/// name, joined by an underscore.
pub open spec fn client_directory_text(client_id: int, client_firstname: Seq<char>) -> Seq<char> {
    decimal(client_id) + "_"@ + client_firstname
}

/// The directory of one session's photographs: `session_` and the session
/// number.
pub open spec fn session_directory_text(session_no: int) -> Seq<char> {
    "session_"@ + decimal(session_no)
}

/// The file name of a photograph: the image slot and the client's first
/// name, joined by an underscore, with the JPEG extension.
pub open spec fn file_name_text(image_type: Seq<char>, client_firstname: Seq<char>) -> Seq<char> {
    image_type + "_"@ + client_firstname + ".jpg"@
}

/// Where a photograph is stored, as path segments below the photos
/// directory: `<client directory>/<session directory>/<file name>`.
#[derive(Debug, PartialEq, Eq)]
pub struct PhotoLocation {
    pub client_directory: String,
    pub session_directory: String,
    pub file_name: String,
}

/// Where the photograph of one image slot of a client's session is stored.
/// The same client, session and slot always give the same place.
pub fn locate_photo(
    client_id: i32,
    client_firstname: &str,
    session_no: i32,
    image_type: &str,
) -> (location: PhotoLocation)
    ensures
        location.client_directory@ == client_directory_text(client_id as int, client_firstname@),
        location.session_directory@ == session_directory_text(session_no as int),
        location.file_name@ == file_name_text(image_type@, client_firstname@),
{
    let mut client_directory = decimal_string(client_id);
    client_directory.append("_");
    client_directory.append(client_firstname);
    let mut session_directory = String::from_str("session_");
    session_directory.append(decimal_string(session_no).as_str());
    let mut file_name = String::from_str(image_type);
    file_name.append("_");
    file_name.append(client_firstname);
    file_name.append(".jpg");
    PhotoLocation { client_directory, session_directory, file_name }
}

} // verus!

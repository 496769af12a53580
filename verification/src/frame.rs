//! Frames: each message travels as one line of base64 text.

use vstd::prelude::*;
use vstd::string::*;

verus! {

/// `base64::DecodeError`, the error of `base64::decode`. Nothing is said of
/// what it holds.
#[verifier::external_type_specification]
#[verifier::external_body]
pub struct ExDecodeError(base64::DecodeError);

/// The bytes that `base64::decode` reads out of a text, `None` where it
/// rejects the text.
pub uninterp spec fn base64_decoded(text: Seq<u8>) -> Option<Seq<u8>>;

/// The text that `base64::encode` writes for a sequence of bytes.
pub uninterp spec fn base64_encoded(bytes: Seq<u8>) -> Seq<char>;

/// The length of the base64 text of `len` bytes: four characters for
/// every three bytes begun.
pub open spec fn encoded_len(len: nat) -> nat {
    4 * ((len + 2) / 3)
}

/// Calls `base64::decode`, which reads the standard alphabet and takes
/// padding or none. The contract only names what it returns: the decoded
/// bytes, or an error where the text is not base64.
#[verifier::external_body]
fn decode_base64(text: &[u8]) -> (r: Result<Vec<u8>, base64::DecodeError>)
    ensures
        match r {
            Ok(bytes) => base64_decoded(text@) == Some(bytes@),
            Err(_) => base64_decoded(text@) is None,
        },
{
    base64::decode(text)
}

/// Calls `base64::encode`, which writes the standard alphabet with
/// padding. It panics where the length of the text would not fit in
/// `usize`, so such inputs are left out. The contract names the text and
/// states that no line break occurs in it: it is made of letters, digits,
/// `+`, `/` and `=` alone.
#[verifier::external_body]
fn encode_base64(bytes: &[u8]) -> (r: String)
    requires
        encoded_len(bytes@.len()) <= usize::MAX,
    ensures
        r@ == base64_encoded(bytes@),
        forall|i: int| 0 <= i < r@.len() ==> r@[i] != '\n',
{
    base64::encode(bytes)
}

/// The payload that stands for an undecodable frame: the two bytes `{}`,
/// an object that sets nothing.
pub open spec fn empty_payload() -> Seq<u8> {
    seq![0x7bu8, 0x7du8]
}

/// The payload of a frame, given what decoding its text gave.
pub open spec fn payload_of(decoded: Option<Seq<u8>>) -> Seq<u8> {
    match decoded {
        Some(bytes) => bytes,
        None => empty_payload(),
    }
}

/// The payload of a frame whose text decoded to `decoded`: the decoded
/// bytes, or the empty object where the text could not be decoded.
pub fn payload_or_empty(decoded: Option<Vec<u8>>) -> (payload: Vec<u8>)
    ensures
        payload@ == payload_of(
            match decoded {
                Some(bytes) => Some(bytes@),
                None => None,
            },
        ),
{
    match decoded {
        Some(bytes) => bytes,
        None => {
            let mut payload: Vec<u8> = Vec::new();
            payload.push(0x7bu8);
            payload.push(0x7du8);
            assert(payload@ =~= empty_payload());
            payload
        },
    }
}

/// The payload of an inbound line. A line that is not base64 stands for
/// the empty object: a garbled frame changes nothing and ends nothing.
pub fn decode_frame(line: &str) -> (payload: Vec<u8>)
    ensures
        payload@ == payload_of(base64_decoded(line.spec_bytes())),
{
    match decode_base64(line.as_bytes()) {
        Ok(bytes) => payload_or_empty(Some(bytes)),
        Err(_) => payload_or_empty(None),
    }
}

/// The outbound line for a payload: its base64 text and a line break,
/// which is the only line break in the line. `None` where the length of
/// the base64 text would not fit in `usize`.
pub fn encode_frame(payload: &str) -> (framed: Option<String>)
    ensures
        framed is Some <==> encoded_len(payload.spec_bytes().len()) <= usize::MAX,
        framed matches Some(line) ==> {
            &&& line@ == base64_encoded(payload.spec_bytes()).push('\n')
            &&& forall|i: int| 0 <= i < line@.len() - 1 ==> line@[i] != '\n'
        },
{
    let bytes = payload.as_bytes();
    let groups: usize = if bytes.len() % 3 == 0 {
        bytes.len() / 3
    } else {
        bytes.len() / 3 + 1
    };
    if groups > usize::MAX / 4 {
        return None;
    }
    let mut line = encode_base64(bytes);
    proof {
        reveal_strlit("\n");
    }
    line.append("\n");
    assert(line@ =~= base64_encoded(payload.spec_bytes()).push('\n'));
    Some(line)
}

} // verus!

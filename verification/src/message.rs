//! The wire-message abstraction.
//!
//! A message is a block of opaque bytes with an accessible command token.
//! The codec that decides which byte sequences are valid messages is
//! pluggable: any type implementing [`Message`] can run through the client.

use vstd::prelude::*;
use vstd::string::StringSliceAdditionalSpecFns;

verus! {

/// The text that lossy UTF-8 decoding yields for a byte sequence.
pub uninterp spec fn lossy_text_of(bytes: Seq<u8>) -> Seq<char>;

/// Relies on String::from_utf8_lossy: decodes the bytes as UTF-8, replacing
/// ill-formed sequences; the result depends on the bytes alone.
#[verifier::external_body]
fn lossy_string(bytes: &[u8]) -> (r: String)
    ensures
        r@ == lossy_text_of(bytes@),
{
    String::from_utf8_lossy(bytes).into_owned()
}

/// Whether a byte sequence is well-formed UTF-8, as the decoder judges it.
pub uninterp spec fn utf8_decodable(bytes: Seq<u8>) -> bool;

/// Relies on str::from_utf8: yields the bytes as text exactly when they are
/// well-formed UTF-8, and then the text re-encodes to the same bytes.
#[verifier::external_body]
fn utf8_str(bytes: &[u8]) -> (r: Option<&str>)
    ensures
        (r is Some) == utf8_decodable(bytes@),
        r matches Some(s) ==> s.spec_bytes() == bytes@,
{
    std::str::from_utf8(bytes).ok()
}

/// Why a byte sequence could not be decoded into a message.
#[derive(Clone, Copy, Debug, PartialEq, Eq, Structural)]
pub enum MessageError {
    /// The bytes were not valid text in the codec's expected encoding.
    NotUtf8,
    /// The bytes did not form a well-formed message.
    Malformed,
}

/// A wire message: opaque bytes with an accessible command token.
///
/// Implementations supply the codec. The reactor relies only on what the
/// contracts below state: a decoded message stores the bytes it was decoded
/// from. The two view functions carry the model the contracts speak of; a
/// codec verified against this trait overrides them, while an unverified
/// one may leave the defaults in place, since nothing runs them.
pub trait Message: Sized {
    /// The raw encoded bytes of the message.
    open spec fn bytes(&self) -> Seq<u8> {
        Seq::empty()
    }

    /// The command token of the message.
    open spec fn command(&self) -> Seq<u8> {
        Seq::empty()
    }

    /// Which byte sequences the codec accepts as a message: decoding
    /// succeeds on exactly these.
    open spec fn decodable(bytes: Seq<u8>) -> bool {
        true
    }

    /// Decode a message from raw bytes: succeeds exactly on the byte
    /// sequences the codec accepts, and a successfully decoded message
    /// stores exactly the bytes it was decoded from.
    fn try_from(bytes: Vec<u8>) -> (r: Result<Self, MessageError>)
        ensures
            (r is Ok) == Self::decodable(bytes@),
            match r {
                Ok(m) => m.bytes() == bytes@,
                Err(_) => true,
            },
    ;

    /// The raw encoded bytes of the message.
    fn as_bytes(&self) -> (r: &[u8])
        ensures
            r@ == self.bytes(),
    ;

    /// The command token of the message.
    fn command_bytes(&self) -> (r: &[u8])
        ensures
            r@ == self.command(),
    ;

    /// An independent copy of the message.
    fn dup(&self) -> (r: Self)
        ensures
            r.bytes() == self.bytes(),
            r.command() == self.command(),
    ;

    /// The message as text, where the codec already stores it that way.
    fn as_str(&self) -> (r: Option<&str>)
        ensures
            r matches Some(s) ==> s.spec_bytes() == self.bytes(),
    {
        None
    }

    /// The message as text: succeeds whenever the codec already stores text
    /// or the bytes are well-formed UTF-8, and fails with the encoding
    /// error otherwise.
    fn to_str(&self) -> (r: Result<&str, MessageError>)
        ensures
            r matches Ok(s) ==> s.spec_bytes() == self.bytes(),
            utf8_decodable(self.bytes()) ==> r is Ok,
            r matches Err(e) ==> !utf8_decodable(self.bytes()) && e == MessageError::NotUtf8,
    {
        match self.as_str() {
            Some(s) => Ok(s),
            None => match utf8_str(self.as_bytes()) {
                Some(s) => Ok(s),
                None => Err(MessageError::NotUtf8),
            },
        }
    }

    /// A lossy text view of the message.
    fn to_str_lossy(&self) -> (r: String)
        ensures
            r@ == lossy_text_of(self.bytes()),
    {
        lossy_string(self.as_bytes())
    }
}

} // verus!

//! The signed-message envelope: an author identity, a message and an ed25519
//! signature over the message bytes, with its three-string wire payload.

use vstd::prelude::*;
use crate::crypto;
use crate::crypto::ed25519_pubkey_of;
use crate::crypto::ed25519_sign_of;
use crate::crypto::ed25519_verifies;
use crate::hexcode::all_hex;
use crate::hexcode::bytes_of_hex;
use crate::hexcode::hex_chars_of;
use crate::hexcode::hex_decode;
use crate::hexcode::hex_encode;
use crate::hexcode::lemma_hex_round_trip;
use crate::identity::identity_text;
use crate::identity::lemma_identity_round_trip;
use crate::identity::spec_parse_identity;
use crate::identity::ParseErrorView;
use crate::identity::SuteraIdentity;
use crate::identity::SuteraIdentityStringParseError;
use crate::identity::SuteraIdentityView;

verus! {

/// One authenticated utterance exchanged within the Sutera network.
///
/// Only the signing constructor guarantees a valid signature; a deserialized
/// envelope must be re-verified before it is trusted.
#[derive(Clone, Debug, PartialEq, Eq)]
pub struct SuteraSignedMessage {
    pub author: SuteraIdentity,
    pub message: String,
    pub signature: [u8; 64],
}

/// The mathematical shape of a signed message.
pub struct SuteraSignedMessageView {
    pub author: SuteraIdentityView,
    pub message: Seq<char>,
    pub signature: Seq<u8>,
}

impl View for SuteraSignedMessage {
    type V = SuteraSignedMessageView;

    open spec fn view(&self) -> SuteraSignedMessageView {
        SuteraSignedMessageView {
            author: self.author@,
            message: self.message@,
            signature: self.signature@,
        }
    }
}

impl SuteraSignedMessageView {
    /// Whether the stored signature checks out against the author's
    /// verifying key and the message.
    pub open spec fn valid_signature(self) -> bool {
        ed25519_verifies(self.author.pub_signature, self.message, self.signature)
    }
}

/// Why signing failed.
#[derive(Clone, Copy, Debug, PartialEq, Eq, Structural)]
pub enum SuteraMessageSigningError {
    /// The signing key's derived verifying key disagrees with the author's
    /// stated verifying key.
    SigningKeyMismatch,
}

/// Why a wire payload was rejected.
#[derive(Clone, Debug, PartialEq, Eq)]
pub enum SuteraMessageDeserializeError {
    /// The author field failed the identity codec; carries its error.
    InvalidAuthor(SuteraIdentityStringParseError),
    /// The signature field failed the signature primitive's textual decoder.
    InvalidSignature,
}

/// The signing capability: the 32-byte seed of an ed25519 key pair, an
/// opaque handle from which the primitive derives the verifying key and
/// signs byte strings.
#[derive(Clone)]
pub struct SuteraSigningKey {
    pub seed: [u8; 32],
}

/// The wire payload of a signed message: three text fields, suitable for
/// any structured serialization format.
#[derive(Clone, Debug, PartialEq, Eq)]
pub struct SuteraSignedMessagePayload {
    /// The author in the identity codec's canonical text form.
    pub author: String,
    /// The message text, unmodified.
    pub message: String,
    /// The signature in the primitive's textual form: 128 uppercase
    /// hexadecimal characters.
    pub signature: String,
}

fn bytes32_eq(a: &[u8; 32], b: &[u8; 32]) -> (r: bool)
    ensures
        r == (a@ == b@),
{
    let mut i: usize = 0;
    while i < 32
        invariant
            i <= 32,
            forall|j: int| 0 <= j < i ==> a@[j] == b@[j],
        decreases 32 - i,
    {
        if a[i] != b[i] {
            return false;
        }
        i += 1;
    }
    proof {
        assert(a@ =~= b@);
    }
    true
}

pub open spec fn is_lower_hex_letter(c: char) -> bool {
    97 <= c as u32 && c as u32 <= 102
}

pub open spec fn is_upper_hex_letter(c: char) -> bool {
    65 <= c as u32 && c as u32 <= 70
}

/// Letters of both cases never mix in the signature's textual form.
pub open spec fn uniform_case(s: Seq<char>) -> bool {
    !((exists|i: int| 0 <= i < s.len() && is_lower_hex_letter(#[trigger] s[i])) && (exists|i: int|
        0 <= i < s.len() && is_upper_hex_letter(#[trigger] s[i])))
}

/// What the signature primitive's textual decoder accepts: exactly 128
/// hexadecimal characters whose letters are all of one case; the decoded
/// 64 bytes otherwise carry no constraint.
pub open spec fn spec_parse_signature_text(s: Seq<char>) -> Option<Seq<u8>> {
    if s.len() == 128 && all_hex(s) && uniform_case(s) {
        Some(bytes_of_hex(s))
    } else {
        None
    }
}

/// Decode the signature's textual form.
pub fn parse_signature_text(s: &str) -> (r: Option<[u8; 64]>)
    ensures
        match r {
            Some(b) => spec_parse_signature_text(s@) == Some(b@),
            None => spec_parse_signature_text(s@) is None,
        },
{
    let n = s.unicode_len();
    if n != 128 {
        return None;
    }
    let mut has_lower = false;
    let mut has_upper = false;
    let mut i: usize = 0;
    while i < 128
        invariant
            i <= 128,
            s@.len() == 128,
            has_lower == exists|j: int| 0 <= j < i && is_lower_hex_letter(#[trigger] s@[j]),
            has_upper == exists|j: int| 0 <= j < i && is_upper_hex_letter(#[trigger] s@[j]),
        decreases 128 - i,
    {
        let c = s.get_char(i) as u32;
        if 97 <= c && c <= 102 {
            has_lower = true;
        }
        if 65 <= c && c <= 70 {
            has_upper = true;
        }
        i += 1;
    }
    if has_lower && has_upper {
        return None;
    }
    let bytes = match hex_decode(s) {
        Some(v) => v,
        None => {
            return None;
        },
    };
    let mut sig = [0u8; 64];
    let mut k: usize = 0;
    while k < 64
        invariant
            k <= 64,
            bytes@.len() == 64,
            bytes@ == bytes_of_hex(s@),
            forall|j: int| 0 <= j < k ==> sig@[j] == bytes@[j],
        decreases 64 - k,
    {
        sig[k] = bytes[k];
        k += 1;
    }
    proof {
        assert(sig@ =~= bytes_of_hex(s@));
    }
    Some(sig)
}

impl SuteraSignedMessage {
    /// Sign a message with the author's signing key.
    ///
    /// The verifying key derived from the signing key must equal the
    /// author's stated key; otherwise the call fails with
    /// `SigningKeyMismatch` and produces no envelope. On success the
    /// envelope's signature is the primitive's signature of the message and
    /// verifies against the author's key.
    pub fn new(author: SuteraIdentity, message: String, signer: SuteraSigningKey) -> (r: Result<
        SuteraSignedMessage,
        SuteraMessageSigningError,
    >)
        ensures
            ed25519_pubkey_of(signer.seed@) == author@.pub_signature ==> (r matches Ok(m)
                && m@.author == author@ && m@.message == message@ && m@.signature
                == ed25519_sign_of(signer.seed@, message@) && m@.valid_signature()),
            ed25519_pubkey_of(signer.seed@) != author@.pub_signature ==> r == Err::<
                SuteraSignedMessage,
                SuteraMessageSigningError,
            >(SuteraMessageSigningError::SigningKeyMismatch),
    {
        let verifying_key = crypto::derive_verifying_key(&signer.seed);
        if !bytes32_eq(&verifying_key, &author.pub_signature) {
            return Err(SuteraMessageSigningError::SigningKeyMismatch);
        }
        let signature = crypto::sign(&signer.seed, message.as_str());
        Ok(SuteraSignedMessage { author, message, signature })
    }

    /// Check the stored signature against the author's verifying key and
    /// the message; total, with no side effect.
    pub fn verify(&self) -> (r: bool)
        ensures
            r == self@.valid_signature(),
    {
        crypto::verify_signature(&self.author.pub_signature, self.message.as_str(), &self.signature)
    }

    /// The wire payload of the envelope; cannot fail.
    pub fn serialize(&self) -> (p: SuteraSignedMessagePayload)
        ensures
            p.author@ == identity_text(self@.author),
            p.message@ == self@.message,
            p.signature@ == hex_chars_of(self@.signature, true),
    {
        SuteraSignedMessagePayload {
            author: self.author.to_identity_string(),
            message: self.message.clone(),
            signature: hex_encode(self.signature.as_slice(), true),
        }
    }

    /// Rebuild an envelope from a wire payload: parse the author through the
    /// identity codec and the signature through the primitive's textual
    /// decoder, propagating their errors. Deliberately performs no
    /// signature verification; callers verify before trusting the result.
    pub fn deserialize(payload: SuteraSignedMessagePayload) -> (r: Result<
        SuteraSignedMessage,
        SuteraMessageDeserializeError,
    >)
        ensures
            ({
                let pa = spec_parse_identity(payload.author@);
                let ps = spec_parse_signature_text(payload.signature@);
                match r {
                    Ok(m) => {
                        &&& pa matches Ok(av)
                        &&& m@.author == av
                        &&& ps matches Some(sb)
                        &&& m@.signature == sb
                        &&& m@.message == payload.message@
                    },
                    Err(SuteraMessageDeserializeError::InvalidAuthor(e)) => pa matches Err(ev)
                        && e@ == ev,
                    Err(SuteraMessageDeserializeError::InvalidSignature) => pa is Ok
                        && ps is None,
                }
            }),
    {
        let author = match SuteraIdentity::try_from(payload.author) {
            Ok(a) => a,
            Err(e) => {
                return Err(SuteraMessageDeserializeError::InvalidAuthor(e));
            },
        };
        let signature = match parse_signature_text(payload.signature.as_str()) {
            Some(b) => b,
            None => {
                return Err(SuteraMessageDeserializeError::InvalidSignature);
            },
        };
        Ok(SuteraSignedMessage { author, message: payload.message, signature })
    }
}

/// Round trip of the wire payload: the payload written for an envelope with
/// a well-formed author parses back to the same author, message and
/// signature.
pub proof fn lemma_payload_round_trip(m: SuteraSignedMessageView)
    requires
        m.author.wf(),
        m.signature.len() == 64,
    ensures
        spec_parse_identity(identity_text(m.author)) == Ok::<SuteraIdentityView, ParseErrorView>(
            m.author,
        ),
        spec_parse_signature_text(hex_chars_of(m.signature, true)) == Some(m.signature),
{
    lemma_identity_round_trip(m.author);
    lemma_hex_round_trip(m.signature, true);
    let h = hex_chars_of(m.signature, true);
    assert forall|i: int| 0 <= i < h.len() implies !is_lower_hex_letter(#[trigger] h[i]) by {
        if i % 2 == 0 {
            assert(h[i] == crate::hexcode::hex_digit_char(m.signature[i / 2] / 16, true));
        } else {
            assert(h[i] == crate::hexcode::hex_digit_char(m.signature[i / 2] % 16, true));
        }
    }
    assert(uniform_case(h));
}

} // verus!

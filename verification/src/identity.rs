use vstd::prelude::*;
use ed25519_dalek::{Signer, SigningKey};
use crate::text::{chars_of, contains, contains_exec, lowercase, push_str, string_of, to_lowercase};

verus! {

broadcast use vstd::string::group_string_axioms;

/// The Ed25519 public key that belongs to a 32-byte secret key.
pub uninterp spec fn ed25519_public_key(secret: Seq<u8>) -> Seq<u8>;

/// The (deterministic) Ed25519 signature of `message` under a 32-byte secret key.
pub uninterp spec fn ed25519_signature(secret: Seq<u8>, message: Seq<u8>) -> Seq<u8>;

/// `SigningKey::from_bytes(..).verifying_key().to_bytes()` (ed25519-dalek): the public key of the
/// secret key. Only its name is stated; the curve arithmetic is not written out here.
#[verifier::external_body]
fn public_key_of(secret: &[u8; 32]) -> (r: [u8; 32])
    ensures
        r@ == ed25519_public_key(secret@),
{
    SigningKey::from_bytes(secret).verifying_key().to_bytes()
}

/// `SigningKey::from_bytes(..).sign(message).to_bytes()` (ed25519-dalek): the signature, named by
/// the secret key and the message; how it is computed is not written out here.
#[verifier::external_body]
fn signature_of(secret: &[u8; 32], message: &[u8]) -> (r: [u8; 64])
    ensures
        r@ == ed25519_signature(secret@, message@),
{
    SigningKey::from_bytes(secret).sign(message).to_bytes()
}

/// Lower-case hexadecimal digit for `n < 16`.
pub open spec fn hex_digit(n: nat) -> char {
    if n < 10 { (n + 48) as char } else { (n + 87) as char }
}

/// Two lower-case hex digits per byte, high nibble first.
pub open spec fn hex_text(b: Seq<u8>) -> Seq<char>
    decreases b.len(),
{
    if b.len() == 0 {
        Seq::empty()
    } else {
        hex_text(b.drop_last()) + seq![hex_digit(b.last() as nat / 16), hex_digit(b.last() as nat % 16)]
    }
}

/// `hex::encode`: two lower-case hex digits per byte, high nibble first.
#[verifier::external_body]
pub(crate) fn hex_encode(bytes: &[u8]) -> (r: String)
    ensures
        r@ == hex_text(bytes@),
{
    hex::encode(bytes)
}

/// Value of one hex digit (either case).
pub open spec fn hex_value(c: char) -> Option<nat> {
    if '0' <= c && c <= '9' {
        Some((c as nat - 48) as nat)
    } else if 'a' <= c && c <= 'f' {
        Some((c as nat - 87) as nat)
    } else if 'A' <= c && c <= 'F' {
        Some((c as nat - 55) as nat)
    } else {
        None
    }
}

/// Bytes of an even-length string of hex digits (either case); `None` otherwise.
pub open spec fn hex_decoded(s: Seq<char>) -> Option<Seq<u8>>
    decreases s.len(),
{
    if s.len() % 2 != 0 {
        None
    } else if s.len() == 0 {
        Some(Seq::empty())
    } else {
        match (hex_decoded(s.take(s.len() - 2)), hex_value(s[s.len() - 2]), hex_value(s[s.len() - 1])) {
            (Some(p), Some(h), Some(l)) => Some(p.push((h * 16 + l) as u8)),
            _ => None,
        }
    }
}

/// Reading back the hex text of some bytes gives those bytes.
pub proof fn lemma_hex_round_trip(b: Seq<u8>)
    ensures
        hex_decoded(hex_text(b)) == Some(b),
    decreases b.len(),
{
    if b.len() > 0 {
        let p = b.drop_last();
        lemma_hex_round_trip(p);
        lemma_hex_text_len(p);
        let n = b.last() as nat;
        let hi = n / 16;
        let lo = n % 16;
        lemma_hex_digit_value(hi);
        lemma_hex_digit_value(lo);
        let s = hex_text(b);
        assert(s == hex_text(p) + seq![hex_digit(hi), hex_digit(lo)]);
        assert(s.len() == 2 * b.len());
        assert(s.take(s.len() - 2) =~= hex_text(p));
        assert(s[s.len() - 2] == hex_digit(hi));
        assert(s[s.len() - 1] == hex_digit(lo));
        assert((hi * 16 + lo) as u8 == b.last());
        assert(p.push(b.last()) =~= b);
    }
}

proof fn lemma_hex_text_len(b: Seq<u8>)
    ensures
        hex_text(b).len() == 2 * b.len(),
    decreases b.len(),
{
    if b.len() > 0 {
        lemma_hex_text_len(b.drop_last());
    }
}

proof fn lemma_hex_digit_value(n: nat)
    requires
        n < 16,
    ensures
        hex_value(hex_digit(n)) == Some(n),
{
    if n < 10 {
        assert(((n + 48) as char) as nat == n + 48);
    } else {
        assert(((n + 87) as char) as nat == n + 87);
    }
}

/// `hex::decode`: the bytes of an even-length string of hex digits, `None` (its error) otherwise.
#[verifier::external_body]
pub(crate) fn hex_decode(s: &str) -> (r: Option<Vec<u8>>)
    ensures
        match hex_decoded(s@) {
            Some(b) => r matches Some(v) && v@ == b,
            None => r is None,
        },
{
    hex::decode(s).ok()
}

/// The client's Ed25519 identity (its 32-byte secret key).
pub struct Identity {
    secret: [u8; 32],
}

#[derive(Debug, Clone, Copy, PartialEq, Eq, Structural)]
pub enum IdentityOutcome {
    Loaded,
    Created,
}

impl Identity {
    pub closed spec fn secret_key(&self) -> Seq<u8> {
        self.secret@
    }

    pub fn from_secret(secret: [u8; 32]) -> (r: Identity)
        ensures
            r.secret_key() == secret@,
    {
        Identity { secret }
    }

    /// The identity a key file holds: its bytes are the secret key when there are exactly 32 of
    /// them; any other content is not a key (and a new one is generated).
    pub fn from_stored_bytes(bytes: &[u8]) -> (r: Option<Identity>)
        ensures
            bytes@.len() == 32 ==> (r matches Some(id) && id.secret_key() == bytes@),
            bytes@.len() != 32 ==> r is None,
    {
        if bytes.len() != 32 {
            return None;
        }
        let mut secret = [0u8; 32];
        let mut i: usize = 0;
        while i < 32
            invariant
                bytes@.len() == 32,
                i <= 32,
                forall|j: int| 0 <= j < i ==> secret@[j] == bytes@[j],
            decreases 32 - i,
        {
            secret.set(i, bytes[i]);
            i = i + 1;
        }
        assert(secret@ =~= bytes@);
        Some(Identity { secret })
    }

    /// The secret key bytes (what the key file holds).
    pub fn to_bytes(&self) -> (r: [u8; 32])
        ensures
            r@ == self.secret_key(),
    {
        self.secret
    }

    pub fn public_key_hex(&self) -> (r: String)
        ensures
            r@ == hex_text(ed25519_public_key(self.secret_key())),
            r@.len() == 64,
    {
        let pk = public_key_of(&self.secret);
        proof {
            lemma_hex_text_len(pk@);
        }
        hex_encode(&pk)
    }

    pub fn sign(&self, message: &[u8]) -> (r: String)
        ensures
            r@ == hex_text(ed25519_signature(self.secret_key(), message@)),
            r@.len() == 128,
    {
        let sig = signature_of(&self.secret, message);
        proof {
            lemma_hex_text_len(sig@);
        }
        hex_encode(&sig)
    }
}

/// The lower-cased error says authentication was refused.
pub open spec fn names_auth_rejection(lower: Seq<char>) -> bool {
    contains(lower, "authentication rejected"@) || contains(lower, "public key not allowed"@)
        || contains(lower, "authentication failed"@)
}

/// `error`, followed by the public key and the setup advice when it names an authentication refusal.
pub open spec fn hint_text(error: Seq<char>, rejected: bool, public_key: Seq<char>) -> Seq<char> {
    if rejected {
        error + "\n\nYour public key:\n"@ + public_key
            + "\n\nAdd it to allowed_keys on the agent, then restart nulnet."@
    } else {
        error
    }
}

/// The hint for `error` given its lower-cased form `lower`.
pub fn auth_error_hint_lowered(error: &str, lower: &str, identity: &Identity) -> (r: String)
    ensures
        r@ == hint_text(error@, names_auth_rejection(lower@), hex_text(ed25519_public_key(identity.secret_key()))),
{
    let hay = chars_of(lower);
    let a = chars_of("authentication rejected");
    let b = chars_of("public key not allowed");
    let c = chars_of("authentication failed");
    if contains_exec(hay.as_slice(), a.as_slice()) || contains_exec(hay.as_slice(), b.as_slice())
        || contains_exec(hay.as_slice(), c.as_slice()) {
        let pk = identity.public_key_hex();
        let mut v: Vec<char> = Vec::new();
        push_str(&mut v, error);
        push_str(&mut v, "\n\nYour public key:\n");
        push_str(&mut v, pk.as_str());
        push_str(&mut v, "\n\nAdd it to allowed_keys on the agent, then restart nulnet.");
        string_of(&v)
    } else {
        error.to_string()
    }
}

/// An error message, with the public key and setup advice added when it says authentication was refused
/// (compared in lower case).
pub fn auth_error_hint(error: &str, identity: &Identity) -> (r: String)
    ensures
        r@ == hint_text(error@, names_auth_rejection(lowercase(error@)), hex_text(ed25519_public_key(identity.secret_key()))),
{
    let lower = to_lowercase(error);
    auth_error_hint_lowered(error, lower.as_str(), identity)
}

} // verus!

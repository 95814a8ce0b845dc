//! A detached Ed25519 signature appended to an archive's bytes.
//!
//! A signed archive ends with a four-byte marker and a 64-byte signature over
//! everything before the signature, the marker included. The marker only guards
//! against signing twice; verification reads the last 64 bytes alone.
use vstd::prelude::*;
use vstd::array::array_as_slice;
use ed25519_dalek::Signer;

verus! {

/// The public key that belongs to a 32-byte Ed25519 secret key.
pub uninterp spec fn ed25519_public_key(secret: Seq<u8>) -> [u8; 32];

/// The Ed25519 signature of `message` under a 32-byte secret key.
pub uninterp spec fn ed25519_signature(secret: Seq<u8>, message: Seq<u8>) -> [u8; 64];

/// Whether strict Ed25519 verification accepts `signature` of `message` under `public_key`.
pub uninterp spec fn ed25519_accepts(public_key: Seq<u8>, message: Seq<u8>, signature: Seq<u8>) -> bool;

/// Relies on `ed25519_dalek::SigningKey::generate` with `rand::rngs::OsRng`: a
/// secret key of 32 bytes from the operating system's random source.
#[verifier::external_body]
fn fresh_secret_key() -> (r: [u8; 32]) {
    ed25519_dalek::SigningKey::generate(&mut rand::rngs::OsRng).to_bytes()
}

/// Relies on `ed25519_dalek::SigningKey::verifying_key`: the public half of the
/// key pair, a function of the secret alone.
#[verifier::external_body]
fn public_key_of(secret: &[u8; 32]) -> (r: [u8; 32])
    ensures
        r == ed25519_public_key(secret@),
{
    ed25519_dalek::SigningKey::from_bytes(secret).verifying_key().to_bytes()
}

/// Relies on `<ed25519_dalek::SigningKey as Signer>::sign`: Ed25519 signing is
/// deterministic, so the signature is a function of key and message.
#[verifier::external_body]
fn sign_message(secret: &[u8; 32], message: &[u8]) -> (r: [u8; 64])
    ensures
        r == ed25519_signature(secret@, message@),
{
    ed25519_dalek::SigningKey::from_bytes(secret).sign(message).to_bytes()
}

/// Relies on `ed25519_dalek::VerifyingKey::verify_strict`, after
/// `VerifyingKey::from_bytes`: true exactly when the key decodes and the strict
/// check accepts the signature.
#[verifier::external_body]
fn verify_strict(public_key: &[u8], message: &[u8], signature: &[u8]) -> (r: bool)
    requires
        public_key@.len() == 32,
        signature@.len() == 64,
    ensures
        r == ed25519_accepts(public_key@, message@, signature@),
{
    let key: &[u8; 32] = public_key.try_into().unwrap();
    let sig: &[u8; 64] = signature.try_into().unwrap();
    match ed25519_dalek::VerifyingKey::from_bytes(key) {
        Ok(k) => k.verify_strict(message, &ed25519_dalek::Signature::from_bytes(sig)).is_ok(),
        Err(_) => false,
    }
}

/// Length of the signature at the end of a signed archive.
pub const SIGNATURE_LEN: usize = 64;

/// Length of a public key file.
pub const PUBLIC_KEY_LEN: usize = 32;

/// The four bytes placed between the archive and its signature.
pub open spec fn marker() -> Seq<u8> {
    seq![5u8, 4u8, 7u8, 7u8]
}

/// The last 68 bytes begin with the marker.
pub open spec fn already_signed(data: Seq<u8>) -> bool {
    data.len() >= 68 && data.subrange(data.len() - 68, data.len() - 64) == marker()
}

/// What is signed: the archive followed by the marker.
pub open spec fn signed_payload(data: Seq<u8>) -> Seq<u8> {
    data + marker()
}

/// The archive, the marker, and the signature of both under `secret`.
pub open spec fn signed_bytes(data: Seq<u8>, secret: Seq<u8>) -> Seq<u8> {
    signed_payload(data) + ed25519_signature(secret, signed_payload(data))@
}

/// Why signing was refused.
#[derive(Debug, Clone, Copy, PartialEq, Eq, Structural)]
pub enum SignError {
    /// The last 68 bytes already begin with the marker.
    AlreadySigned,
}

/// Why verification failed.
#[derive(Debug, Clone, Copy, PartialEq, Eq, Structural)]
pub enum VerifyError {
    /// Fewer than 64 bytes: there is no room for a signature.
    TooSmall,
    /// The key is not 32 bytes, does not decode, or does not accept the signature.
    VerificationFailed,
}

impl SignError {
    /// A sentence describing the error.
    pub fn message(&self) -> (r: String)
        ensures
            r@ == "File already contains the expected signature marker"@,
    {
        String::from_str("File already contains the expected signature marker")
    }
}

impl VerifyError {
    /// A sentence describing the error.
    pub fn message(&self) -> (r: String)
        ensures
            *self == VerifyError::TooSmall ==> r@ == "File is too small to contain a signature"@,
            *self == VerifyError::VerificationFailed ==> r@ == "Signature verification failed"@,
    {
        match self {
            VerifyError::TooSmall => String::from_str("File is too small to contain a signature"),
            VerifyError::VerificationFailed => String::from_str("Signature verification failed"),
        }
    }
}

/// A signed archive and the public key that verifies it.
pub struct SignedArchive {
    pub bytes: Vec<u8>,
    pub public_key: [u8; 32],
}

/// What verification of `file` with the key file's bytes `key` gives.
pub open spec fn verify_outcome(file: Seq<u8>, key: Seq<u8>) -> Result<(), VerifyError> {
    if file.len() < 64 {
        Err(VerifyError::TooSmall)
    } else if key.len() != 32 {
        Err(VerifyError::VerificationFailed)
    } else if ed25519_accepts(
        key,
        file.subrange(0, file.len() - 64),
        file.subrange(file.len() - 64, file.len() as int),
    ) {
        Ok(())
    } else {
        Err(VerifyError::VerificationFailed)
    }
}

/// Whether the last 68 bytes of `data` begin with the marker.
pub fn has_signature_marker(data: &[u8]) -> (r: bool)
    ensures
        r == already_signed(data@),
{
    let n = data.len();
    if n < 68 {
        return false;
    }
    let s = n - 68;
    let r = data[s] == 5u8 && data[s + 1] == 4u8 && data[s + 2] == 7u8 && data[s + 3] == 7u8;
    proof {
        if r {
            assert(data@.subrange(s as int, s + 4) =~= marker());
        } else {
            let m = data@.subrange(s as int, s + 4);
            assert(m[0] == data@[s as int] && m[1] == data@[s + 1] && m[2] == data@[s + 2] && m[3]
                == data@[s + 3]);
        }
    }
    r
}

/// Signs `data` with the given secret key: the result is the archive, the marker
/// and the signature over both, with the matching public key. Fails, and gives
/// nothing to write, when the last 68 bytes already begin with the marker.
pub fn sign_with_key(data: &[u8], secret: &[u8; 32]) -> (r: Result<SignedArchive, SignError>)
    ensures
        r is Err <==> already_signed(data@),
        r matches Ok(s) ==> s.bytes@ == signed_bytes(data@, secret@) && s.public_key
            == ed25519_public_key(secret@),
{
    if has_signature_marker(data) {
        return Err(SignError::AlreadySigned);
    }
    let mut bytes: Vec<u8> = Vec::new();
    bytes.extend_from_slice(data);
    bytes.push(5u8);
    bytes.push(4u8);
    bytes.push(7u8);
    bytes.push(7u8);
    assert(bytes@ =~= signed_payload(data@));
    let sig = sign_message(secret, bytes.as_slice());
    bytes.extend_from_slice(array_as_slice(&sig));
    let public_key = public_key_of(secret);
    Ok(SignedArchive { bytes, public_key })
}

/// Signs `data` with a freshly generated key pair, whose secret half is dropped.
/// Fails exactly when the last 68 bytes already begin with the marker.
pub fn sign_archive_bytes(data: &[u8]) -> (r: Result<SignedArchive, SignError>)
    ensures
        r is Err <==> already_signed(data@),
        r matches Ok(s) ==> exists|k: Seq<u8>|
            k.len() == 32 && s.bytes@ == #[trigger] signed_bytes(data@, k) && s.public_key
                == ed25519_public_key(k),
{
    let secret = fresh_secret_key();
    let r = sign_with_key(data, &secret);
    proof {
        if let Ok(s) = &r {
            assert(secret@.len() == 32);
            assert(s.bytes@ == signed_bytes(data@, secret@));
        }
    }
    r
}

/// Verifies a signed archive's bytes against the bytes of a public key file. The
/// last 64 bytes are the signature, everything before them the signed message.
pub fn verify_archive_bytes(file: &[u8], key: &[u8]) -> (r: Result<(), VerifyError>)
    ensures
        r == verify_outcome(file@, key@),
{
    let n = file.len();
    if n < SIGNATURE_LEN {
        return Err(VerifyError::TooSmall);
    }
    if key.len() != PUBLIC_KEY_LEN {
        return Err(VerifyError::VerificationFailed);
    }
    let mut message: Vec<u8> = Vec::new();
    let mut signature: Vec<u8> = Vec::new();
    let mut i: usize = 0;
    while i < n
        invariant
            n == file@.len(),
            n >= 64,
            i <= n,
            i <= n - 64 ==> message@ == file@.subrange(0, i as int) && signature@.len() == 0,
            i > n - 64 ==> message@ == file@.subrange(0, n - 64) && signature@ == file@.subrange(
                n - 64,
                i as int,
            ),
        decreases n - i,
    {
        if i < n - SIGNATURE_LEN {
            message.push(file[i]);
            assert(file@.subrange(0, i + 1) =~= file@.subrange(0, i as int).push(file@[i as int]));
        } else {
            signature.push(file[i]);
            assert(file@.subrange(n - 64, i + 1) =~= file@.subrange(n - 64, i as int).push(
                file@[i as int],
            ));
        }
        i = i + 1;
    }
    if verify_strict(key, message.as_slice(), signature.as_slice()) {
        Ok(())
    } else {
        Err(VerifyError::VerificationFailed)
    }
}

/// Signing never succeeds twice: whatever key signed `data`, the result already
/// carries the marker at the place where signing looks for it.
pub proof fn lemma_signed_archive_refuses_second_signing(data: Seq<u8>, secret: Seq<u8>)
    ensures
        already_signed(signed_bytes(data, secret)),
{
    let s = signed_bytes(data, secret);
    let sig = ed25519_signature(secret, signed_payload(data))@;
    assert(sig.len() == 64);
    assert(s.len() == data.len() + 68);
    assert(s.subrange(s.len() - 68, s.len() - 64) =~= marker());
}

/// Verifying what `sign_with_key` produced, with the matching public key, never
/// fails for want of bytes: it succeeds exactly when strict Ed25519 verification
/// accepts the signature that the secret key made over the archive and marker.
pub proof fn lemma_verify_signed_archive(data: Seq<u8>, secret: Seq<u8>)
    ensures
        verify_outcome(signed_bytes(data, secret), ed25519_public_key(secret)@) == if ed25519_accepts(
            ed25519_public_key(secret)@,
            signed_payload(data),
            ed25519_signature(secret, signed_payload(data))@,
        ) {
            Ok::<(), VerifyError>(())
        } else {
            Err(VerifyError::VerificationFailed)
        },
{
    let s = signed_bytes(data, secret);
    let p = signed_payload(data);
    let sig = ed25519_signature(secret, p)@;
    assert(sig.len() == 64);
    assert(ed25519_public_key(secret)@.len() == 32);
    assert(s.subrange(0, s.len() - 64) =~= p);
    assert(s.subrange(s.len() - 64, s.len() as int) =~= sig);
}

} // verus!

use vstd::prelude::*;

use crate::store::Store;
use crate::user_models::{spec_profile_of, Profile, Signer};
use crate::user_repo::{get_user_profile, ReadThrough};

verus! {

/// Length in bytes of a signer public key.
pub const PUBLIC_KEY_LENGTH: usize = 32;

/// Length in bytes of a signature.
pub const SIGNATURE_LENGTH: usize = 64;

/// Length in bytes of the hub-domain truncated message hash.
pub const HASH_LENGTH: usize = 20;

// ---------------------------------------------------------------------------
// Hex decoding.
// ---------------------------------------------------------------------------

/// An ASCII hex digit, either case.
pub open spec fn spec_is_hex_digit(c: u8) -> bool {
    (48 <= c <= 57) || (97 <= c <= 102) || (65 <= c <= 70)
}

/// Value of one hex digit.
pub open spec fn spec_hex_val(c: u8) -> u8
    recommends
        spec_is_hex_digit(c),
{
    if 48 <= c <= 57 {
        (c - 48) as u8
    } else if 97 <= c <= 102 {
        (c - 87) as u8
    } else {
        (c - 55) as u8
    }
}

/// A well-formed hex string: even length, hex digits throughout.
pub open spec fn spec_is_hex(s: Seq<u8>) -> bool {
    &&& s.len() % 2 == 0
    &&& forall|i: int| 0 <= i < s.len() ==> spec_is_hex_digit(#[trigger] s[i])
}

/// The bytes a hex string decodes to: one byte per digit pair.
pub open spec fn spec_hex_decode(s: Seq<u8>) -> Seq<u8>
    recommends
        spec_is_hex(s),
    decreases s.len(),
{
    if s.len() < 2 {
        Seq::empty()
    } else {
        seq![(spec_hex_val(s[0]) * 16 + spec_hex_val(s[1])) as u8] + spec_hex_decode(s.skip(2))
    }
}

/// Relies on `hex::decode`: it succeeds exactly on even-length strings of
/// hex digits (either case) and yields one byte per digit pair, high
/// digit first.
#[verifier::external_body]
fn hex_decode(data: &Vec<u8>) -> (r: Option<Vec<u8>>)
    ensures
        r is Some <==> spec_is_hex(data@),
        (r matches Some(b) ==> b@ == spec_hex_decode(data@)),
{
    hex::decode(data).ok()
}

// ---------------------------------------------------------------------------
// Decimal timestamp parsing.
// ---------------------------------------------------------------------------

/// An ASCII decimal digit.
pub open spec fn spec_is_dec_digit(c: u8) -> bool {
    48 <= c <= 57
}

/// Decimal digits throughout.
pub open spec fn spec_all_dec_digits(s: Seq<u8>) -> bool {
    forall|i: int| 0 <= i < s.len() ==> spec_is_dec_digit(#[trigger] s[i])
}

/// The number a digit string denotes.
pub open spec fn spec_dec_value(s: Seq<u8>) -> int
    recommends
        spec_all_dec_digits(s),
    decreases s.len(),
{
    if s.len() == 0 {
        0
    } else {
        spec_dec_value(s.drop_last()) * 10 + (s.last() - 48)
    }
}

/// A non-empty digit string whose value fits an unsigned 64-bit integer.
pub open spec fn spec_is_u64_decimal(s: Seq<u8>) -> bool {
    &&& s.len() > 0
    &&& spec_all_dec_digits(s)
    &&& spec_dec_value(s) <= u64::MAX
}

proof fn lemma_dec_value_nonneg(s: Seq<u8>)
    requires
        spec_all_dec_digits(s),
    ensures
        spec_dec_value(s) >= 0,
    decreases s.len(),
{
    if s.len() > 0 {
        lemma_dec_value_nonneg(s.drop_last());
    }
}

/// Appending digits never decreases the value.
proof fn lemma_dec_value_mono(s: Seq<u8>, i: int)
    requires
        spec_all_dec_digits(s),
        0 <= i <= s.len(),
    ensures
        spec_dec_value(s) >= spec_dec_value(s.take(i)),
    decreases s.len() - i,
{
    if i < s.len() {
        lemma_dec_value_mono(s, i + 1);
        assert(s.take(i + 1).drop_last() =~= s.take(i));
        assert(spec_all_dec_digits(s.take(i))) by {
            assert(forall|j: int| 0 <= j < i ==> s.take(i)[j] == s[j]);
        }
        lemma_dec_value_nonneg(s.take(i));
    } else {
        assert(s.take(i) =~= s);
    }
}

/// Parse an ASCII decimal unsigned 64-bit integer; rejects anything but
/// plain digits and values out of range.
pub fn parse_u64_decimal(s: &Vec<u8>) -> (r: Option<u64>)
    ensures
        r is Some <==> spec_is_u64_decimal(s@),
        (r matches Some(v) ==> v == spec_dec_value(s@)),
{
    if s.len() == 0 {
        return None;
    }
    let n = s.len();
    let mut acc: u64 = 0;
    let mut i: usize = 0;
    while i < n
        invariant
            i <= n,
            n == s@.len(),
            spec_all_dec_digits(s@.take(i as int)),
            acc == spec_dec_value(s@.take(i as int)),
        decreases n - i,
    {
        let c = s[i];
        proof {
            assert(s@.take(i + 1).drop_last() =~= s@.take(i as int));
            assert(s@.take(i + 1).last() == s@[i as int]);
        }
        if c < 48 || c > 57 {
            return None;
        }
        let d = (c - 48) as u64;
        let wide: u128 = (acc as u128) * 10 + (d as u128);
        if wide > u64::MAX as u128 {
            proof {
                assert(spec_dec_value(s@.take(i + 1)) > u64::MAX);
                if spec_all_dec_digits(s@) {
                    lemma_dec_value_mono(s@, i + 1);
                }
            }
            return None;
        }
        acc = wide as u64;
        i = i + 1;
    }
    proof {
        assert(s@.take(n as int) =~= s@);
    }
    Some(acc)
}

// ---------------------------------------------------------------------------
// The canonical signed message and its hash.
// ---------------------------------------------------------------------------

/// Append `src` to `out`.
fn append_bytes(out: &mut Vec<u8>, src: &Vec<u8>)
    ensures
        final(out)@ == old(out)@ + src@,
{
    let n = src.len();
    let mut i: usize = 0;
    while i < n
        invariant
            i <= n,
            n == src@.len(),
            out@ == old(out)@ + src@.take(i as int),
        decreases n - i,
    {
        out.push(src[i]);
        proof {
            assert(old(out)@ + src@.take(i + 1) =~= (old(out)@ + src@.take(i as int)).push(
                src@[i as int],
            ));
        }
        i = i + 1;
    }
    proof {
        assert(src@.take(n as int) =~= src@);
    }
}

/// The canonical signed message: raw key bytes, then the timestamp
/// header's own ASCII bytes, then the decoded extra data.
pub fn canonical_message(pub_key: &Vec<u8>, timestamp: &Vec<u8>, extra: &Vec<u8>) -> (r: Vec<u8>)
    ensures
        r@ == pub_key@ + timestamp@ + extra@,
{
    let mut out: Vec<u8> = Vec::new();
    append_bytes(&mut out, pub_key);
    append_bytes(&mut out, timestamp);
    append_bytes(&mut out, extra);
    proof {
        assert((Seq::<u8>::empty() + pub_key@ + timestamp@ + extra@) =~= pub_key@ + timestamp@
            + extra@);
    }
    out
}

/// The 32-byte blake3 digest, named: it depends on the input bytes alone.
pub uninterp spec fn spec_blake3(data: Seq<u8>) -> Seq<u8>;

/// Relies on `blake3::hash`: a 32-byte digest that is a function of the
/// input bytes alone.
#[verifier::external_body]
fn blake3_digest(data: &Vec<u8>) -> (r: Vec<u8>)
    ensures
        r@ == spec_blake3(data@),
        r@.len() == 32,
{
    blake3::hash(data.as_slice()).as_bytes().to_vec()
}

/// The hub-domain message hash: the digest truncated to HASH_LENGTH
/// bytes.
pub open spec fn spec_truncated_hash(data: Seq<u8>) -> Seq<u8> {
    spec_blake3(data).take(HASH_LENGTH as int)
}

/// Hash a canonical message into the hub's truncated domain hash.
pub fn truncated_hash(data: &Vec<u8>) -> (r: Vec<u8>)
    ensures
        r@ == spec_truncated_hash(data@),
        r@.len() == HASH_LENGTH,
{
    let mut d = blake3_digest(data);
    d.truncate(HASH_LENGTH);
    proof {
        assert(d@ =~= spec_blake3(data@).take(HASH_LENGTH as int));
    }
    d
}

// ---------------------------------------------------------------------------
// Signature verification.
// ---------------------------------------------------------------------------

/// Whether 32 bytes encode a verifying key, named: acceptance depends on
/// the bytes alone.
pub uninterp spec fn spec_valid_pubkey(pk: Seq<u8>) -> bool;

/// Whether a signature verifies a message under a key, named: the
/// verdict depends on the three byte strings alone.
pub uninterp spec fn spec_sig_verifies(msg: Seq<u8>, sig: Seq<u8>, pk: Seq<u8>) -> bool;

/// Relies on ed25519-dalek: `Signature::from_slice` accepts every
/// 64-byte slice; `VerifyingKey::from_bytes` succeeds exactly on byte
/// strings that encode a curve point (named `spec_valid_pubkey`); and
/// `verify_strict` is a deterministic function of message, signature and
/// key (named `spec_sig_verifies`), with any verification failure read
/// as `false`.
#[verifier::external_body]
fn validate_signed_by(msg: &Vec<u8>, sig: &Vec<u8>, pub_key: &Vec<u8>) -> (r: Option<bool>)
    requires
        sig@.len() == SIGNATURE_LENGTH,
        pub_key@.len() == PUBLIC_KEY_LENGTH,
    ensures
        r is Some <==> spec_valid_pubkey(pub_key@),
        (r matches Some(b) ==> b == spec_sig_verifies(msg@, sig@, pub_key@)),
{
    let signature = match ed25519_dalek::Signature::from_slice(sig) {
        Ok(s) => s,
        Err(_) => return None,
    };
    let key_bytes: &[u8; 32] = match pub_key.as_slice().try_into() {
        Ok(k) => k,
        Err(_) => return None,
    };
    let verifying_key = match ed25519_dalek::VerifyingKey::from_bytes(key_bytes) {
        Ok(k) => k,
        Err(_) => return None,
    };
    Some(verifying_key.verify_strict(msg, &signature).is_ok())
}

// ---------------------------------------------------------------------------
// The request authentication pipeline.
// ---------------------------------------------------------------------------

/// The authentication headers of one request, as raw header bytes.
#[derive(Debug)]
pub struct AuthRequest {
    /// Hex-encoded public key.
    pub key_hex: Vec<u8>,
    /// Hex-encoded signature.
    pub sig: Vec<u8>,
    /// ASCII decimal unix seconds; its own bytes are what gets signed.
    pub timestamp: Vec<u8>,
    /// Optional hex-encoded extra bytes bound into the signed message.
    pub extra_sig_data_hex: Option<Vec<u8>>,
}

/// The decoded credentials of one request.
#[derive(Debug)]
pub struct AuthParsed {
    pub pub_key: Vec<u8>,
    pub sig: Vec<u8>,
    pub timestamp: u64,
    /// The canonical message the signature must cover.
    pub msg: Vec<u8>,
}

/// Internal status classes of the authentication pipeline.  The HTTP
/// boundary collapses all
/// of them into one client-visible code, so a caller cannot tell which
/// check failed.
#[derive(Debug, Clone, Copy, PartialEq, Eq, Structural)]
pub enum AuthStatus {
    BadRequest,
    Unauthorized,
    NotFound,
    Internal,
}

/// The decoded extra data of a request; empty when the header is absent.
pub open spec fn spec_extra_bytes(req: AuthRequest) -> Seq<u8> {
    match req.extra_sig_data_hex {
        Some(e) => spec_hex_decode(e@),
        None => Seq::empty(),
    }
}

/// Well-formed authentication headers: the signature and key decode to
/// their fixed lengths, the timestamp is a decimal in range, and the
/// extra data, if present, decodes.
pub open spec fn spec_headers_ok(req: AuthRequest) -> bool {
    &&& spec_is_hex(req.sig@)
    &&& spec_hex_decode(req.sig@).len() == SIGNATURE_LENGTH
    &&& spec_is_hex(req.key_hex@)
    &&& spec_hex_decode(req.key_hex@).len() == PUBLIC_KEY_LENGTH
    &&& spec_is_u64_decimal(req.timestamp@)
    &&& (req.extra_sig_data_hex matches Some(e) ==> spec_is_hex(e@))
}

/// The canonical message of a request: raw key bytes, timestamp bytes,
/// decoded extra data.
pub open spec fn spec_auth_message(req: AuthRequest) -> Seq<u8> {
    spec_hex_decode(req.key_hex@) + req.timestamp@ + spec_extra_bytes(req)
}

/// Decode and validate the authentication headers; any malformed or
/// missing piece rejects the request.
pub fn parse_auth_headers(req: &AuthRequest) -> (r: Option<AuthParsed>)
    ensures
        r is Some <==> spec_headers_ok(*req),
        (r matches Some(p) ==> {
            &&& p.pub_key@ == spec_hex_decode(req.key_hex@)
            &&& p.sig@ == spec_hex_decode(req.sig@)
            &&& p.timestamp == spec_dec_value(req.timestamp@)
            &&& p.msg@ == spec_auth_message(*req)
        }),
{
    let extra: Vec<u8> = match &req.extra_sig_data_hex {
        Some(e) => {
            match hex_decode(e) {
                Some(b) => b,
                None => {
                    return None;
                },
            }
        },
        None => Vec::new(),
    };
    let sig = match hex_decode(&req.sig) {
        Some(b) => b,
        None => {
            return None;
        },
    };
    if sig.len() != SIGNATURE_LENGTH {
        return None;
    }
    let pub_key = match hex_decode(&req.key_hex) {
        Some(b) => b,
        None => {
            return None;
        },
    };
    if pub_key.len() != PUBLIC_KEY_LENGTH {
        return None;
    }
    let timestamp = match parse_u64_decimal(&req.timestamp) {
        Some(v) => v,
        None => {
            return None;
        },
    };
    let msg = canonical_message(&pub_key, &req.timestamp, &extra);
    Some(AuthParsed { pub_key, sig, timestamp, msg })
}

/// When authentication grants a request: the signer under the presented key
/// exists, is active, the key parses as a verifying key, and the
/// signature verifies over the hub-domain hash of the canonical message.
pub open spec fn spec_auth_accepts(store: Store, msg_hash: Seq<u8>, sig: Seq<u8>, pk: Seq<u8>) -> bool {
    &&& store.signers_map().contains_key(pk)
    &&& store.signers_map()[pk].active
    &&& spec_valid_pubkey(pk)
    &&& spec_sig_verifies(msg_hash, sig, pk)
}

/// Validate that `pub_key` signed `msg_hash` and belongs to an active
/// signer; on success, hand back that signer and its profile read
/// (read-through: a miss directs the caller to fetch and store).
///
/// The status classes mirror the checks: an unknown key is not found, a
/// revoked signer or a failed verification is unauthorized, and a key
/// the verifier cannot parse is an internal error.
pub fn validate_fid_and_key(store: &Store, msg_hash: &Vec<u8>, sig: &Vec<u8>, pub_key: &Vec<u8>)
    -> (r: Result<(ReadThrough<Profile>, Signer), AuthStatus>)
    requires
        store.wf(),
        sig@.len() == SIGNATURE_LENGTH,
        pub_key@.len() == PUBLIC_KEY_LENGTH,
    ensures
        r is Ok <==> spec_auth_accepts(*store, msg_hash@, sig@, pub_key@),
        (r matches Ok((pr, s)) ==> {
            &&& s@ == store.signers_map()[pub_key@]
            &&& (store.has_user(s.fid) ==> (pr matches ReadThrough::Hit(p) && p == spec_profile_of(
                store.users_map()[s.fid],
            )))
            &&& (!store.has_user(s.fid) ==> pr is Fetch)
        }),
        !store.signers_map().contains_key(pub_key@) ==> r == Err::<(ReadThrough<Profile>, Signer), AuthStatus>(AuthStatus::NotFound),
        (store.signers_map().contains_key(pub_key@) && !store.signers_map()[pub_key@].active) ==> r
            == Err::<(ReadThrough<Profile>, Signer), AuthStatus>(AuthStatus::Unauthorized),
        (store.signers_map().contains_key(pub_key@) && store.signers_map()[pub_key@].active
            && !spec_valid_pubkey(pub_key@)) ==> r == Err::<(ReadThrough<Profile>, Signer), AuthStatus>(AuthStatus::Internal),
        (store.signers_map().contains_key(pub_key@) && store.signers_map()[pub_key@].active
            && spec_valid_pubkey(pub_key@) && !spec_sig_verifies(msg_hash@, sig@, pub_key@)) ==> r
            == Err::<(ReadThrough<Profile>, Signer), AuthStatus>(AuthStatus::Unauthorized),
{
    let signer = match store.get_signer(pub_key) {
        Some(s) => s,
        None => {
            return Err(AuthStatus::NotFound);
        },
    };
    if !signer.active {
        return Err(AuthStatus::Unauthorized);
    }
    let verification = match validate_signed_by(msg_hash, sig, pub_key) {
        Some(b) => b,
        None => {
            return Err(AuthStatus::Internal);
        },
    };
    let profile_read = get_user_profile(store, signer.fid, false);
    if !verification {
        return Err(AuthStatus::Unauthorized);
    }
    Ok((profile_read, signer))
}

/// The internal status a rejected request is classed under: malformed
/// headers are a bad request; an unknown key is not found; a revoked
/// signer or a failed verification is unauthorized; a key the verifier
/// cannot parse is an internal error.
pub open spec fn spec_auth_reject_status(store: Store, req: AuthRequest) -> AuthStatus {
    if !spec_headers_ok(req) {
        AuthStatus::BadRequest
    } else {
        let pk = spec_hex_decode(req.key_hex@);
        if !store.signers_map().contains_key(pk) {
            AuthStatus::NotFound
        } else if !store.signers_map()[pk].active {
            AuthStatus::Unauthorized
        } else if !spec_valid_pubkey(pk) {
            AuthStatus::Internal
        } else {
            AuthStatus::Unauthorized
        }
    }
}

/// The whole authentication pipeline for one request: decode the
/// headers, hash the canonical message, and validate signer and
/// signature against the store.  It accepts exactly when the headers are
/// well formed and [`spec_auth_accepts`] holds of the decoded
/// credentials; a rejection carries the status class of the first check
/// that failed.
pub fn authenticate(store: &Store, req: &AuthRequest) -> (r: Result<
    (ReadThrough<Profile>, Signer),
    AuthStatus,
>)
    requires
        store.wf(),
    ensures
        !spec_headers_ok(*req) ==> r == Err::<(ReadThrough<Profile>, Signer), AuthStatus>(AuthStatus::BadRequest),
        spec_headers_ok(*req) ==> (r is Ok <==> spec_auth_accepts(
            *store,
            spec_truncated_hash(spec_auth_message(*req)),
            spec_hex_decode(req.sig@),
            spec_hex_decode(req.key_hex@),
        )),
        (r matches Ok((pr, s)) ==> {
            &&& s@ == store.signers_map()[spec_hex_decode(req.key_hex@)]
            &&& (store.has_user(s.fid) ==> (pr matches ReadThrough::Hit(p) && p == spec_profile_of(
                store.users_map()[s.fid],
            )))
            &&& (!store.has_user(s.fid) ==> pr is Fetch)
        }),
        (r matches Err(status) ==> status == spec_auth_reject_status(*store, *req)),
{
    let parsed = match parse_auth_headers(req) {
        Some(p) => p,
        None => {
            return Err(AuthStatus::BadRequest);
        },
    };
    let msg_hash = truncated_hash(&parsed.msg);
    validate_fid_and_key(store, &msg_hash, &parsed.sig, &parsed.pub_key)
}

} // verus!

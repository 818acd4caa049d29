//! Canonical signing string and HMAC-SHA256 authentication of command
//! envelopes.
//!
//! The signing string is a newline-delimited `key=value` rendering of the
//! envelope with a fixed field order; parameters appear as canonical JSON.
//! Any sender and any verifier rebuild identical bytes, so signatures are
//! portable across producers. MAC comparison is constant time.

use vstd::prelude::*;

use hmac::{Hmac, KeyInit, Mac};
use subtle::ConstantTimeEq;

use crate::json::{canon_text, canonical_parameters_json, push_char, push_str, spec_hex_digit};
use crate::protocol::{
    spec_command_action_str, spec_safety_class_str, command_action_str, safety_class_str,
    CommandAuth, CommandEnvelope,
};

verus! {

pub open spec fn spec_dec_digit(d: int) -> char {
    if d == 0 { '0' } else if d == 1 { '1' } else if d == 2 { '2' } else if d == 3 { '3' }
    else if d == 4 { '4' } else if d == 5 { '5' } else if d == 6 { '6' } else if d == 7 { '7' }
    else if d == 8 { '8' } else { '9' }
}

pub fn dec_digit(d: u64) -> (c: char)
    requires
        d < 10,
    ensures
        c == spec_dec_digit(d as int),
{
    if d == 0 { '0' } else if d == 1 { '1' } else if d == 2 { '2' } else if d == 3 { '3' }
    else if d == 4 { '4' } else if d == 5 { '5' } else if d == 6 { '6' } else if d == 7 { '7' }
    else if d == 8 { '8' } else { '9' }
}

/// Decimal rendering of a natural number, most significant digit first.
pub open spec fn spec_dec(n: nat) -> Seq<char>
    decreases n,
{
    if n < 10 {
        seq![spec_dec_digit(n as int)]
    } else {
        spec_dec((n / 10) as nat).push(spec_dec_digit((n % 10) as int))
    }
}

pub fn u64_to_dec(n: u64) -> (r: String)
    ensures
        r@ == spec_dec(n as nat),
    decreases n,
{
    if n < 10 {
        let mut s = String::new();
        push_char(&mut s, dec_digit(n));
        proof {
            assert(s@ =~= spec_dec(n as nat));
        }
        s
    } else {
        let mut s = u64_to_dec(n / 10);
        push_char(&mut s, dec_digit(n % 10));
        s
    }
}

/// The low `digits` hex digits of a value, most significant first.
pub open spec fn spec_hex_n(v: u128, digits: nat) -> Seq<char>
    decreases digits,
{
    if digits == 0 {
        Seq::empty()
    } else {
        spec_hex_n(v / 16, (digits - 1) as nat).push(spec_hex_digit((v % 16) as int))
    }
}

pub proof fn lemma_spec_hex_n_len(v: u128, digits: nat)
    ensures
        spec_hex_n(v, digits).len() == digits,
    decreases digits,
{
    if digits > 0 {
        lemma_spec_hex_n_len(v / 16, (digits - 1) as nat);
    }
}

pub fn hex_n(v: u128, digits: u32) -> (r: String)
    ensures
        r@ == spec_hex_n(v, digits as nat),
    decreases digits,
{
    if digits == 0 {
        let s = String::new();
        proof {
            assert(s@ =~= spec_hex_n(v, 0));
        }
        s
    } else {
        let mut s = hex_n(v / 16, digits - 1);
        let d: u128 = v % 16;
        push_char(&mut s, crate::json::hex_digit(d as u32));
        s
    }
}

/// Hyphenated lowercase rendering of a 128-bit id, in the canonical
/// 8-4-4-4-12 grouping with the most significant digit first.
pub open spec fn spec_uuid_str(v: u128) -> Seq<char> {
    let h = spec_hex_n(v, 32);
    h.subrange(0, 8) + seq!['-'] + h.subrange(8, 12) + seq!['-'] + h.subrange(12, 16) + seq!['-']
        + h.subrange(16, 20) + seq!['-'] + h.subrange(20, 32)
}

pub fn uuid_hyphenated(v: u128) -> (r: String)
    ensures
        r@ == spec_uuid_str(v),
{
    let h = hex_n(v, 32);
    proof {
        lemma_spec_hex_n_len(v, 32);
    }
    let mut out = String::new();
    push_str(&mut out, h.as_str().substring_char(0, 8));
    push_char(&mut out, '-');
    push_str(&mut out, h.as_str().substring_char(8, 12));
    push_char(&mut out, '-');
    push_str(&mut out, h.as_str().substring_char(12, 16));
    push_char(&mut out, '-');
    push_str(&mut out, h.as_str().substring_char(16, 20));
    push_char(&mut out, '-');
    push_str(&mut out, h.as_str().substring_char(20, 32));
    proof {
        assert(out@ =~= spec_uuid_str(v));
    }
    out
}

/// The HMAC-SHA256 tag of a message under a key. The tag is a function of
/// the key bytes and the message characters alone.
pub uninterp spec fn hmac_sha256_of(key: Seq<u8>, msg: Seq<char>) -> Seq<u8>;

/// Relies on the hmac crate's `Hmac<Sha256>`: the 32-byte MAC over the
/// UTF-8 bytes of `msg`, a deterministic function of key and message.
/// `new_from_slice` accepts keys of any length for an eager hash.
#[verifier::external_body]
pub fn hmac_sha256(key: &[u8], msg: &str) -> (r: Vec<u8>)
    ensures
        r@ == hmac_sha256_of(key@, msg@),
        r@.len() == 32,
{
    let mut mac = <Hmac<sha2::Sha256> as KeyInit>::new_from_slice(key)
        .expect("HMAC accepts keys of any length");
    mac.update(msg.as_bytes());
    let out = mac.finalize().into_bytes();
    out.to_vec()
}

/// Lowercase hex rendering of a byte string, two digits per byte.
pub open spec fn spec_hex_lower(b: Seq<u8>) -> Seq<char>
    decreases b.len(),
{
    if b.len() == 0 {
        Seq::empty()
    } else {
        seq![
            spec_hex_digit((b[0] as int) / 16),
            spec_hex_digit((b[0] as int) % 16),
        ] + spec_hex_lower(b.drop_first())
    }
}

/// Relies on `hex::encode`: two lowercase hex digits per input byte, in
/// input order.
#[verifier::external_body]
pub fn hex_lower(b: &[u8]) -> (r: String)
    ensures
        r@ == spec_hex_lower(b@),
{
    hex::encode(b)
}

/// Relies on subtle's `ConstantTimeEq` for byte slices: true exactly when
/// the UTF-8 bytes agree, which for strings means the characters agree;
/// the comparison takes constant time in the string length.
#[verifier::external_body]
pub fn constant_time_eq_str(a: &str, b: &str) -> (r: bool)
    ensures
        r == (a@ == b@),
{
    a.as_bytes().ct_eq(b.as_bytes()).into()
}

/// Hex form of the HMAC-SHA256 tag of a message under a key.
pub open spec fn spec_hmac_hex(key: Seq<u8>, msg: Seq<char>) -> Seq<char> {
    spec_hex_lower(hmac_sha256_of(key, msg))
}

pub fn hmac_sha256_hex(key: &[u8], msg: &str) -> (r: String)
    ensures
        r@ == spec_hmac_hex(key@, msg@),
{
    let mac = hmac_sha256(key, msg);
    hex_lower(mac.as_slice())
}

/// Canonical signing string of an envelope: newline-delimited `key=value`
/// fields in fixed order, parameters as canonical JSON. The authentication
/// block itself is not part of the signed text.
pub open spec fn spec_signing_string(cmd: CommandEnvelope) -> Seq<char> {
    "schema="@ + cmd.schema@ + "\nroom_id="@ + cmd.room_id@ + "\ndevice_id="@ + cmd.device_id@
        + "\ncommand_id="@ + spec_uuid_str(cmd.command_id) + "\ncorrelation_id="@ + spec_uuid_str(
        cmd.correlation_id,
    ) + "\nsequence="@ + spec_dec(cmd.sequence as nat) + "\nissued_at_unix_ms="@ + spec_dec(
        cmd.issued_at_unix_ms as nat,
    ) + "\naction="@ + spec_command_action_str(cmd.action) + "\nsafety_class="@
        + spec_safety_class_str(cmd.safety_class) + "\nparameters="@ + canon_text(cmd.parameters)
}

pub fn signing_string(cmd: &CommandEnvelope) -> (r: String)
    ensures
        r@ == spec_signing_string(*cmd),
{
    let mut s = String::new();
    push_str(&mut s, "schema=");
    push_str(&mut s, cmd.schema.as_str());
    push_str(&mut s, "\nroom_id=");
    push_str(&mut s, cmd.room_id.as_str());
    push_str(&mut s, "\ndevice_id=");
    push_str(&mut s, cmd.device_id.as_str());
    push_str(&mut s, "\ncommand_id=");
    let cid = uuid_hyphenated(cmd.command_id);
    push_str(&mut s, cid.as_str());
    push_str(&mut s, "\ncorrelation_id=");
    let rid = uuid_hyphenated(cmd.correlation_id);
    push_str(&mut s, rid.as_str());
    push_str(&mut s, "\nsequence=");
    let seq_s = u64_to_dec(cmd.sequence);
    push_str(&mut s, seq_s.as_str());
    push_str(&mut s, "\nissued_at_unix_ms=");
    let at_s = u64_to_dec(cmd.issued_at_unix_ms);
    push_str(&mut s, at_s.as_str());
    push_str(&mut s, "\naction=");
    push_str(&mut s, command_action_str(cmd.action));
    push_str(&mut s, "\nsafety_class=");
    push_str(&mut s, safety_class_str(cmd.safety_class));
    push_str(&mut s, "\nparameters=");
    let params = canonical_parameters_json(&cmd.parameters);
    push_str(&mut s, params.as_str());
    proof {
        assert(s@ =~= spec_signing_string(*cmd));
    }
    s
}

/// Whether an envelope carries a valid HMAC-SHA256 authentication block
/// for the given key.
pub open spec fn spec_mac_valid(cmd: CommandEnvelope, key: Seq<u8>) -> bool {
    match cmd.auth {
        Some(a) => a.alg@ == "HMAC-SHA256"@ && a.mac_hex@ == spec_hmac_hex(
            key,
            spec_signing_string(cmd),
        ),
        None => false,
    }
}

/// All envelope fields other than the authentication block.
pub open spec fn spec_core_fields_eq(a: CommandEnvelope, b: CommandEnvelope) -> bool {
    &&& a.schema == b.schema
    &&& a.room_id == b.room_id
    &&& a.device_id == b.device_id
    &&& a.command_id == b.command_id
    &&& a.correlation_id == b.correlation_id
    &&& a.sequence == b.sequence
    &&& a.issued_at_unix_ms == b.issued_at_unix_ms
    &&& a.action == b.action
    &&& a.parameters == b.parameters
    &&& a.safety_class == b.safety_class
}

/// The signing string does not read the authentication block.
pub proof fn lemma_signing_string_ignores_auth(a: CommandEnvelope, b: CommandEnvelope)
    requires
        spec_core_fields_eq(a, b),
    ensures
        spec_signing_string(a) == spec_signing_string(b),
{
}

/// Sign an envelope in place: the authentication block is replaced with an
/// HMAC-SHA256 MAC over the canonical signing string. Every other field is
/// left as it was.
pub fn sign_command_hmac_sha256(cmd: &mut CommandEnvelope, key: &[u8], kid: Option<String>)
    ensures
        spec_core_fields_eq(*final(cmd), *old(cmd)),
        spec_mac_valid(*final(cmd), key@),
        final(cmd).auth matches Some(a) && a.kid == kid,
{
    let s = signing_string(cmd);
    let mac_hex = hmac_sha256_hex(key, s.as_str());
    cmd.auth = Some(CommandAuth { alg: "HMAC-SHA256".to_owned(), kid, mac_hex });
    proof {
        lemma_signing_string_ignores_auth(*cmd, *old(cmd));
    }
}

/// Check an envelope's authentication block against a key, rebuilding the
/// canonical signing string. False on a missing block, an unknown
/// algorithm, or a MAC mismatch; the hex MAC comparison is constant time.
pub fn verify_command_hmac_sha256(cmd: &CommandEnvelope, key: &[u8]) -> (r: bool)
    ensures
        r == spec_mac_valid(*cmd, key@),
{
    match &cmd.auth {
        None => false,
        Some(auth) => {
            let expected_alg = "HMAC-SHA256".to_owned();
            if !(auth.alg == expected_alg) {
                return false;
            }
            let s = signing_string(cmd);
            let expected = hmac_sha256_hex(key, s.as_str());
            constant_time_eq_str(expected.as_str(), auth.mac_hex.as_str())
        }
    }
}

/// Signing an envelope and then verifying it with the same key succeeds:
/// the verifier rebuilds the same canonical signing string, so the MAC it
/// computes is the MAC the signer stored.
pub proof fn lemma_sign_then_verify(unsigned: CommandEnvelope, signed: CommandEnvelope, key: Seq<u8>)
    requires
        spec_core_fields_eq(signed, unsigned),
        signed.auth matches Some(a) && a.alg@ == "HMAC-SHA256"@ && a.mac_hex@ == spec_hmac_hex(
            key,
            spec_signing_string(unsigned),
        ),
    ensures
        spec_mac_valid(signed, key),
{
    lemma_signing_string_ignores_auth(signed, unsigned);
}

} // verus!

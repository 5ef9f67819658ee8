//! Fresh version generation.
//!
//! A new version is derived from wall-clock time and a machine identifier: a
//! version-1 UUID is built over the machine's hardware address (or six random
//! bytes when none can be determined, so generation never fails), its high
//! timestamp segment and most of its node identifier are cut out, and the ten
//! remaining bytes are base32-encoded without padding. The sixteen resulting
//! symbols lowercase to alphanumerics, so a generated version always passes
//! fragment validation — proved here, not just expected. Only the drawing of
//! the UUID depends on time and the machine; everything after the draw is
//! `version_from_uuid`, a verified function of the drawn bytes alone.

use rand::Rng;
use vstd::prelude::*;
use vstd::string::*;

use crate::validate::{fragment_ok, is_tag_alnum, lower_seq, to_lowercase_string, valid_tag_seq};

verus! {

/// What `data_encoding::BASE32_NOPAD.encode` returns on the given bytes: a
/// fixed function of them, named rather than spelled out.
pub uninterp spec fn base32_of(bytes: Seq<u8>) -> Seq<char>;

/// A symbol of the unpadded base32 alphabet: `A`-`Z` or `2`-`7`.
pub open spec fn is_base32_symbol(c: char) -> bool {
    (65 <= c as int && c as int <= 90) || (50 <= c as int && c as int <= 55)
}

/// A lowercased base32 symbol: `a`-`z` or `2`-`7`.
pub open spec fn is_lower_base32(c: char) -> bool {
    (97 <= c as int && c as int <= 122) || (50 <= c as int && c as int <= 55)
}

/// Relies on `mac_address::get_mac_address`: the hardware address of a
/// network interface, when one can be determined; nothing is assumed of its
/// bytes.
#[verifier::external_body]
fn mac_node_bytes() -> (r: Option<[u8; 6]>) {
    match mac_address::get_mac_address() {
        Ok(Some(addr)) => Some(addr.bytes()),
        Ok(None) => None,
        Err(e) => None,
    }
}

/// Relies on `rand::thread_rng` and `Rng::gen`: six random bytes; nothing
/// is assumed of their values.
#[verifier::external_body]
fn random_node_bytes() -> (r: [u8; 6]) {
    rand::thread_rng().gen()
}

/// Relies on `uuid::Uuid::now_v1`: a version-1 UUID from the current
/// wall-clock time and the given node identifier; nothing is assumed of its
/// bytes.
#[verifier::external_body]
fn uuid_v1_bytes(node: &[u8; 6]) -> (r: [u8; 16]) {
    uuid::Uuid::now_v1(node).into_bytes()
}

/// Relies on `data_encoding::BASE32_NOPAD.encode`: RFC 4648 base32 without
/// padding — a fixed function of the input bytes (`base32_of`), of length
/// `ceil(8n / 5)`, every symbol from `A`-`Z` or `2`-`7`.
#[verifier::external_body]
fn base32_nopad_encode(bytes: &Vec<u8>) -> (r: String)
    requires
        bytes@.len() <= 1024,
    ensures
        r@ == base32_of(bytes@),
        r@.len() == (bytes@.len() * 8 + 4) / 5,
        forall|i: int| 0 <= i < r@.len() ==> is_base32_symbol(#[trigger] r@[i]),
{
    data_encoding::BASE32_NOPAD.encode(bytes.as_slice())
}

/// The version fragment a version-source UUID yields: its bytes 0-6 and
/// 8-12 are kept (the high timestamp segment and most of the node
/// identifier are cut out), base32-encoded without padding, and lowercased.
pub fn version_from_uuid(id: &[u8; 16]) -> (r: String)
    ensures
        r@ == lower_seq(base32_of(id@.subrange(0, 6) + id@.subrange(8, 12))),
        r@.len() == 16,
        forall|i: int| 0 <= i < r@.len() ==> is_lower_base32(#[trigger] r@[i]),
        fragment_ok(r@),
{
    let mut trunc: Vec<u8> = Vec::new();
    let mut i: usize = 0;
    while i < 6
        invariant
            i <= 6,
            trunc@.len() == i as int,
            forall|k: int| 0 <= k < i ==> trunc@[k] == id@[k],
        decreases 6 - i,
    {
        trunc.push(id[i]);
        i += 1;
    }
    let mut j: usize = 8;
    while j < 12
        invariant
            8 <= j <= 12,
            trunc@.len() == 6 + (j - 8),
            forall|k: int| 0 <= k < 6 ==> trunc@[k] == id@[k],
            forall|k: int| 6 <= k < trunc@.len() ==> trunc@[k] == id@[k + 2],
        decreases 12 - j,
    {
        trunc.push(id[j]);
        j += 1;
    }
    proof {
        assert(trunc@ =~= id@.subrange(0, 6) + id@.subrange(8, 12));
    }
    let enc = base32_nopad_encode(&trunc);
    let lower = to_lowercase_string(enc.as_str());
    proof {
        assert(enc@.len() == 16);
        assert(lower@.len() == 16);
        assert forall|k: int| 0 <= k < lower@.len() implies is_lower_base32(
            #[trigger] lower@[k],
        ) by {
            let c = enc@[k];
            assert(is_base32_symbol(c));
            assert(lower@[k] == lower_seq(enc@)[k]);
            if 65 <= c as int && c as int <= 90 {
                assert(97 <= lower@[k] as int && lower@[k] as int <= 122);
            } else {
                assert(lower@[k] == c);
            }
        }
        assert forall|k: int| 0 <= k < lower@.len() implies is_tag_alnum(#[trigger] lower@[k]) by {
            assert(is_lower_base32(lower@[k]));
        }
        assert(valid_tag_seq(lower@));
    }
    lower
}

/// A freshly generated version fragment: the UUID draw is the only step
/// that depends on time or the machine; whatever comes back, the result is
/// sixteen lowercased base32 symbols and a valid fragment.
pub fn fresh_version() -> (r: String)
    ensures
        r@.len() == 16,
        forall|i: int| 0 <= i < r@.len() ==> is_lower_base32(#[trigger] r@[i]),
        fragment_ok(r@),
{
    let node = match mac_node_bytes() {
        Some(b) => b,
        None => random_node_bytes(),
    };
    let id = uuid_v1_bytes(&node);
    version_from_uuid(&id)
}

} // verus!

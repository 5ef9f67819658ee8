//! Compact byte encoding of a tag, for persistence and transport.
//!
//! Layout: one length byte, the name's ASCII bytes, then a version marker —
//! `0` for no version, or `1` followed by a length byte and the version's
//! ASCII bytes. Both fragments are at most 63 characters and pure ASCII by
//! the tag invariant, so one byte per character and per length suffices.
//! Decoding re-validates both fragments and rejects truncated input, a bad
//! marker, and trailing bytes; the round trip is exact.

use std::collections::hash_map::DefaultHasher;
use std::hash::Hasher;
use vstd::prelude::*;
use vstd::std_specs::hash::DefaultHasherAdditionalSpecFns;
use vstd::string::*;

use crate::errors::DecodeError;
use crate::tag::{lemma_tag_view, Tag, TagView};
use crate::validate::{fragment_ok, is_tag_char, string_from_chars, valid_tag_seq,
    validate_tag_str};

verus! {

/// One byte per character of a fragment; sound because valid fragments are
/// ASCII.
pub open spec fn frag_bytes(s: Seq<char>) -> Seq<u8> {
    Seq::new(s.len(), |i: int| s[i] as u8)
}

/// The characters spelled by a run of fragment bytes.
pub open spec fn bytes_chars(b: Seq<u8>) -> Seq<char> {
    Seq::new(b.len(), |i: int| b[i] as char)
}

/// The encoded form of a tag.
pub open spec fn encode_spec(v: TagView) -> Seq<u8> {
    seq![v.name.len() as u8] + frag_bytes(v.name) + match v.version {
        None => seq![0u8],
        Some(ver) => seq![1u8, ver.len() as u8] + frag_bytes(ver),
    }
}

/// What decoding returns: the unique well-formed tag the bytes spell, or
/// the first defect found.
pub open spec fn decode_spec(b: Seq<u8>) -> Result<TagView, DecodeError> {
    if b.len() < 2 {
        Err(DecodeError::Truncated)
    } else {
        let n = b[0] as int;
        if b.len() < n + 2 {
            Err(DecodeError::Truncated)
        } else {
            let name = bytes_chars(b.subrange(1, n + 1));
            if !fragment_ok(name) {
                Err(DecodeError::InvalidFragment)
            } else if b[n + 1] == 0 {
                if b.len() == n + 2 {
                    Ok(TagView { name, version: None })
                } else {
                    Err(DecodeError::TrailingBytes)
                }
            } else if b[n + 1] == 1 {
                if b.len() < n + 3 {
                    Err(DecodeError::Truncated)
                } else {
                    let m = b[n + 2] as int;
                    if b.len() < n + m + 3 {
                        Err(DecodeError::Truncated)
                    } else {
                        let ver = bytes_chars(b.subrange(n + 3, n + m + 3));
                        if !fragment_ok(ver) {
                            Err(DecodeError::InvalidFragment)
                        } else if b.len() == n + m + 3 {
                            Ok(TagView { name, version: Some(ver) })
                        } else {
                            Err(DecodeError::TrailingBytes)
                        }
                    }
                }
            } else {
                Err(DecodeError::BadVersionMarker)
            }
        }
    }
}

/// The stable hash of a tag: the default hasher run over the encoded bytes.
/// Equal tags hash identically because the encoding is a function of the
/// view.
pub open spec fn hash_spec(v: TagView) -> u64 {
    DefaultHasher::spec_finish(seq![encode_spec(v)])
}

fn push_frag_bytes(out: &mut Vec<u8>, s: &str)
    requires
        valid_tag_seq(s@),
    ensures
        final(out)@ == old(out)@ + frag_bytes(s@),
{
    let len = s.unicode_len();
    let mut i: usize = 0;
    while i < len
        invariant
            i <= len,
            len == s@.len(),
            valid_tag_seq(s@),
            out@.len() == old(out)@.len() + i,
            out@ == old(out)@ + frag_bytes(s@).take(i as int),
        decreases len - i,
    {
        let c = s.get_char(i);
        proof {
            assert(is_tag_char(s@[i as int]));
        }
        out.push(c as u8);
        proof {
            assert(out@ =~= old(out)@ + frag_bytes(s@).take(i + 1));
        }
        i += 1;
    }
    proof {
        assert(frag_bytes(s@).take(len as int) =~= frag_bytes(s@));
    }
}

impl Tag {
    /// Encodes the tag into its compact byte form.
    pub fn serialize(&self) -> (r: Vec<u8>)
        requires
            self@.wf(),
        ensures
            r@ == encode_spec(self@),
    {
        proof {
            lemma_tag_view(self);
        }
        let mut out: Vec<u8> = Vec::new();
        let nlen = self.name.as_str().unicode_len();
        proof {
            assert(nlen <= 63);
        }
        out.push(nlen as u8);
        push_frag_bytes(&mut out, self.name.as_str());
        match &self.version {
            None => {
                out.push(0u8);
            },
            Some(v) => {
                out.push(1u8);
                let vlen = v.as_str().unicode_len();
                out.push(vlen as u8);
                push_frag_bytes(&mut out, v.as_str());
            },
        }
        proof {
            assert(out@ =~= encode_spec(self@));
        }
        out
    }

    /// Decodes a tag from its compact byte form, re-validating both
    /// fragments; truncated or corrupt input is rejected with the matching
    /// `DecodeError`, never a panic.
    pub fn deserialize(bytes: &[u8]) -> (r: Result<Tag, DecodeError>)
        ensures
            match r {
                Ok(t) => decode_spec(bytes@) == Ok::<TagView, DecodeError>(t@) && t@.wf(),
                Err(e) => decode_spec(bytes@) == Err::<TagView, DecodeError>(e),
            },
    {
        let total = bytes.len();
        if total < 2 {
            return Err(DecodeError::Truncated);
        }
        let n = bytes[0] as usize;
        if total < n + 2 {
            return Err(DecodeError::Truncated);
        }
        let name = read_frag(bytes, 1, n);
        proof {
            assert(name@ =~= bytes_chars(bytes@.subrange(1, n + 1)));
        }
        if let Err(u) = validate_tag_str(name.as_str()) {
            return Err(DecodeError::InvalidFragment);
        }
        let marker = bytes[n + 1];
        if marker == 0 {
            if total == n + 2 {
                let t = Tag { name, version: None };
                proof {
                    lemma_tag_view(&t);
                    assert(decode_spec(bytes@) == Ok::<TagView, DecodeError>(t@));
                }
                Ok(t)
            } else {
                Err(DecodeError::TrailingBytes)
            }
        } else if marker == 1 {
            if total < n + 3 {
                return Err(DecodeError::Truncated);
            }
            let m = bytes[n + 2] as usize;
            if total < n + m + 3 {
                return Err(DecodeError::Truncated);
            }
            let ver = read_frag(bytes, n + 3, m);
            proof {
                assert(ver@ =~= bytes_chars(bytes@.subrange(n + 3, n + m + 3)));
            }
            if let Err(u) = validate_tag_str(ver.as_str()) {
                return Err(DecodeError::InvalidFragment);
            }
            if total == n + m + 3 {
                let t = Tag { name, version: Some(ver) };
                proof {
                    lemma_tag_view(&t);
                    assert(decode_spec(bytes@) == Ok::<TagView, DecodeError>(t@));
                }
                Ok(t)
            } else {
                Err(DecodeError::TrailingBytes)
            }
        } else {
            Err(DecodeError::BadVersionMarker)
        }
    }

    /// Stable hash over the `(name, version)` pair, consistent with
    /// equality.
    pub fn hash_value(&self) -> (h: u64)
        requires
            self@.wf(),
        ensures
            h == hash_spec(self@),
    {
        let bytes = self.serialize();
        let mut hasher = DefaultHasher::new();
        hasher.write(bytes.as_slice());
        let h = hasher.finish();
        proof {
            assert(hasher@ =~= seq![encode_spec(self@)]);
        }
        h
    }
}

/// Reads `count` bytes at `start` back into a string.
fn read_frag(bytes: &[u8], start: usize, count: usize) -> (r: String)
    requires
        start + count <= bytes@.len(),
    ensures
        r@ == bytes_chars(bytes@.subrange(start as int, (start + count) as int)),
{
    let total = bytes.len();
    let mut chars: Vec<char> = Vec::new();
    let mut i: usize = 0;
    while i < count
        invariant
            i <= count,
            total == bytes@.len(),
            start + count <= bytes@.len(),
            chars@.len() == i as int,
            forall|j: int| 0 <= j < i ==> chars@[j] == (bytes@[start + j] as char),
        decreases count - i,
    {
        let b = bytes[start + i];
        chars.push(b as char);
        i += 1;
    }
    let r = string_from_chars(&chars);
    proof {
        assert(r@ =~= bytes_chars(bytes@.subrange(start as int, (start + count) as int)));
    }
    r
}

/// Encoding then decoding reproduces every well-formed tag exactly.
pub proof fn law_serialize_round_trip(v: TagView)
    requires
        v.wf(),
    ensures
        decode_spec(encode_spec(v)) == Ok::<TagView, DecodeError>(v),
{
    let b = encode_spec(v);
    let n = v.name.len() as int;
    assert(b[0] == n as u8);
    assert(b.subrange(1, n + 1) =~= frag_bytes(v.name));
    lemma_frag_chars_round_trip(v.name);
    assert(bytes_chars(frag_bytes(v.name)) =~= v.name);
    match v.version {
        None => {
            assert(b[n + 1] == 0u8);
            assert(b.len() == n + 2);
            assert(decode_spec(b) == Ok::<TagView, DecodeError>(
                TagView { name: v.name, version: None },
            ));
            assert(TagView { name: v.name, version: None } =~= v);
        },
        Some(ver) => {
            let m = ver.len() as int;
            assert(b[n + 1] == 1u8);
            assert(b[n + 2] == m as u8);
            assert(b.len() == n + m + 3);
            assert(b.subrange(n + 3, n + m + 3) =~= frag_bytes(ver));
            lemma_frag_chars_round_trip(ver);
            assert(bytes_chars(frag_bytes(ver)) =~= ver);
            assert(TagView { name: v.name, version: Some(ver) } =~= v);
        },
    }
}

/// Valid fragments are ASCII, so the byte projection loses nothing.
proof fn lemma_frag_chars_round_trip(s: Seq<char>)
    requires
        valid_tag_seq(s),
    ensures
        bytes_chars(frag_bytes(s)) == s,
{
    assert forall|i: int| 0 <= i < s.len() implies bytes_chars(frag_bytes(s))[i] == s[i] by {
        let c = s[i];
        assert(is_tag_char(c));
        assert(c as u32 <= 122);
        assert((c as u8) as char == c);
        assert(frag_bytes(s)[i] == c as u8);
        assert(bytes_chars(frag_bytes(s))[i] == (c as u8) as char);
    }
    assert(bytes_chars(frag_bytes(s)) =~= s);
}

/// Tags with equal views hash identically: the hash is a function of the
/// encoded view alone.
pub proof fn law_hash_consistent_with_eq(a: TagView, b: TagView)
    requires
        a == b,
    ensures
        hash_spec(a) == hash_spec(b),
{
}

} // verus!

//! Hash identifiers of stored objects.

use vstd::prelude::*;

verus! {

/// The lowercase hexadecimal digit for a value below 16.
pub open spec fn hex_digit(n: int) -> char {
    seq!['0', '1', '2', '3', '4', '5', '6', '7', '8', '9', 'a', 'b', 'c', 'd', 'e', 'f'][n]
}

/// Two lowercase hexadecimal digits for each byte, high nibble first.
pub open spec fn hex_of(b: Seq<u8>) -> Seq<char> {
    Seq::new(
        2 * b.len(),
        |i: int|
            if i % 2 == 0 {
                hex_digit(b[i / 2] as int / 16)
            } else {
                hex_digit(b[i / 2] as int % 16)
            },
    )
}

/// A character that `hex_of` can produce.
pub open spec fn is_hex_char(c: char) -> bool {
    ('0' <= c && c <= '9') || ('a' <= c && c <= 'f')
}

/// The text of a hash identifier: 64 lowercase hexadecimal digits.
pub open spec fn is_hash_text(s: Seq<char>) -> bool {
    s.len() == 64 && forall|i: int| 0 <= i < s.len() ==> is_hex_char(#[trigger] s[i])
}

/// The SHA3-256 digest of a byte sequence.
pub uninterp spec fn sha3_256_of(data: Seq<u8>) -> Seq<u8>;

/// The identifier of a byte stream: the hexadecimal text of its SHA3-256 digest.
pub open spec fn hash_id_of(data: Seq<u8>) -> Seq<char> {
    hex_of(sha3_256_of(data))
}

/// Relies on `hex::encode`: each byte becomes two lowercase hexadecimal
/// digits, high nibble first.
#[verifier::external_body]
pub(crate) fn hex_encode(b: &[u8]) -> (r: String)
    ensures
        r@ == hex_of(b@),
{
    hex::encode(b)
}

/// Relies on `sha3::Sha3_256::digest` (through `digest::Digest`): the
/// 32-byte SHA3-256 digest of `data`.
#[verifier::external_body]
fn sha3_256(data: &[u8]) -> (r: Vec<u8>)
    ensures
        r@ == sha3_256_of(data@),
        r@.len() == 32,
{
    <sha3::Sha3_256 as sha3::Digest>::digest(data).to_vec()
}

/// The SHA3-256 identifier of an object: 64 lowercase hexadecimal digits.
#[derive(Debug, Eq, PartialOrd, Ord, Hash)]
pub struct HashID(String);

impl Clone for HashID {
    fn clone(&self) -> (r: HashID)
        ensures
            r == *self,
    {
        proof {
            use_type_invariant(self);
        }
        HashID(self.0.clone())
    }
}

impl PartialEq for HashID {
    fn eq(&self, o: &HashID) -> (r: bool) {
        self.0 == o.0
    }
}

impl vstd::std_specs::cmp::PartialEqSpecImpl for HashID {
    open spec fn obeys_eq_spec() -> bool {
        true
    }

    open spec fn eq_spec(&self, o: &HashID) -> bool {
        self@ == o@
    }
}

impl View for HashID {
    type V = Seq<char>;

    closed spec fn view(&self) -> Seq<char> {
        self.0@
    }
}

proof fn lemma_hex_of_is_hash_text(b: Seq<u8>)
    requires
        b.len() == 32,
    ensures
        is_hash_text(hex_of(b)),
{
    assert forall|i: int| 0 <= i < hex_of(b).len() implies is_hex_char(#[trigger] hex_of(b)[i]) by {
        let v = b[i / 2] as int;
        assert(0 <= v / 16 < 16 && 0 <= v % 16 < 16);
    }
}

impl HashID {
    #[verifier::type_invariant]
    spec fn inv(&self) -> bool {
        is_hash_text(self.0@)
    }

    /// Takes a text as an identifier when it is 64 lowercase hexadecimal digits.
    pub fn from_hex(s: String) -> (r: Option<HashID>)
        ensures
            r is Some <==> is_hash_text(s@),
            r matches Some(id) ==> id@ == s@,
    {
        let n = s.unicode_len();
        if n != 64 {
            return None;
        }
        let mut i: usize = 0;
        while i < n
            invariant
                n == s@.len(),
                i <= n,
                forall|j: int| 0 <= j < i ==> is_hex_char(#[trigger] s@[j]),
            decreases n - i,
        {
            let c = s.get_char(i);
            if !(('0' <= c && c <= '9') || ('a' <= c && c <= 'f')) {
                return None;
            }
            i = i + 1;
        }
        Some(HashID(s))
    }

    /// The identifier of a byte sequence.
    pub fn of_bytes(data: &[u8]) -> (r: HashID)
        ensures
            r@ == hash_id_of(data@),
    {
        let digest = sha3_256(data);
        let text = hex_encode(digest.as_slice());
        proof {
            lemma_hex_of_is_hash_text(digest@);
        }
        HashID(text)
    }

    /// The identifier split 4-4-56 characters, as the object store lays out
    /// its directories.
    pub fn parts(&self) -> (r: (&str, &str, &str))
        ensures
            r.0@ == self@.subrange(0, 4),
            r.1@ == self@.subrange(4, 8),
            r.2@ == self@.subrange(8, 64),
            r.0@ + r.1@ + r.2@ == self@,
    {
        proof {
            use_type_invariant(self);
        }
        let s = self.0.as_str();
        let r = (s.substring_char(0, 4), s.substring_char(4, 8), s.substring_char(8, 64));
        assert(r.0@ + r.1@ + r.2@ =~= self@);
        r
    }

    /// The hexadecimal text: always 64 lowercase hexadecimal digits.
    pub fn as_str(&self) -> (r: &str)
        ensures
            r@ == self@,
            is_hash_text(r@),
    {
        proof {
            use_type_invariant(self);
        }
        self.0.as_str()
    }
}

} // verus!

use vstd::prelude::*;
use vstd::utf8::encode_utf8;

verus! {

/// A UTF-8 string that is encoded on the wire as a length-prefixed byte string.
#[derive(Debug, Clone, PartialEq, Eq, Hash, PartialOrd, Ord)]
pub struct TlsString(pub String);

/// A borrowed string that is encoded on the wire as a length-prefixed byte string.
#[derive(Debug, Clone, PartialEq, Eq, Hash)]
pub struct TlsStr<'a>(pub &'a str);

impl TlsString {
    /// Builds a string from a string slice.
    pub fn new(s: &str) -> (r: TlsString)
        ensures
            r.0@ == s@,
    {
        TlsString(s.to_owned())
    }

    /// Whether the string equals `s`.
    pub fn equals(&self, s: &str) -> (b: bool)
        ensures
            b == (self.0@ == s@),
    {
        let other = s.to_owned();
        self.0 == other
    }

    /// Whether the string is empty.
    pub fn is_empty(&self) -> (b: bool)
        ensures
            b == (self.0@.len() == 0),
    {
        self.0.as_str().unicode_len() == 0
    }

    /// The length of the string in bytes.
    pub fn byte_len(&self) -> (n: usize)
        ensures
            n == byte_len(self.0@),
    {
        self.0.as_str().len()
    }
}

/// The length in bytes of the UTF-8 encoding of `s`.
pub open spec fn byte_len(s: Seq<char>) -> usize {
    encode_utf8(s).len() as usize
}

/// Wire encoding of a boolean: a single byte, 1 for true and 0 for false.
pub open spec fn bool_byte(v: bool) -> u8 {
    if v { 1 } else { 0 }
}

/// Appends the one-byte encoding of `v` to `writer`; returns the number of
/// bytes written.
pub fn tls_serialize(v: &bool, writer: &mut Vec<u8>) -> (n: usize)
    ensures
        final(writer)@ == old(writer)@.push(bool_byte(*v)),
        n == 1,
{
    writer.push(if *v { 1u8 } else { 0u8 });
    1
}

/// Reads a boolean from the front of `bytes`: any non-zero byte is true.
/// Returns the value and the bytes after it, or `None` on empty input.
pub fn tls_deserialize_bytes(bytes: &[u8]) -> (r: Option<(bool, &[u8])>)
    ensures
        bytes@.len() == 0 <==> r is None,
        r matches Some((v, rest)) ==> v == (bytes@[0] != 0) && rest@ == bytes@.drop_first(),
{
    if bytes.len() == 0 {
        None
    } else {
        let (head, rest) = bytes.split_at(1);
        let v = head[0] != 0;
        proof {
            assert(rest@ =~= bytes@.drop_first());
        }
        Some((v, rest))
    }
}

/// Length of the wire encoding of a boolean.
pub fn tls_serialized_len(v: &bool) -> (n: usize)
    ensures
        n == 1,
{
    1
}

/// Decoding a boolean gives back the value that was encoded, followed by
/// whatever came after it.
pub proof fn lemma_bool_round_trip(v: bool, rest: Seq<u8>)
    ensures
        (bool_byte(v) != 0) == v,
        (seq![bool_byte(v)] + rest).drop_first() =~= rest,
{
}

} // verus!

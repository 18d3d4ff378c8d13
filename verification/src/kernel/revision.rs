//! Tokens by which a store tells one state of a thread from another.
use vstd::prelude::*;

verus! {

/// An opaque compare-and-commit token supplied by a persistence backend.
#[derive(Debug, PartialEq, Eq, Hash)]
pub struct RevisionToken(Vec<u8>);

impl View for RevisionToken {
    type V = Seq<u8>;

    closed spec fn view(&self) -> Seq<u8> {
        self.0@
    }
}

impl Clone for RevisionToken {
    fn clone(&self) -> (r: Self)
        ensures
            r@ == self@,
    {
        RevisionToken(self.0.clone())
    }
}

/// The eight bytes of a number, most significant first.
pub open spec fn be_bytes(value: u64) -> Seq<u8> {
    seq![
        (value / 0x100_0000_0000_0000) as u8,
        (value / 0x1_0000_0000_0000 % 256) as u8,
        (value / 0x100_0000_0000 % 256) as u8,
        (value / 0x1_0000_0000 % 256) as u8,
        (value / 0x100_0000 % 256) as u8,
        (value / 0x1_0000 % 256) as u8,
        (value / 0x100 % 256) as u8,
        (value % 256) as u8,
    ]
}

/// The eight bytes of `value`, most significant first.
pub fn be_bytes_of(value: u64) -> (r: Vec<u8>)
    ensures
        r@ == be_bytes(value),
{
    let mut r: Vec<u8> = Vec::new();
    r.push((value / 0x100_0000_0000_0000) as u8);
    r.push((value / 0x1_0000_0000_0000 % 256) as u8);
    r.push((value / 0x100_0000_0000 % 256) as u8);
    r.push((value / 0x1_0000_0000 % 256) as u8);
    r.push((value / 0x100_0000 % 256) as u8);
    r.push((value / 0x1_0000 % 256) as u8);
    r.push((value / 0x100 % 256) as u8);
    r.push((value % 256) as u8);
    assert(r@ =~= be_bytes(value));
    r
}

impl RevisionToken {
    /// The token of a thread that was never stored.
    pub fn initial() -> (r: Self)
        ensures
            r@ == Seq::<u8>::empty(),
    {
        RevisionToken(Vec::new())
    }

    /// The token that consists of `bytes`.
    pub fn from_bytes(bytes: Vec<u8>) -> (r: Self)
        ensures
            r@ == bytes@,
    {
        RevisionToken(bytes)
    }

    /// The token of a numbered state.
    pub fn from_u64(value: u64) -> (r: Self)
        ensures
            r@ == be_bytes(value),
    {
        RevisionToken(be_bytes_of(value))
    }

    pub fn as_bytes(&self) -> (r: &[u8])
        ensures
            r@ == self@,
    {
        self.0.as_slice()
    }

    /// Whether two tokens stand for the same state.
    pub fn same(&self, other: &RevisionToken) -> (r: bool)
        ensures
            r == (self@ == other@),
    {
        if self.0.len() != other.0.len() {
            return false;
        }
        let mut i: usize = 0;
        while i < self.0.len()
            invariant
                i <= self.0@.len(),
                self.0@.len() == other.0@.len(),
                forall|k: int| 0 <= k < i ==> self.0@[k] == other.0@[k],
            decreases self.0@.len() - i,
        {
            if self.0[i] != other.0[i] {
                return false;
            }
            i = i + 1;
        }
        assert(self.0@ =~= other.0@);
        true
    }
}

impl Default for RevisionToken {
    fn default() -> (r: Self)
        ensures
            r@ == Seq::<u8>::empty(),
    {
        RevisionToken::initial()
    }
}

/// The number whose bytes, most significant first, these are.
pub open spec fn be_value(bytes: Seq<u8>) -> int
    recommends
        bytes.len() == 8,
{
    bytes[0] * 0x100_0000_0000_0000 + bytes[1] * 0x1_0000_0000_0000 + bytes[2] * 0x100_0000_0000
        + bytes[3] * 0x1_0000_0000 + bytes[4] * 0x100_0000 + bytes[5] * 0x1_0000 + bytes[6] * 0x100
        + bytes[7]
}

/// A number can be read back from its bytes.
pub proof fn law_be_bytes_value(value: u64)
    ensures
        be_bytes(value).len() == 8,
        be_value(be_bytes(value)) == value,
{
    let a = value / 0x100;
    let b = value / 0x1_0000;
    let c = value / 0x100_0000;
    let d = value / 0x1_0000_0000;
    let e = value / 0x100_0000_0000;
    let f = value / 0x1_0000_0000_0000;
    let g = value / 0x100_0000_0000_0000;
    assert(value == 0x100 * a + value % 256);
    assert(b == a / 0x100 && a == 0x100 * b + a % 256);
    assert(c == b / 0x100 && b == 0x100 * c + b % 256);
    assert(d == c / 0x100 && c == 0x100 * d + c % 256);
    assert(e == d / 0x100 && d == 0x100 * e + d % 256);
    assert(f == e / 0x100 && e == 0x100 * f + e % 256);
    assert(g == f / 0x100 && f == 0x100 * g + f % 256 && g < 256);
}

/// Tokens of different numbers differ, and none is the initial one.
pub proof fn law_numbered_tokens_differ(a: u64, b: u64)
    requires
        a != b,
    ensures
        be_bytes(a) != be_bytes(b),
        be_bytes(a) != Seq::<u8>::empty(),
{
    law_be_bytes_value(a);
    law_be_bytes_value(b);
}

} // verus!

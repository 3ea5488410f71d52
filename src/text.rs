//! Fixed-capacity text fields: exactly `N` bytes of valid UTF-8, zero padded.
use vstd::prelude::*;
use vstd::string::StringSliceAdditionalSpecFns;
use vstd::utf8::{encode_utf8_valid_utf8, is_leading_byte_width_1, partial_valid_utf8, partial_valid_utf8_extend_ascii_block, valid_utf8};

verus! {

/// `b` followed by zero bytes up to a length of `n`.
pub open spec fn zero_padded(b: Seq<u8>, n: nat) -> Seq<u8> {
    b + Seq::new((n - b.len()) as nat, |_i: int| 0u8)
}

/// A text field of a fixed capacity of `N` bytes.
///
/// The field always holds exactly `N` bytes, which form valid UTF-8; text
/// shorter than the capacity is followed by zero bytes. The bytes are kept as
/// they were read, so that a field is written back byte for byte.
#[derive(Debug, PartialEq, Eq, Hash)]
pub struct FixedText<const N: usize> {
    bytes: Vec<u8>,
}

impl<const N: usize> View for FixedText<N> {
    type V = Seq<u8>;

    closed spec fn view(&self) -> Seq<u8> {
        self.bytes@
    }
}

/// Relies on `std::str::from_utf8`: it succeeds exactly when the bytes are
/// valid UTF-8, and then returns a `str` made of those same bytes.
#[verifier::external_body]
fn utf8_str(bytes: &[u8]) -> (r: Option<&str>)
    ensures
        r is Some <==> valid_utf8(bytes@),
        r matches Some(s) ==> s.spec_bytes() == bytes@,
{
    std::str::from_utf8(bytes).ok()
}

impl<const N: usize> FixedText<N> {
    #[verifier::type_invariant]
    spec fn well_formed(self) -> bool {
        self.bytes@.len() == N && valid_utf8(self.bytes@)
    }

    /// The field holding `text` followed by zero bytes, or `None` when the
    /// UTF-8 bytes of `text` do not fit in `N` bytes.
    pub fn new(text: &str) -> (r: Option<Self>)
        ensures
            r is Some <==> text.spec_bytes().len() <= N,
            r matches Some(t) ==> t@ == zero_padded(text.spec_bytes(), N as nat),
    {
        let b = text.as_bytes();
        if b.len() > N {
            return None;
        }
        let mut bytes: Vec<u8> = Vec::new();
        let mut i: usize = 0;
        while i < b.len()
            invariant
                i <= b@.len(),
                bytes@ == b@.subrange(0, i as int),
            decreases b@.len() - i,
        {
            bytes.push(b[i]);
            i += 1;
        }
        while bytes.len() < N
            invariant
                b@.len() <= bytes@.len() <= N,
                bytes@ == zero_padded(b@, bytes@.len()),
            decreases N - bytes@.len(),
        {
            bytes.push(0u8);
            assert(bytes@ =~= zero_padded(b@, bytes@.len()));
        }
        proof {
            encode_utf8_valid_utf8(text@);
            lemma_padding_keeps_utf8(b@, N as nat);
        }
        Some(FixedText { bytes })
    }

    /// The field holding exactly `bytes`, or `None` when they are not `N`
    /// bytes of valid UTF-8.
    pub fn from_slice(bytes: &[u8]) -> (r: Option<Self>)
        ensures
            r is Some <==> bytes@.len() == N && valid_utf8(bytes@),
            r matches Some(t) ==> t@ == bytes@,
    {
        if bytes.len() != N {
            return None;
        }
        match utf8_str(bytes) {
            Some(_) => Some(FixedText { bytes: vstd::slice::slice_to_vec(bytes) }),
            None => None,
        }
    }

    /// The `N` bytes of the field, padding included.
    pub fn as_bytes(&self) -> (r: &[u8])
        ensures
            r@ == self@,
            r@.len() == N,
            valid_utf8(r@),
    {
        proof {
            use_type_invariant(self);
        }
        self.bytes.as_slice()
    }

    /// The field as a string, padding included.
    pub fn as_str(&self) -> (r: &str)
        ensures
            r.spec_bytes() == self@,
    {
        proof {
            use_type_invariant(self);
        }
        match utf8_str(self.bytes.as_slice()) {
            Some(s) => s,
            None => {
                assert(false);
                ""
            },
        }
    }
}

impl<const N: usize> Clone for FixedText<N> {
    fn clone(&self) -> (r: Self)
        ensures
            r@ == self@,
    {
        proof {
            use_type_invariant(self);
        }
        FixedText { bytes: vstd::slice::slice_to_vec(self.bytes.as_slice()) }
    }
}

/// Zero bytes added after valid UTF-8 keep it valid.
proof fn lemma_padding_keeps_utf8(b: Seq<u8>, n: nat)
    requires
        valid_utf8(b),
        b.len() <= n,
    ensures
        valid_utf8(zero_padded(b, n)),
{
    let t = zero_padded(b, n);
    assert(t.subrange(0, b.len() as int) =~= b);
    assert forall|i: int| 0 <= b.len() <= i < n <= t.len() implies #[trigger] is_leading_byte_width_1(
        t[i],
    ) by {
        assert(t[i] == 0u8);
        assert(is_leading_byte_width_1(0u8));
    }
    partial_valid_utf8_extend_ascii_block(t, b.len() as int, n as int);
    assert(t.subrange(0, n as int) =~= t);
}

} // verus!

//! A human-readable device identity, cut to the length that the wire format
//! allows without splitting a multi-byte code point.
use vstd::prelude::*;
use vstd::string::StringSliceAdditionalSpecFns;
use vstd::utf8::{
    encode_utf8_valid_utf8, is_char_boundary, length_of_first_scalar, pop_first_scalar, valid_utf8,
    valid_utf8_split,
};

verus! {

/// Maximum permitted length of a BLE device name, in bytes.
pub const MAX_LOCAL_NAME_LENGTH: usize = 19;

/// The largest character boundary of `bytes` that is at most `k` (zero when
/// there is none above it).
pub open spec fn boundary_at_or_below(bytes: Seq<u8>, k: int) -> int
    decreases k,
{
    if k <= 0 {
        0
    } else if is_char_boundary(bytes, k) {
        k
    } else {
        boundary_at_or_below(bytes, k - 1)
    }
}

/// The bytes that a device name keeps of the UTF-8 text `bytes`: all of them
/// when they fit, else the longest prefix that fits and ends on a character
/// boundary.
pub open spec fn device_name_bytes(bytes: Seq<u8>) -> Seq<u8> {
    if bytes.len() <= MAX_LOCAL_NAME_LENGTH {
        bytes
    } else {
        bytes.subrange(0, boundary_at_or_below(bytes, MAX_LOCAL_NAME_LENGTH as int))
    }
}

proof fn lemma_boundary_at_or_below(bytes: Seq<u8>, k: int)
    requires
        valid_utf8(bytes),
        0 <= k <= bytes.len(),
    ensures
        0 <= boundary_at_or_below(bytes, k) <= k,
        is_char_boundary(bytes, boundary_at_or_below(bytes, k)),
        forall|j: int| boundary_at_or_below(bytes, k) < j <= k ==> !is_char_boundary(bytes, j),
    decreases k,
{
    if k > 0 && !is_char_boundary(bytes, k) {
        lemma_boundary_at_or_below(bytes, k - 1);
    }
}

/// A code point takes at most four bytes, so within any three bytes below an
/// index of valid UTF-8 there is a character boundary.
proof fn lemma_boundary_near(bytes: Seq<u8>, k: int) -> (b: int)
    requires
        valid_utf8(bytes),
        0 <= k <= bytes.len(),
    ensures
        k - 3 <= b <= k,
        is_char_boundary(bytes, b),
    decreases bytes.len(),
{
    if k <= 3 {
        0
    } else {
        let l = length_of_first_scalar(bytes);
        let tail = pop_first_scalar(bytes);
        assert(1 <= l <= 4);
        assert(tail.len() == bytes.len() - l);
        let b = lemma_boundary_near(tail, k - l);
        b + l
    }
}

/// A string slice appropriate for use as a BLE device name.
pub struct DeviceName<'a> {
    name: &'a str,
}

impl<'a> DeviceName<'a> {
    #[verifier::type_invariant]
    spec fn fits(&self) -> bool {
        self.name.spec_bytes().len() <= MAX_LOCAL_NAME_LENGTH
    }
}

impl<'a> View for DeviceName<'a> {
    type V = Seq<u8>;

    /// The name's UTF-8 bytes.
    closed spec fn view(&self) -> Seq<u8> {
        self.name.spec_bytes()
    }
}

impl<'a> DeviceName<'a> {
    /// Create a new BLE device name.
    ///
    /// A device name must be 19 bytes or shorter. A longer string slice is cut
    /// to its longest prefix that fits within the limit and ends on a UTF-8
    /// code point boundary.
    pub fn new(name: &'a str) -> (r: Self)
        ensures
            r@ == device_name_bytes(name.spec_bytes()),
            name.spec_bytes().len() <= MAX_LOCAL_NAME_LENGTH ==> r@ == name.spec_bytes(),
    {
        let len = name.as_bytes().len();
        if len > MAX_LOCAL_NAME_LENGTH {
            let ghost bytes = name.spec_bytes();
            proof {
                encode_utf8_valid_utf8(name@);
                lemma_boundary_at_or_below(bytes, MAX_LOCAL_NAME_LENGTH as int);
            }
            let mut index: usize = MAX_LOCAL_NAME_LENGTH;
            while !name.is_char_boundary(index)
                invariant
                    valid_utf8(bytes),
                    bytes == name.spec_bytes(),
                    index <= MAX_LOCAL_NAME_LENGTH < bytes.len(),
                    boundary_at_or_below(bytes, index as int) == boundary_at_or_below(
                        bytes,
                        MAX_LOCAL_NAME_LENGTH as int,
                    ),
                decreases index,
            {
                index = index - 1;
            }
            let (head, _) = name.split_at(index);
            proof {
                lemma_boundary_at_or_below(bytes, index as int);
            }
            DeviceName { name: head }
        } else {
            DeviceName { name }
        }
    }

    /// Returns the `DeviceName` length, in bytes.
    pub fn len(&self) -> (r: usize)
        ensures
            r == self@.len(),
            r <= MAX_LOCAL_NAME_LENGTH,
    {
        proof {
            use_type_invariant(self);
        }
        self.name.len()
    }

    /// Raw byte access: the name's UTF-8 bytes, starting at its first byte.
    pub fn as_ptr(&self) -> (r: &'a [u8])
        ensures
            r@ == self@,
            r@.len() <= MAX_LOCAL_NAME_LENGTH,
    {
        proof {
            use_type_invariant(self);
        }
        self.name.as_bytes()
    }

    /// The name as text.
    pub fn as_str(&self) -> (r: &'a str)
        ensures
            r.spec_bytes() == self@,
    {
        self.name
    }
}

impl<'a> From<&'a str> for DeviceName<'a> {
    fn from(value: &'a str) -> (r: Self)
        ensures
            r@ == device_name_bytes(value.spec_bytes()),
    {
        Self::new(value)
    }
}

impl<'a> vstd::std_specs::convert::FromSpecImpl<&'a str> for DeviceName<'a> {
    open spec fn obeys_from_spec() -> bool {
        false
    }

    open spec fn from_spec(v: &'a str) -> Self {
        arbitrary()
    }
}

/// A name longer than the limit becomes at most the limit in length, a prefix
/// of the input that ends on a code point boundary (so itself valid UTF-8),
/// and the longest such prefix, which keeps at least 16 bytes since a code
/// point takes at most four.
pub proof fn lemma_long_name_truncated(name: &str)
    requires
        name.spec_bytes().len() > MAX_LOCAL_NAME_LENGTH,
    ensures
        ({
            let bytes = name.spec_bytes();
            let kept = device_name_bytes(bytes);
            &&& kept.len() <= MAX_LOCAL_NAME_LENGTH
            &&& kept.len() >= MAX_LOCAL_NAME_LENGTH - 3
            &&& kept == bytes.subrange(0, kept.len() as int)
            &&& is_char_boundary(bytes, kept.len() as int)
            &&& valid_utf8(kept)
            &&& forall|j: int|
                kept.len() < j <= MAX_LOCAL_NAME_LENGTH ==> !is_char_boundary(bytes, j)
        }),
{
    let bytes = name.spec_bytes();
    encode_utf8_valid_utf8(name@);
    lemma_boundary_at_or_below(bytes, MAX_LOCAL_NAME_LENGTH as int);
    let k = boundary_at_or_below(bytes, MAX_LOCAL_NAME_LENGTH as int);
    valid_utf8_split(bytes, k);
    let near = lemma_boundary_near(bytes, MAX_LOCAL_NAME_LENGTH as int);
    assert(near <= k);
}

/// A name at or under the limit is kept unchanged.
pub proof fn lemma_short_name_unchanged(name: &str)
    requires
        name.spec_bytes().len() <= MAX_LOCAL_NAME_LENGTH,
    ensures
        device_name_bytes(name.spec_bytes()) == name.spec_bytes(),
{
}

} // verus!

use vstd::prelude::*;

verus! {

/// Magnitude of the key of positive infinity: every key beyond it, in either
/// direction, stands for a value that is not a number.
pub const INFINITY_KEY: i32 = 0x7f80_0000;

/// Key of the value one.
pub const ONE_KEY: i32 = 0x3f80_0000;

/// The key that belongs to a 32-bit IEEE-754 bit pattern.
///
/// Patterns with a clear sign bit keep their value; patterns with the sign bit
/// set map to the negated magnitude. Numbers therefore order as their keys do,
/// and the two zeros share the key 0.
pub open spec fn key_of_bits(bits: u32) -> int {
    if bits >= 0x8000_0000 {
        -(bits - 0x8000_0000)
    } else {
        bits as int
    }
}

/// The bit pattern that a key stands for (the positive zero for key 0).
pub open spec fn bits_of_key(key: int) -> int {
    if key < 0 {
        0x8000_0000 - key
    } else {
        key
    }
}

/// A single-precision value carried as an integer that orders the same way.
///
/// The library never computes with fractions; it compares, selects and hands
/// values through. A `Scalar` is the bit pattern of the value, folded so that
/// integer order on the key is numeric order on the value.
#[derive(Clone, Copy, Debug)]
pub struct Scalar {
    key: i32,
}

impl View for Scalar {
    type V = int;

    closed spec fn view(&self) -> int {
        self.key as int
    }
}

impl Scalar {
    #[verifier::type_invariant]
    spec fn in_range(self) -> bool {
        self.key > i32::MIN
    }

    /// Whether the value is not a number.
    pub open spec fn spec_is_nan(self) -> bool {
        self@ > INFINITY_KEY || self@ < -INFINITY_KEY
    }

    /// Numeric `>=`: false as soon as either side is not a number.
    pub open spec fn spec_ge(self, other: Scalar) -> bool {
        !self.spec_is_nan() && !other.spec_is_nan() && self@ >= other@
    }

    /// Numeric `>`: false as soon as either side is not a number.
    pub open spec fn spec_gt(self, other: Scalar) -> bool {
        !self.spec_is_nan() && !other.spec_is_nan() && self@ > other@
    }

    /// Numeric equality: false as soon as either side is not a number.
    pub open spec fn spec_same(self, other: Scalar) -> bool {
        !self.spec_is_nan() && !other.spec_is_nan() && self@ == other@
    }

    /// Folds a bit pattern into its key.
    pub fn from_bits(bits: u32) -> (s: Scalar)
        ensures
            s@ == key_of_bits(bits),
    {
        if bits >= 0x8000_0000 {
            let magnitude: u32 = bits - 0x8000_0000;
            Scalar { key: -(magnitude as i32) }
        } else {
            Scalar { key: bits as i32 }
        }
    }

    /// Unfolds the key into the bit pattern it stands for.
    pub fn to_bits(self) -> (bits: u32)
        ensures
            bits == bits_of_key(self@),
    {
        proof {
            use_type_invariant(self);
        }
        if self.key < 0 {
            let magnitude: u32 = (-self.key) as u32;
            0x8000_0000u32 + magnitude
        } else {
            self.key as u32
        }
    }

    /// The value zero.
    pub fn zero() -> (s: Scalar)
        ensures
            s@ == 0,
    {
        Scalar { key: 0 }
    }

    /// The value one.
    pub fn one() -> (s: Scalar)
        ensures
            s@ == ONE_KEY,
    {
        Scalar { key: ONE_KEY }
    }

    /// The value below every number.
    pub closed spec fn spec_negative_infinity() -> Scalar {
        Scalar { key: (-INFINITY_KEY) as i32 }
    }

    /// The value below every number has the key of negative infinity.
    pub proof fn lemma_negative_infinity()
        ensures
            Scalar::spec_negative_infinity()@ == -INFINITY_KEY,
            !Scalar::spec_negative_infinity().spec_is_nan(),
    {
    }

    /// The value below every number.
    pub fn negative_infinity() -> (s: Scalar)
        ensures
            s == Scalar::spec_negative_infinity(),
            s@ == -INFINITY_KEY,
    {
        Scalar { key: -INFINITY_KEY }
    }

    /// The key itself, for ordering.
    pub fn key(self) -> (k: i64)
        ensures
            k == self@,
            i32::MIN < k <= i32::MAX,
    {
        proof {
            use_type_invariant(self);
        }
        self.key as i64
    }

    /// Whether the value is not a number.
    pub fn is_nan(self) -> (r: bool)
        ensures
            r == self.spec_is_nan(),
    {
        self.key > INFINITY_KEY || self.key < -INFINITY_KEY
    }

    /// Numeric `>=`.
    pub fn ge(self, other: Scalar) -> (r: bool)
        ensures
            r == self.spec_ge(other),
    {
        !self.is_nan() && !other.is_nan() && self.key >= other.key
    }

    /// Numeric `>`.
    pub fn gt(self, other: Scalar) -> (r: bool)
        ensures
            r == self.spec_gt(other),
    {
        !self.is_nan() && !other.is_nan() && self.key > other.key
    }

    /// Numeric equality.
    pub fn same(self, other: Scalar) -> (r: bool)
        ensures
            r == self.spec_same(other),
    {
        !self.is_nan() && !other.is_nan() && self.key == other.key
    }

    /// Whether the value lies between zero and one, both included.
    pub fn is_unit_interval(self) -> (r: bool)
        ensures
            r == (0 <= self@ <= ONE_KEY),
    {
        0 <= self.key && self.key <= ONE_KEY
    }
}

/// Folding and unfolding give the pattern back, but for the negative zero,
/// which comes back as the positive zero.
pub proof fn lemma_bits_round_trip(bits: u32)
    ensures
        bits != 0x8000_0000 ==> bits_of_key(key_of_bits(bits)) == bits,
        bits == 0x8000_0000 ==> bits_of_key(key_of_bits(bits)) == 0,
{
}

/// Unfolding and folding give the key back.
pub proof fn lemma_key_round_trip(key: int)
    requires
        i32::MIN < key <= i32::MAX,
    ensures
        0 <= bits_of_key(key) <= u32::MAX,
        key_of_bits(bits_of_key(key) as u32) == key,
{
}

} // verus!

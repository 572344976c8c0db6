//! Which of the seven segments a decimal digit lights.
//!
//! ```text
//!    AAAAA
//!   F     B
//!   F     B
//!   F     B
//!    GGGGG
//!   E     C
//!   E     C
//!   E     C
//!    DDDDD
//! ```

use vstd::prelude::*;

verus! {

/// A set of segments, one bit for each. Only the low seven bits are used.
#[derive(Clone, Copy, Debug, PartialEq, Eq, Structural)]
pub struct Segments(pub u8);

impl Segments {
    /// Segment A (top horizontal)
    pub const A: u8 = 0b0100_0000;

    /// Segment B (top right vertical)
    pub const B: u8 = 0b0010_0000;

    /// Segment C (bottom right vertical)
    pub const C: u8 = 0b0001_0000;

    /// Segment D (bottom horizontal)
    pub const D: u8 = 0b0000_1000;

    /// Segment E (bottom left vertical)
    pub const E: u8 = 0b0000_0100;

    /// Segment F (top left vertical)
    pub const F: u8 = 0b0000_0010;

    /// Segment G (middle horizontal)
    pub const G: u8 = 0b0000_0001;

    /// The segments that show `digit`; no segment for a value above 9.
    pub open spec fn digit_bits(digit: u8) -> u8 {
        if digit == 0 {
            Self::A | Self::B | Self::C | Self::D | Self::E | Self::F
        } else if digit == 1 {
            Self::B | Self::C
        } else if digit == 2 {
            Self::A | Self::B | Self::D | Self::E | Self::G
        } else if digit == 3 {
            Self::A | Self::B | Self::C | Self::D | Self::G
        } else if digit == 4 {
            Self::B | Self::C | Self::F | Self::G
        } else if digit == 5 {
            Self::A | Self::C | Self::D | Self::F | Self::G
        } else if digit == 6 {
            Self::A | Self::C | Self::D | Self::E | Self::F | Self::G
        } else if digit == 7 {
            Self::A | Self::B | Self::C
        } else if digit == 8 {
            Self::A | Self::B | Self::C | Self::D | Self::E | Self::F | Self::G
        } else if digit == 9 {
            Self::A | Self::B | Self::C | Self::D | Self::F | Self::G
        } else {
            0
        }
    }

    /// The patterns of the ten digits, bit by bit, and that a value above
    /// 9 has none. No pattern uses the top bit.
    pub proof fn lemma_digit_bits()
        ensures
            Self::digit_bits(0) == 0b0111_1110,
            Self::digit_bits(1) == 0b0011_0000,
            Self::digit_bits(2) == 0b0110_1101,
            Self::digit_bits(3) == 0b0111_1001,
            Self::digit_bits(4) == 0b0011_0011,
            Self::digit_bits(5) == 0b0101_1011,
            Self::digit_bits(6) == 0b0101_1111,
            Self::digit_bits(7) == 0b0111_0000,
            Self::digit_bits(8) == 0b0111_1111,
            Self::digit_bits(9) == 0b0111_1011,
            forall|digit: u8| digit > 9 ==> #[trigger] Self::digit_bits(digit) == 0,
            forall|digit: u8| #[trigger] Self::digit_bits(digit) <= 0b0111_1111,
    {
        assert(0x40u8 | 0x20u8 | 0x10u8 | 0x08u8 | 0x04u8 | 0x02u8 == 0x7Eu8) by (bit_vector);
        assert(0x20u8 | 0x10u8 == 0x30u8) by (bit_vector);
        assert(0x40u8 | 0x20u8 | 0x08u8 | 0x04u8 | 0x01u8 == 0x6Du8) by (bit_vector);
        assert(0x40u8 | 0x20u8 | 0x10u8 | 0x08u8 | 0x01u8 == 0x79u8) by (bit_vector);
        assert(0x20u8 | 0x10u8 | 0x02u8 | 0x01u8 == 0x33u8) by (bit_vector);
        assert(0x40u8 | 0x10u8 | 0x08u8 | 0x02u8 | 0x01u8 == 0x5Bu8) by (bit_vector);
        assert(0x40u8 | 0x10u8 | 0x08u8 | 0x04u8 | 0x02u8 | 0x01u8 == 0x5Fu8) by (bit_vector);
        assert(0x40u8 | 0x20u8 | 0x10u8 == 0x70u8) by (bit_vector);
        assert(0x40u8 | 0x20u8 | 0x10u8 | 0x08u8 | 0x04u8 | 0x02u8 | 0x01u8 == 0x7Fu8)
            by (bit_vector);
        assert(0x40u8 | 0x20u8 | 0x10u8 | 0x08u8 | 0x02u8 | 0x01u8 == 0x7Bu8) by (bit_vector);
    }

    /// The set without any segment.
    pub fn empty() -> (s: Self)
        ensures
            s.0 == 0,
    {
        Segments(0)
    }

    /// The segments of a decimal digit. A value above 9 is no failure: it
    /// has the empty set, and so the result is always `Some`.
    pub fn from_digit(digit: u8) -> (r: Option<Self>)
        ensures
            r == Some(Segments(Self::digit_bits(digit))),
    {
        let bits: u8 = match digit {
            0 => Self::A | Self::B | Self::C | Self::D | Self::E | Self::F,
            1 => Self::B | Self::C,
            2 => Self::A | Self::B | Self::D | Self::E | Self::G,
            3 => Self::A | Self::B | Self::C | Self::D | Self::G,
            4 => Self::B | Self::C | Self::F | Self::G,
            5 => Self::A | Self::C | Self::D | Self::F | Self::G,
            6 => Self::A | Self::C | Self::D | Self::E | Self::F | Self::G,
            7 => Self::A | Self::B | Self::C,
            8 => Self::A | Self::B | Self::C | Self::D | Self::E | Self::F | Self::G,
            9 => Self::A | Self::B | Self::C | Self::D | Self::F | Self::G,
            _ => 0,
        };
        Some(Segments(bits))
    }

    /// Whether the set and `segment` have a bit in common.
    pub open spec fn spec_contains(&self, segment: u8) -> bool {
        self.0 & segment != 0
    }

    #[verifier::when_used_as_spec(spec_contains)]
    pub fn contains(&self, segment: u8) -> (b: bool)
        ensures
            b == self.spec_contains(segment),
    {
        (self.0 & segment) != 0
    }
}

impl core::ops::BitOr for Segments {
    type Output = Segments;

    /// The union of two sets.
    fn bitor(self, rhs: Segments) -> (r: Segments) {
        Segments(self.0 | rhs.0)
    }
}

impl vstd::std_specs::ops::BitOrSpecImpl for Segments {
    open spec fn obeys_bitor_spec() -> bool {
        true
    }

    open spec fn bitor_req(self, rhs: Segments) -> bool {
        true
    }

    open spec fn bitor_spec(self, rhs: Segments) -> Segments {
        Segments(self.0 | rhs.0)
    }
}

impl core::ops::BitOr<u8> for Segments {
    type Output = Segments;

    /// The set with the segments of `rhs` added.
    fn bitor(self, rhs: u8) -> (r: Segments) {
        Segments(self.0 | rhs)
    }
}

impl vstd::std_specs::ops::BitOrSpecImpl<u8> for Segments {
    open spec fn obeys_bitor_spec() -> bool {
        true
    }

    open spec fn bitor_req(self, rhs: u8) -> bool {
        true
    }

    open spec fn bitor_spec(self, rhs: u8) -> Segments {
        Segments(self.0 | rhs)
    }
}

} // verus!

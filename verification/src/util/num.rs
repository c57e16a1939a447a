//! Numeric carriers that Rust does not provide: 24-bit integers and TeX's fixed-point scalar.

use vstd::prelude::*;
use vstd::std_specs::convert::FromSpecImpl;

verus! {

/// An unsigned 24-bit quantity, carried in 32 bits.
#[derive(Debug, PartialEq)]
#[allow(non_camel_case_types)]
pub struct u24(pub u32);

/// A signed 24-bit quantity, carried in 32 bits.
#[derive(Debug, PartialEq)]
#[allow(non_camel_case_types)]
pub struct i24(pub i32);

/// A fixed-point real: the number it stands for is `self.0` times 2^-20, so
/// the representable range is -2048 up to 2048 - 2^-20.
#[derive(Debug, Clone, Copy, PartialEq, Eq)]
pub struct Fixword(pub i32);

impl Fixword {
    /// How many units make up one: 2^20.
    pub open spec fn units_per_one() -> int {
        0x10_0000
    }

    /// The number this stands for, multiplied by `units_per_one()`.
    pub open spec fn scaled(self) -> int {
        self.0 as int
    }

    /// A fixword lies between -2048 and 2048 less one unit.
    pub proof fn lemma_range(self)
        ensures
            -2048 * Self::units_per_one() <= self.scaled() <= 2048 * Self::units_per_one() - 1,
    {
    }
}

impl From<u24> for u32 {
    fn from(num: u24) -> (result: Self) {
        num.0
    }
}

impl FromSpecImpl<u24> for u32 {
    open spec fn obeys_from_spec() -> bool {
        true
    }

    open spec fn from_spec(num: u24) -> Self {
        num.0
    }
}

impl From<u32> for u24 {
    fn from(num: u32) -> (result: Self) {
        u24(num)
    }
}

impl FromSpecImpl<u32> for u24 {
    open spec fn obeys_from_spec() -> bool {
        true
    }

    open spec fn from_spec(num: u32) -> Self {
        u24(num)
    }
}

impl From<u24> for i32 {
    fn from(num: u24) -> (result: Self) {
        #[verifier::truncate]
        (num.0 as i32)
    }
}

impl FromSpecImpl<u24> for i32 {
    open spec fn obeys_from_spec() -> bool {
        true
    }

    open spec fn from_spec(num: u24) -> Self {
        num.0 as i32
    }
}

impl From<i32> for u24 {
    fn from(num: i32) -> (result: Self) {
        u24(
            #[verifier::truncate]
            (num as u32),
        )
    }
}

impl FromSpecImpl<i32> for u24 {
    open spec fn obeys_from_spec() -> bool {
        true
    }

    open spec fn from_spec(num: i32) -> Self {
        u24(num as u32)
    }
}

impl From<i24> for i32 {
    fn from(num: i24) -> (result: Self) {
        num.0
    }
}

impl FromSpecImpl<i24> for i32 {
    open spec fn obeys_from_spec() -> bool {
        true
    }

    open spec fn from_spec(num: i24) -> Self {
        num.0
    }
}

impl From<i32> for i24 {
    fn from(num: i32) -> (result: Self) {
        i24(num)
    }
}

impl FromSpecImpl<i32> for i24 {
    open spec fn obeys_from_spec() -> bool {
        true
    }

    open spec fn from_spec(num: i32) -> Self {
        i24(num)
    }
}

} // verus!

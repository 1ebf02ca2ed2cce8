//! A 24-bit big-endian unsigned integer, as stored in segment fields.

use vstd::prelude::*;

verus! {

/// A 24-bit unsigned integer held as its three big-endian bytes.
#[allow(non_camel_case_types)]
#[derive(Copy, Clone, Debug, PartialEq, Eq)]
pub struct u24([u8; 3]);

impl u24 {
    /// The mathematical value of the three bytes.
    pub closed spec fn spec_value(self) -> nat {
        self.0@[0] as nat * 0x10000 + self.0@[1] as nat * 0x100 + self.0@[2] as nat
    }

    /// Wrap three big-endian bytes.
    pub fn from_bytes(value: [u8; 3]) -> (r: Self)
        ensures
            r.spec_value() == value@[0] as nat * 0x10000 + value@[1] as nat * 0x100 + value@[2]
                as nat,
    {
        u24(value)
    }

    /// Widen to a `u32`.
    pub fn to_u32(self) -> (r: u32)
        ensures
            r as nat == self.spec_value(),
    {
        (self.0[0] as u32) * 0x10000 + (self.0[1] as u32) * 0x100 + (self.0[2] as u32)
    }
}

} // verus!

//! Four-byte frame identifiers and their validity rule: every byte must be
//! an uppercase ASCII letter or an ASCII digit.
use vstd::prelude::*;

verus! {

/// A byte allowed in a frame identifier.
pub open spec fn is_id_byte(b: u8) -> bool {
    (65 <= b && b <= 90) || (48 <= b && b <= 57)
}

/// A candidate frame identifier: exactly four bytes.
#[derive(PartialEq, Eq, Clone, Copy, Debug)]
pub struct FrameID(pub [u8; 4]);

impl FrameID {
    /// Every byte of the identifier is an uppercase letter or a digit.
    pub open spec fn spec_valid(self) -> bool {
        is_id_byte(self.0[0]) && is_id_byte(self.0[1]) && is_id_byte(self.0[2]) && is_id_byte(
            self.0[3],
        )
    }

    /// Wraps the four bytes, keeping the valid and the rejected candidate
    /// apart by the side of the result they stand on.
    pub fn try_from(value: [u8; 4]) -> (r: Result<Self, Self>)
        ensures
            FrameID(value).spec_valid() ==> r == Ok::<FrameID, FrameID>(FrameID(value)),
            !FrameID(value).spec_valid() ==> r == Err::<FrameID, FrameID>(FrameID(value)),
    {
        let id = FrameID(value);
        if id.is_valid() {
            Ok(id)
        } else {
            Err(id)
        }
    }

    pub fn bytes(&self) -> (r: &[u8; 4])
        ensures
            *r == self.0,
    {
        &self.0
    }

    pub fn is_byte_valid_id(byte: u8) -> (r: bool)
        ensures
            r == is_id_byte(byte),
    {
        (65 <= byte && byte <= 90) || (48 <= byte && byte <= 57)
    }

    /// Accepts exactly the identifiers whose four bytes all lie in `A`-`Z`
    /// or `0`-`9`.
    pub fn is_valid(&self) -> (r: bool)
        ensures
            r == self.spec_valid(),
    {
        FrameID::is_byte_valid_id(self.0[0]) && FrameID::is_byte_valid_id(self.0[1])
            && FrameID::is_byte_valid_id(self.0[2]) && FrameID::is_byte_valid_id(self.0[3])
    }
}

impl Default for FrameID {
    fn default() -> (r: Self)
        ensures
            r.0 == [0u8, 0u8, 0u8, 0u8],
    {
        FrameID([0u8, 0u8, 0u8, 0u8])
    }
}

} // verus!

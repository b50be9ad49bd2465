//! The invitation component: holds the permission bits with which the
//! assistant asks to be invited.

use vstd::prelude::*;

verus! {

/// One past the highest permission flag that the chat client library defines.
pub const PERMISSION_BITS_END: u64 = 0x200_0000_0000;

/// `serenity::model::Permissions::from_bits`, with the accepted set handed
/// back as its bits. The flags of that type are the bits 0 to 40 without a
/// gap, and `from_bits` accepts a value exactly when no other bit is set in
/// it; the set it builds holds the value unchanged.
#[verifier::external_body]
fn known_permission_bits(bits: u64) -> (known: Option<u64>)
    ensures
        known == (if bits < PERMISSION_BITS_END { Some(bits) } else { None::<u64> }),
{
    serenity::model::Permissions::from_bits(bits).map(|p| p.bits())
}

/// The invitation component.
pub struct Misc {
    permissions: u64,
}

impl Misc {
    /// The permission bits this component was made with.
    pub closed spec fn permissions(&self) -> u64 {
        self.permissions
    }

    pub fn new(permissions: u64) -> (misc: Self)
        ensures
            misc.permissions() == permissions,
    {
        Self { permissions }
    }

    /// The permissions to put in the invitation link: the configured bits
    /// when every one of them is a permission flag, nothing otherwise.
    pub fn invite_permissions(&self) -> (bits: Option<u64>)
        ensures
            bits == (if self.permissions() < PERMISSION_BITS_END {
                Some(self.permissions())
            } else {
                None::<u64>
            }),
    {
        known_permission_bits(self.permissions)
    }
}

} // verus!

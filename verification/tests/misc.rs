//! The invitation component.

use session_maker::misc::{Misc, PERMISSION_BITS_END};

#[test]
fn known_permissions_are_handed_on() {
    assert_eq!(Misc::new(8).invite_permissions(), Some(8));
    assert_eq!(Misc::new(0).invite_permissions(), Some(0));
    assert_eq!(Misc::new(0x1100_0C00).invite_permissions(), Some(0x1100_0C00));
}

#[test]
fn every_flag_together_is_known() {
    let all = PERMISSION_BITS_END - 1;
    assert_eq!(all, (1u64 << 41) - 1);
    assert_eq!(Misc::new(all).invite_permissions(), Some(all));
    assert_eq!(Misc::new(1 << 40).invite_permissions(), Some(1 << 40));
}

#[test]
fn a_bit_that_is_no_flag_is_refused() {
    assert_eq!(Misc::new(PERMISSION_BITS_END).invite_permissions(), None);
    assert_eq!(Misc::new(1 << 41).invite_permissions(), None);
    assert_eq!(Misc::new((1 << 41) | 8).invite_permissions(), None);
    assert_eq!(Misc::new(1 << 63).invite_permissions(), None);
    assert_eq!(Misc::new(u64::MAX).invite_permissions(), None);
}

#[test]
fn each_single_bit_is_known_up_to_the_last_flag() {
    for bit in 0..64u32 {
        let bits = 1u64 << bit;
        let expected = if bit <= 40 { Some(bits) } else { None };
        assert_eq!(Misc::new(bits).invite_permissions(), expected);
    }
}

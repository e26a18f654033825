//! Input events handed to a display provider.

use vstd::prelude::*;
use crate::rfb::PointerButton;
use std::collections::HashMap;

verus! {

broadcast use vstd::std_specs::hash::group_hash_axioms;

/// A pointer event for the X11 provider; `button_mask` is the X button
/// number (0 for a release).
#[derive(Clone, Copy, Debug, PartialEq, Eq)]
pub struct X11PointerEvent {
    pub dst_x: i16,
    pub dst_y: i16,
    pub button_mask: u8,
}

/// A key event for the X11 provider.
#[derive(Clone, Copy, Debug, PartialEq, Eq)]
pub struct X11KeyEvent {
    pub key_down: u8,
    pub key_sym: u32,
}

/// A pointer event for the Win32 provider; `button_mask` is RFB's mask.
#[derive(Clone, Copy, Debug, PartialEq, Eq)]
pub struct Win32PointerEvent {
    pub dst_x: i16,
    pub dst_y: i16,
    pub button_mask: u8,
}

/// X button numbers: 1 left, 2 middle, 3 right, 4 wheel up, 5 wheel down,
/// 0 release.
pub open spec fn x11_button_spec(button: PointerButton) -> u8 {
    match button {
        PointerButton::Release => 0,
        PointerButton::Left => 1,
        PointerButton::Middle => 2,
        PointerButton::Right => 3,
        PointerButton::WheelUp => 4,
        PointerButton::WheelDown => 5,
    }
}

pub fn x11_button(button: PointerButton) -> (r: u8)
    ensures
        r == x11_button_spec(button),
{
    match button {
        PointerButton::Release => 0,
        PointerButton::Left => 1,
        PointerButton::Middle => 2,
        PointerButton::Right => 3,
        PointerButton::WheelUp => 4,
        PointerButton::WheelDown => 5,
    }
}

/// A screen coordinate as the providers take it: values past `i16::MAX`
/// become 0.
pub open spec fn coordinate_spec(v: u16) -> i16 {
    if v <= 0x7FFF {
        v as i16
    } else {
        0
    }
}

pub fn coordinate(v: u16) -> (r: i16)
    ensures
        r == coordinate_spec(v),
{
    if v <= 0x7FFF { v as i16 } else { 0 }
}

/// The X11 pointer event for a pointer message.
pub fn x11_pointer_event(button: PointerButton, x_position: u16, y_position: u16) -> (r: X11PointerEvent)
    ensures
        r.dst_x == coordinate_spec(x_position),
        r.dst_y == coordinate_spec(y_position),
        r.button_mask == x11_button_spec(button),
{
    X11PointerEvent { dst_x: coordinate(x_position), dst_y: coordinate(y_position), button_mask: x11_button(button) }
}

/// The X11 key event for a key message.
pub fn x11_key_event(down: bool, key_sym: u32) -> (r: X11KeyEvent)
    ensures
        r.key_down == (if down { 1u8 } else { 0u8 }),
        r.key_sym == key_sym,
{
    X11KeyEvent { key_down: if down { 1 } else { 0 }, key_sym }
}


/// The first keycode an X server reports keysyms for.
pub const MIN_KEYCODE: u8 = 8;

/// The keycode of entry `j` of a keyboard mapping with `per_keycode`
/// keysyms per keycode.
pub open spec fn keycode_at(j: nat, per_keycode: nat) -> u8 {
    (((j / per_keycode) % 256 + 8) % 256) as u8
}

/// Keysym to keycode, from a keyboard mapping read in order: each keysym
/// but NoSymbol (0) maps to the keycode of its last entry.
pub open spec fn keysym_map_spec(keysyms: Seq<u32>, per_keycode: nat) -> Map<u32, u8>
    decreases keysyms.len(),
{
    if keysyms.len() == 0 {
        Map::empty()
    } else {
        let before = keysym_map_spec(keysyms.drop_last(), per_keycode);
        if keysyms.last() == 0 {
            before
        } else {
            before.insert(keysyms.last(), keycode_at((keysyms.len() - 1) as nat, per_keycode))
        }
    }
}

/// Builds the keysym to keycode map of a keyboard mapping (GetKeyboardMapping
/// from keycode 8 on).
pub fn create_keysym_map(keysyms: &Vec<u32>, keysyms_per_keycode: u8) -> (r: HashMap<u32, u8>)
    requires
        keysyms_per_keycode > 0,
    ensures
        r@ == keysym_map_spec(keysyms@, keysyms_per_keycode as nat),
{
    let per: usize = keysyms_per_keycode as usize;
    let mut map: HashMap<u32, u8> = HashMap::new();
    let mut j: usize = 0;
    assert(keysyms@.subrange(0, 0) =~= Seq::<u32>::empty());
    while j < keysyms.len()
        invariant
            per == keysyms_per_keycode,
            per > 0,
            j <= keysyms@.len(),
            map@ == keysym_map_spec(keysyms@.subrange(0, j as int), per as nat),
        decreases keysyms@.len() - j,
    {
        assert(keysyms@.subrange(0, j + 1).drop_last() =~= keysyms@.subrange(0, j as int));
        let keysym = keysyms[j];
        if keysym != 0 {
            let keycode: u8 = (((j / per) % 256 + 8) % 256) as u8;
            map.insert(keysym, keycode);
        }
        j = j + 1;
    }
    assert(keysyms@.subrange(0, keysyms@.len() as int) =~= keysyms@);
    map
}

/// The X button a pointer mask names: buttons 1 to 5 are bits 8 to 12; any
/// other mask counts as button 1.
pub open spec fn keybutmask_button(mask: u16) -> u8 {
    if mask == 0x100 {
        1
    } else if mask == 0x200 {
        2
    } else if mask == 0x400 {
        3
    } else if mask == 0x800 {
        4
    } else if mask == 0x1000 {
        5
    } else {
        1
    }
}

pub fn parse_keybutmask(mask: u16) -> (r: u8)
    ensures
        r == keybutmask_button(mask),
{
    if mask == 0x100 {
        1
    } else if mask == 0x200 {
        2
    } else if mask == 0x400 {
        3
    } else if mask == 0x800 {
        4
    } else if mask == 0x1000 {
        5
    } else {
        1
    }
}

} // verus!

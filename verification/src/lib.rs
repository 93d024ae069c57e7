//! A keybinding-dispatch engine: keymaps map input events to commands,
//! support single-parent inheritance with cycle prevention, resolve whole
//! event sequences to bindings, enumerate their contents across three
//! physical binding encodings, and keep a reverse-lookup cache that is
//! invalidated whenever the inheritance topology changes.

use vstd::prelude::*;

pub mod cache;
pub mod chain;
pub mod data;
pub mod keymap;
pub mod laws;
pub mod lookup;
pub mod parent;
pub mod resolve;
pub mod store;
pub mod traverse;

verus! {

/// Control-character code of `c`: the low five bits of the character.
#[allow(non_snake_case)]
pub fn Ctl(c: char) -> (r: i32)
    ensures
        r == (c as u32 & 0x1f) as i32,
        0 <= r < 32,
{
    let cu: u32 = c as u32;
    let u: u32 = cu & 0x1f;
    proof {
        assert(cu & 0x1f < 32) by (bit_vector);
    }
    u as i32
}

} // verus!

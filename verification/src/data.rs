//! Plain value, event and result types of the engine.
//!
//! The engine works inside a host that represents everything as tagged
//! values.  `Value` is the engine's own typed picture of those values:
//! only the shapes the keymap logic reads are distinguished, everything
//! else is `Other`.  Keymaps themselves live in a store (see `store`) and
//! are referred to by handle.

use vstd::prelude::*;

verus! {

/// Modifier bit that marks a character event as carrying the meta key.
pub const META_BIT: u32 = 0x8000000;

/// A host value as the keymap engine sees it.
///
/// `Keymap(h)` refers to keymap number `h` of the store; a handle that the
/// store does not contain denotes no keymap anywhere the engine tests for
/// keymap shape.  `AutoloadKm(d)` is a deferred-keymap descriptor: a value
/// whose class tag marks it as both an autoload form and a keymap, carrying
/// the loader descriptor `d`.
#[derive(Clone, Copy, PartialEq, Eq, Structural, Debug)]
pub enum Value {
    Nil,
    Int(i64),
    Sym(u64),
    Str(u64),
    Keymap(usize),
    AutoloadKm(u64),
    Other(u64),
}

/// A canonical input event: a lookup key within a keymap.
///
/// `Pair(base, mods, data)` is the canonical form of a modifier-described
/// event list: the base symbol, its modifier bits, and the event data.
/// `Wildcard` is the distinguished default token; an entry keyed by it is a
/// fallback consulted only when a lookup accepts default bindings.
#[derive(Clone, Copy, PartialEq, Eq, Structural, Debug)]
pub enum Event {
    Char(u32),
    Sym(u64),
    Str(u64),
    Pair(u64, u32, i64),
    Wildcard,
}

/// One element of a key sequence as handed in by the host, before
/// canonicalization.
///
/// `ModList(base, mods, data)` is a modifier-described event list that is
/// normalized to `Event::Pair` during lookup.  `Other` is any host value
/// that is none of the permitted event shapes; looking it up fails with
/// `KmError::InvalidEvent`.
#[derive(Clone, Copy, PartialEq, Eq, Structural, Debug)]
pub enum KeyElem {
    Ev(Event),
    ModList(u64, u32, i64),
    Other(u64),
}

/// The engine's synchronous failures.
#[derive(Clone, Copy, PartialEq, Eq, Structural, Debug)]
pub enum KmError {
    /// A value required to resolve to a keymap is not one.
    WrongType,
    /// A parent attachment would make a keymap its own ancestor.
    CyclicInheritance,
    /// A key-sequence element is not a permitted event shape.
    InvalidEvent,
    /// A mutation was attempted on a keymap marked immutable.
    ImmutableKeymap,
}

/// Outcome of a key-sequence lookup.
///
/// `Found` carries the binding of the last event (`Value::Nil` meaning
/// undefined); `TooLong(n)` says the first `n` events were consumed before a
/// non-prefix binding cut the sequence short, with `1 <= n < length`; `Quit`
/// reports that a pending interrupt cancelled the walk at one of its
/// cooperative check points.  None of the three is an error.
#[derive(Clone, Copy, PartialEq, Eq, Structural, Debug)]
pub enum LookupRes {
    Found(Value),
    TooLong(usize),
    Quit,
}

/// A key as reported by traversal: either a single event or a contiguous
/// character-code range taken from a range-table entry.
#[derive(Clone, Copy, PartialEq, Eq, Structural, Debug)]
pub enum VisitKey {
    Ev(Event),
    Range(u32, u32),
}

/// Meta-folding of legacy 8-bit string characters: inside a plain
/// (non-extended) string, a character with the high bit of its low byte set
/// stands for the meta-modified character without that bit.
pub open spec fn meta_fold(e: Event, plain_string: bool) -> Event {
    match e {
        Event::Char(c) => if plain_string && c & 0x80 != 0 {
            Event::Char((c | META_BIT) & !0x80u32)
        } else {
            e
        },
        _ => e,
    }
}

/// Canonical event of a raw key element, `None` when the element is not a
/// permitted event shape.
pub open spec fn norm_elem(k: KeyElem, plain_string: bool) -> Option<Event> {
    match k {
        KeyElem::Ev(e) => Some(meta_fold(e, plain_string)),
        KeyElem::ModList(base, mods, d) => Some(Event::Pair(base, mods, d)),
        KeyElem::Other(_) => None,
    }
}

/// Canonicalize one raw key element: normalize a modifier-described event
/// list, fold the legacy meta bit of plain-string characters, and reject
/// anything that is not a permitted event shape.
pub fn normalize_elem(k: KeyElem, plain_string: bool) -> (r: Option<Event>)
    ensures
        r == norm_elem(k, plain_string),
{
    match k {
        KeyElem::Ev(e) => {
            match e {
                Event::Char(c) => {
                    if plain_string && c & 0x80 != 0 {
                        Some(Event::Char((c | META_BIT) & !0x80u32))
                    } else {
                        Some(Event::Char(c))
                    }
                },
                _ => Some(e),
            }
        },
        KeyElem::ModList(base, mods, d) => Some(Event::Pair(base, mods, d)),
        KeyElem::Other(_) => None,
    }
}

} // verus!

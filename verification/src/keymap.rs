//! One keymap: its binding entries and the specification functions that say
//! how an event is looked up in them and how they are enumerated.
//!
//! A keymap carries an ordered sequence of entries in three physical
//! encodings — sparse `Pair` entries (the alist), a `Dense` index table for
//! plain character codes, and a `Ranges` table mapping contiguous code
//! ranges — plus an optional menu prompt.  The single parent link is an
//! explicit shared (non-owning) handle into the store, kept acyclic by
//! `set_keymap_parent`.
//!
//! Lookup precedence for a plain character: table entries (dense, then
//! range, in entry order) are consulted before any `Pair` entry; among
//! `Pair` entries the earlier one shadows the later for the same event; a
//! `Wildcard` entry is a fallback consulted only when the lookup accepts
//! default bindings.  A table slot holding `Nil` is unpopulated and falls
//! through, while a `Pair` binding `Nil` is an explicit "undefined" that
//! shadows anything behind it.

use vstd::prelude::*;

use crate::data::Event;
use crate::data::Value;
use crate::data::VisitKey;

verus! {

/// Upper bound on the length of a dense table: the size of the character
/// code space.  Keeps every dense index representable as a character event.
pub const DENSE_LIMIT: usize = 0x110000;

/// One entry of a keymap.
pub enum Entry {
    /// A menu prompt string (by host string id); never a binding.
    Prompt(u64),
    /// A sparse binding: one event to one binding value.
    Pair(Event, Value),
    /// A dense table: slot `c` holds the binding of character code `c`,
    /// `Nil` meaning unpopulated.
    Dense(Vec<Value>),
    /// A range table: each row binds the inclusive character-code range
    /// `lo..=hi`, `Nil` meaning unpopulated.
    Ranges(Vec<(u32, u32, Value)>),
}

/// Mathematical image of an `Entry`.
#[verifier::ext_equal]
pub enum EntryV {
    Prompt(u64),
    Pair(Event, Value),
    Dense(Seq<Value>),
    Ranges(Seq<(u32, u32, Value)>),
}

impl View for Entry {
    type V = EntryV;

    open spec fn view(&self) -> EntryV {
        match self {
            Entry::Prompt(s) => EntryV::Prompt(*s),
            Entry::Pair(e, b) => EntryV::Pair(*e, *b),
            Entry::Dense(v) => EntryV::Dense(v@),
            Entry::Ranges(rs) => EntryV::Ranges(rs@),
        }
    }
}

/// A keymap: ordered entries, an optional parent handle, and a mutability
/// mark for keymaps in protected storage.
pub struct Keymap {
    pub entries: Vec<Entry>,
    pub parent: Option<usize>,
    pub immutable: bool,
}

/// Mathematical image of a `Keymap`.
#[verifier::ext_equal]
pub struct KeymapV {
    pub entries: Seq<EntryV>,
    pub parent: Option<usize>,
    pub immutable: bool,
}

impl View for Keymap {
    type V = KeymapV;

    open spec fn view(&self) -> KeymapV {
        KeymapV {
            entries: self.entries@.map_values(|e: Entry| e@),
            parent: self.parent,
            immutable: self.immutable,
        }
    }
}

/// Well-formed keymap: dense tables stay within the character code space.
pub open spec fn km_wf(m: KeymapV) -> bool {
    forall|i: int|
        0 <= i < m.entries.len() ==> match #[trigger] m.entries[i] {
            EntryV::Dense(v) => v.len() <= DENSE_LIMIT,
            _ => true,
        }
}

/// Binding of character `c` in a dense table, `None` when the slot is
/// absent or unpopulated.
pub open spec fn dense_hit(v: Seq<Value>, c: u32) -> Option<Value> {
    if c < v.len() && v[c as int] != Value::Nil {
        Some(v[c as int])
    } else {
        None
    }
}

/// Binding of character `c` in a range table, scanning rows from `i`:
/// the first populated row whose range contains `c`.
pub open spec fn range_hit_from(rs: Seq<(u32, u32, Value)>, c: u32, i: int) -> Option<Value>
    decreases rs.len() - i,
{
    if i < 0 || i >= rs.len() {
        None
    } else if rs[i].0 <= c && c <= rs[i].1 && rs[i].2 != Value::Nil {
        Some(rs[i].2)
    } else {
        range_hit_from(rs, c, i + 1)
    }
}

/// Binding of character `c` among the table entries (dense and range),
/// scanning entries from `i`; `Pair` entries are not consulted here.
pub open spec fn table_hit_from(es: Seq<EntryV>, c: u32, i: int) -> Option<Value>
    decreases es.len() - i,
{
    if i < 0 || i >= es.len() {
        None
    } else {
        let here = match es[i] {
            EntryV::Dense(v) => dense_hit(v, c),
            EntryV::Ranges(rs) => range_hit_from(rs, c, 0),
            _ => None,
        };
        match here {
            Some(b) => Some(b),
            None => table_hit_from(es, c, i + 1),
        }
    }
}

/// Binding of event `e` among the `Pair` entries, scanning from `i`: the
/// first pair keyed exactly by `e` wins, its binding taken as is (`Nil`
/// included).
pub open spec fn pair_hit_from(es: Seq<EntryV>, e: Event, i: int) -> Option<Value>
    decreases es.len() - i,
{
    if i < 0 || i >= es.len() {
        None
    } else {
        match es[i] {
            EntryV::Pair(e2, b) => if e2 == e {
                Some(b)
            } else {
                pair_hit_from(es, e, i + 1)
            },
            _ => pair_hit_from(es, e, i + 1),
        }
    }
}

/// Binding of `e` in this keymap alone (no parent): tables first for
/// character events, then exact pairs, then — only if `accept_default` —
/// the wildcard entry.
pub open spec fn own_hit(m: KeymapV, e: Event, accept_default: bool) -> Option<Value> {
    let th = match e {
        Event::Char(c) => table_hit_from(m.entries, c, 0),
        _ => None,
    };
    match th {
        Some(b) => Some(b),
        None => match pair_hit_from(m.entries, e, 0) {
            Some(b) => Some(b),
            None => if accept_default {
                pair_hit_from(m.entries, Event::Wildcard, 0)
            } else {
                None
            },
        },
    }
}

/// First prompt entry at or after `i`, as a host string id.
pub open spec fn prompt_from(es: Seq<EntryV>, i: int) -> Option<u64>
    decreases es.len() - i,
{
    if i < 0 || i >= es.len() {
        None
    } else {
        match es[i] {
            EntryV::Prompt(s) => Some(s),
            _ => prompt_from(es, i + 1),
        }
    }
}

/// Enumeration of a dense table from slot `i`: one `(code, binding)` item
/// per populated slot, in ascending slot order.
pub open spec fn dense_items(v: Seq<Value>, i: int) -> Seq<(VisitKey, Value)>
    decreases v.len() - i,
{
    if i < 0 || i >= v.len() {
        Seq::empty()
    } else if v[i] != Value::Nil {
        seq![(VisitKey::Ev(Event::Char(i as u32)), v[i])] + dense_items(v, i + 1)
    } else {
        dense_items(v, i + 1)
    }
}

/// Enumeration of a range table from row `i`: one `(range, binding)` item
/// per populated row, in row order.
pub open spec fn range_items(rs: Seq<(u32, u32, Value)>, i: int) -> Seq<(VisitKey, Value)>
    decreases rs.len() - i,
{
    if i < 0 || i >= rs.len() {
        Seq::empty()
    } else if rs[i].2 != Value::Nil {
        seq![(VisitKey::Range(rs[i].0, rs[i].1), rs[i].2)] + range_items(rs, i + 1)
    } else {
        range_items(rs, i + 1)
    }
}

/// Enumeration of one entry: a pair yields itself, tables yield their
/// populated slots or rows, a prompt yields nothing.
pub open spec fn entry_items(e: EntryV) -> Seq<(VisitKey, Value)> {
    match e {
        EntryV::Prompt(_) => Seq::empty(),
        EntryV::Pair(ev, b) => seq![(VisitKey::Ev(ev), b)],
        EntryV::Dense(v) => dense_items(v, 0),
        EntryV::Ranges(rs) => range_items(rs, 0),
    }
}

/// Enumeration of a keymap's own entries from entry `i` on, in storage
/// order.
pub open spec fn level_items_from(es: Seq<EntryV>, i: int) -> Seq<(VisitKey, Value)>
    decreases es.len() - i,
{
    if i < 0 || i >= es.len() {
        Seq::empty()
    } else {
        entry_items(es[i]) + level_items_from(es, i + 1)
    }
}

/// The dense table of a `Dense` entry, empty for any other entry.
pub open spec fn dense_of(e: EntryV) -> Seq<Value> {
    match e {
        EntryV::Dense(v) => v,
        _ => Seq::empty(),
    }
}

/// Index of the first `Dense` entry at or after `i` whose table covers
/// character `c`, or `-1`.
pub open spec fn dense_target(es: Seq<EntryV>, c: u32, i: int) -> int
    decreases es.len() - i,
{
    if i < 0 || i >= es.len() {
        -1
    } else {
        match es[i] {
            EntryV::Dense(v) => if c < v.len() {
                i
            } else {
                dense_target(es, c, i + 1)
            },
            _ => dense_target(es, c, i + 1),
        }
    }
}

/// Index of the first `Pair` entry at or after `i` keyed by `e`, or `-1`.
pub open spec fn pair_target(es: Seq<EntryV>, e: Event, i: int) -> int
    decreases es.len() - i,
{
    if i < 0 || i >= es.len() {
        -1
    } else {
        match es[i] {
            EntryV::Pair(e2, _) => if e2 == e {
                i
            } else {
                pair_target(es, e, i + 1)
            },
            _ => pair_target(es, e, i + 1),
        }
    }
}

/// A found dense target is a `Dense` entry covering `c`.
pub proof fn lemma_dense_target(es: Seq<EntryV>, c: u32, i: int)
    requires
        dense_target(es, c, i) >= 0,
    ensures
        i <= dense_target(es, c, i) < es.len(),
        match es[dense_target(es, c, i)] {
            EntryV::Dense(v) => c < v.len(),
            _ => false,
        },
    decreases es.len() - i,
{
    if i < 0 || i >= es.len() {
    } else {
        match es[i] {
            EntryV::Dense(v) => {
                if c < v.len() {
                } else {
                    lemma_dense_target(es, c, i + 1);
                }
            },
            _ => {
                lemma_dense_target(es, c, i + 1);
            },
        }
    }
}

/// A found pair target is a `Pair` entry keyed by `e`.
pub proof fn lemma_pair_target(es: Seq<EntryV>, e: Event, i: int)
    requires
        pair_target(es, e, i) >= 0,
    ensures
        i <= pair_target(es, e, i) < es.len(),
        match es[pair_target(es, e, i)] {
            EntryV::Pair(e2, _) => e2 == e,
            _ => false,
        },
    decreases es.len() - i,
{
    if i < 0 || i >= es.len() {
    } else {
        match es[i] {
            EntryV::Pair(e2, _) => {
                if e2 == e {
                } else {
                    lemma_pair_target(es, e, i + 1);
                }
            },
            _ => {
                lemma_pair_target(es, e, i + 1);
            },
        }
    }
}

/// Entry sequence after binding `e` to `b` among the `Pair` entries: the
/// first pair keyed by `e` is rebound, or a new pair is appended.
pub open spec fn pair_bind_tf(es: Seq<EntryV>, e: Event, b: Value) -> Seq<EntryV> {
    let pi = pair_target(es, e, 0);
    if pi >= 0 {
        es.update(pi, EntryV::Pair(e, b))
    } else {
        es.push(EntryV::Pair(e, b))
    }
}

/// Entry sequence after binding `e` to `b`: a character whose code a dense
/// table covers is written into that slot; anything else is rebound or
/// appended among the `Pair` entries.
pub open spec fn bind_tf(es: Seq<EntryV>, e: Event, b: Value) -> Seq<EntryV> {
    match e {
        Event::Char(c) => {
            let di = dense_target(es, c, 0);
            if di >= 0 {
                es.update(di, EntryV::Dense(dense_of(es[di]).update(c as int, b)))
            } else {
                pair_bind_tf(es, e, b)
            }
        },
        _ => pair_bind_tf(es, e, b),
    }
}

impl Keymap {
    /// Look `e` up in this keymap alone, ignoring the parent.
    pub fn own_lookup(&self, e: Event, accept_default: bool) -> (r: Option<Value>)
        ensures
            r == own_hit(self@, e, accept_default),
    {
        let th: Option<Value> = match e {
            Event::Char(c) => self.table_lookup(c),
            _ => None,
        };
        match th {
            Some(b) => Some(b),
            None => {
                match self.pair_lookup(e) {
                    Some(b) => Some(b),
                    None => {
                        if accept_default {
                            self.pair_lookup(Event::Wildcard)
                        } else {
                            None
                        }
                    },
                }
            },
        }
    }

    /// Look character `c` up among the table entries.
    fn table_lookup(&self, c: u32) -> (r: Option<Value>)
        ensures
            r == table_hit_from(self@.entries, c, 0),
    {
        let ghost es = self@.entries;
        let n: usize = self.entries.len();
        let mut i: usize = 0;
        while i < n
            invariant
                n == es.len(),
                es == self@.entries,
                0 <= i <= n,
                table_hit_from(es, c, 0) == table_hit_from(es, c, i as int),
            decreases n - i,
        {
            let here: Option<Value> = match &self.entries[i] {
                Entry::Dense(v) => {
                    if (c as usize) < v.len() {
                        let b = v[c as usize];
                        if b != Value::Nil {
                            Some(b)
                        } else {
                            None
                        }
                    } else {
                        None
                    }
                },
                Entry::Ranges(rs) => Self::range_lookup(rs, c),
                _ => None,
            };
            match here {
                Some(b) => {
                    return Some(b);
                },
                None => {},
            }
            i = i + 1;
        }
        None
    }

    /// Look character `c` up in one range table.
    fn range_lookup(rs: &Vec<(u32, u32, Value)>, c: u32) -> (r: Option<Value>)
        ensures
            r == range_hit_from(rs@, c, 0),
    {
        let n: usize = rs.len();
        let mut i: usize = 0;
        while i < n
            invariant
                n == rs@.len(),
                0 <= i <= n,
                range_hit_from(rs@, c, 0) == range_hit_from(rs@, c, i as int),
            decreases n - i,
        {
            let row = rs[i];
            if row.0 <= c && c <= row.1 && row.2 != Value::Nil {
                return Some(row.2);
            }
            i = i + 1;
        }
        None
    }

    /// Look `e` up among the `Pair` entries.
    fn pair_lookup(&self, e: Event) -> (r: Option<Value>)
        ensures
            r == pair_hit_from(self@.entries, e, 0),
    {
        let ghost es = self@.entries;
        let n: usize = self.entries.len();
        let mut i: usize = 0;
        while i < n
            invariant
                n == es.len(),
                es == self@.entries,
                0 <= i <= n,
                pair_hit_from(es, e, 0) == pair_hit_from(es, e, i as int),
            decreases n - i,
        {
            match &self.entries[i] {
                Entry::Pair(e2, b) => {
                    if *e2 == e {
                        return Some(*b);
                    }
                },
                _ => {},
            }
            i = i + 1;
        }
        None
    }

    /// First prompt entry of this keymap, if any.
    pub fn own_prompt(&self) -> (r: Option<u64>)
        ensures
            r == prompt_from(self@.entries, 0),
    {
        let ghost es = self@.entries;
        let n: usize = self.entries.len();
        let mut i: usize = 0;
        while i < n
            invariant
                n == es.len(),
                es == self@.entries,
                0 <= i <= n,
                prompt_from(es, 0) == prompt_from(es, i as int),
            decreases n - i,
        {
            match &self.entries[i] {
                Entry::Prompt(s) => {
                    return Some(*s);
                },
                _ => {},
            }
            i = i + 1;
        }
        None
    }

    /// Every binding of this keymap alone, in storage order: pairs as
    /// themselves, dense tables by ascending populated slot, range tables
    /// by populated row; prompts yield nothing.
    pub fn collect_items(&self) -> (r: Vec<(VisitKey, Value)>)
        requires
            km_wf(self@),
        ensures
            r@ == level_items_from(self@.entries, 0),
    {
        let ghost es = self@.entries;
        let mut out: Vec<(VisitKey, Value)> = Vec::new();
        let n: usize = self.entries.len();
        let mut i: usize = 0;
        while i < n
            invariant
                km_wf(self@),
                n == es.len(),
                es == self@.entries,
                0 <= i <= n,
                level_items_from(es, 0) == out@ + level_items_from(es, i as int),
            decreases n - i,
        {
            let ghost out0 = out@;
            match &self.entries[i] {
                Entry::Prompt(_) => {},
                Entry::Pair(ev, b) => {
                    out.push((VisitKey::Ev(*ev), *b));
                    proof {
                        assert(out@ =~= out0 + entry_items(es[i as int]));
                    }
                },
                Entry::Dense(v) => {
                    let m: usize = v.len();
                    let mut j: usize = 0;
                    while j < m
                        invariant
                            m == v@.len(),
                            m <= DENSE_LIMIT,
                            0 <= j <= m,
                            out0 + dense_items(v@, 0) == out@ + dense_items(v@, j as int),
                        decreases m - j,
                    {
                        let b = v[j];
                        if b != Value::Nil {
                            let ghost outp = out@;
                            out.push((VisitKey::Ev(Event::Char(j as u32)), b));
                            proof {
                                assert(dense_items(v@, j as int) == seq![
                                    (VisitKey::Ev(Event::Char(j as u32)), v@[j as int]),
                                ] + dense_items(v@, (j + 1) as int));
                                assert(outp + dense_items(v@, j as int) =~= out@ + dense_items(
                                    v@,
                                    (j + 1) as int,
                                ));
                            }
                        }
                        j = j + 1;
                    }
                    proof {
                        assert(dense_items(v@, m as int) =~= Seq::<(VisitKey, Value)>::empty());
                        assert(out@ =~= out0 + dense_items(v@, 0));
                        assert(entry_items(es[i as int]) == dense_items(v@, 0));
                    }
                },
                Entry::Ranges(rs) => {
                    let m: usize = rs.len();
                    let mut j: usize = 0;
                    while j < m
                        invariant
                            m == rs@.len(),
                            0 <= j <= m,
                            out0 + range_items(rs@, 0) == out@ + range_items(rs@, j as int),
                        decreases m - j,
                    {
                        let row = rs[j];
                        if row.2 != Value::Nil {
                            let ghost outp = out@;
                            out.push((VisitKey::Range(row.0, row.1), row.2));
                            proof {
                                assert(range_items(rs@, j as int) == seq![
                                    (VisitKey::Range(rs@[j as int].0, rs@[j as int].1), rs@[
                                        j as int
                                    ].2),
                                ] + range_items(rs@, (j + 1) as int));
                                assert(outp + range_items(rs@, j as int) =~= out@ + range_items(
                                    rs@,
                                    (j + 1) as int,
                                ));
                            }
                        }
                        j = j + 1;
                    }
                    proof {
                        assert(range_items(rs@, m as int) =~= Seq::<(VisitKey, Value)>::empty());
                        assert(out@ =~= out0 + range_items(rs@, 0));
                        assert(entry_items(es[i as int]) == range_items(rs@, 0));
                    }
                },
            }
            proof {
                assert(level_items_from(es, i as int) == entry_items(es[i as int])
                    + level_items_from(es, i + 1));
                assert(out0 + level_items_from(es, i as int) =~= out@ + level_items_from(
                    es,
                    i + 1,
                ));
            }
            i = i + 1;
        }
        proof {
            assert(level_items_from(es, n as int) =~= Seq::<(VisitKey, Value)>::empty());
            assert(out@ =~= level_items_from(es, 0));
        }
        out
    }
}

} // verus!

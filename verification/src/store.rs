//! The keymap store: every keymap of the process, the symbol cells the
//! resolver reads, the loader registry, and the process-wide reverse-lookup
//! cache state.
//!
//! Keymaps are shared: a handle (`usize`) names a keymap, and parent links
//! and nested prefix bindings refer to handles.  The store's invariant is
//! that every parent link names a stored keymap and that the parent graph
//! is acyclic, so every chain walk ends.

use vstd::prelude::*;

use crate::chain::ends;
use crate::chain::lemma_ends_push;
use crate::chain::terminates;
use crate::data::Event;
use crate::data::KmError;
use crate::data::Value;
use crate::data::VisitKey;
use crate::keymap::bind_tf;
use crate::keymap::dense_target;
use crate::keymap::km_wf;
use crate::keymap::lemma_dense_target;
use crate::keymap::lemma_pair_target;
use crate::keymap::pair_target;
use crate::keymap::Entry;
use crate::keymap::EntryV;
use crate::keymap::Keymap;
use crate::keymap::KeymapV;
use crate::keymap::DENSE_LIMIT;

verus! {

/// The reverse-lookup memo: the enumeration of one keymap (and its
/// ancestors), remembered together with the root it was built against.
pub struct RevCache {
    pub root: usize,
    pub items: Vec<(VisitKey, Value)>,
}

/// Mathematical image of `RevCache`.
#[verifier::ext_equal]
pub struct CacheV {
    pub root: usize,
    pub items: Seq<(VisitKey, Value)>,
}

impl View for RevCache {
    type V = CacheV;

    open spec fn view(&self) -> CacheV {
        CacheV { root: self.root, items: self.items@ }
    }
}

/// Mathematical image of the whole store.
#[verifier::ext_equal]
pub struct StoreV {
    pub maps: Seq<KeymapV>,
    pub fndefs: Seq<Value>,
    pub symvals: Seq<Value>,
    pub loads: Seq<Value>,
    pub generation: u64,
    pub cache: Option<CacheV>,
    pub quit_pending: bool,
    pub global_map: Value,
    pub local_map: Value,
}

/// The keymap store.
///
/// `fndefs` and `symvals` are the function and value cells of the host's
/// symbols, indexed by symbol id; `loads` maps an autoload descriptor to
/// the value its load installs into the symbol's function cell.
/// `generation` counts reverse-cache invalidations, for callers that need
/// to observe them.  `quit_pending` models the cooperative interrupt flag
/// that lookup polls between consumed events.
pub struct Store {
    pub maps: Vec<Keymap>,
    pub fndefs: Vec<Value>,
    pub symvals: Vec<Value>,
    pub loads: Vec<Value>,
    pub generation: u64,
    pub cache: Option<RevCache>,
    pub quit_pending: bool,
    pub global_map: Value,
    pub local_map: Value,
}

impl View for Store {
    type V = StoreV;

    open spec fn view(&self) -> StoreV {
        StoreV {
            maps: self.maps@.map_values(|m: Keymap| m@),
            fndefs: self.fndefs@,
            symvals: self.symvals@,
            loads: self.loads@,
            generation: self.generation,
            cache: match self.cache {
                Some(c) => Some(c@),
                None => None,
            },
            quit_pending: self.quit_pending,
            global_map: self.global_map,
            local_map: self.local_map,
        }
    }
}

/// The parent links of all keymaps, by handle.
pub open spec fn parents_of(st: StoreV) -> Seq<Option<usize>> {
    st.maps.map_values(|m: KeymapV| m.parent)
}

/// Store invariant: parent links name stored keymaps, every parent chain
/// ends (acyclicity), keymaps are individually well formed, and the two
/// symbol cell tables cover the same symbols.
pub open spec fn st_wf(st: StoreV) -> bool {
    &&& forall|h: int|
        0 <= h < st.maps.len() ==> match (#[trigger] st.maps[h]).parent {
            Some(p) => p < st.maps.len(),
            None => true,
        }
    &&& forall|h: int| 0 <= h < st.maps.len() ==> #[trigger] terminates(parents_of(st), h)
    &&& forall|h: int| 0 <= h < st.maps.len() ==> km_wf(#[trigger] st.maps[h])
    &&& st.fndefs.len() == st.symvals.len()
    &&& st.maps.len() <= usize::MAX
}

/// The symbol tables and loader registry agree between two store states.
pub open spec fn same_symbols(a: StoreV, b: StoreV) -> bool {
    &&& a.fndefs == b.fndefs
    &&& a.symvals == b.symvals
    &&& a.loads == b.loads
}

/// Everything outside the keymaps and symbol tables agrees between two
/// store states.
pub open spec fn same_misc(a: StoreV, b: StoreV) -> bool {
    &&& a.generation == b.generation
    &&& a.cache == b.cache
    &&& a.quit_pending == b.quit_pending
    &&& a.global_map == b.global_map
    &&& a.local_map == b.local_map
}

/// A row of `n` unpopulated dense-table slots.
pub open spec fn nil_row(n: nat) -> Seq<Value> {
    Seq::new(n, |i: int| Value::Nil)
}

/// Narrow a symbol id known to index a table of `n` cells.
pub fn sym_index(s: u64, n: usize) -> (i: usize)
    requires
        s < n as u64,
    ensures
        i as int == s as int,
        i < n,
{
    proof {
        assert(s <= usize::MAX as u64);
    }
    s as usize
}

/// Replace element `i` of a vector.
pub fn vec_set<T>(v: &mut Vec<T>, i: usize, x: T)
    requires
        i < old(v)@.len(),
    ensures
        final(v)@ == old(v)@.update(i as int, x),
{
    v.remove(i);
    v.insert(i, x);
    proof {
        assert(v@ =~= old(v)@.update(i as int, x));
    }
}

impl Store {
    /// Store well-formedness; every public operation preserves it.
    pub open spec fn wf(self) -> bool {
        st_wf(self@)
    }

    /// A fresh store: no keymaps, no symbols, empty cache, generation zero.
    pub fn new() -> (st: Store)
        ensures
            st.wf(),
            st@.maps.len() == 0,
            st@.fndefs.len() == 0,
            st@.symvals.len() == 0,
            st@.loads.len() == 0,
            st@.generation == 0,
            st@.cache == None::<CacheV>,
            !st@.quit_pending,
            st@.global_map == Value::Nil,
            st@.local_map == Value::Nil,
    {
        Store {
            maps: Vec::new(),
            fndefs: Vec::new(),
            symvals: Vec::new(),
            loads: Vec::new(),
            generation: 0,
            cache: None,
            quit_pending: false,
            global_map: Value::Nil,
            local_map: Value::Nil,
        }
    }

    /// Number of keymaps the store holds; handles below it are valid.
    pub fn num_keymaps(&self) -> (n: usize)
        ensures
            n == self@.maps.len(),
    {
        self.maps.len()
    }

    /// The reverse-cache invalidation counter.
    pub fn cache_generation(&self) -> (g: u64)
        ensures
            g == self@.generation,
    {
        self.generation
    }

    /// Whether a reverse-lookup memo is currently held.
    pub fn cache_present(&self) -> (b: bool)
        ensures
            b == (self@.cache != None::<CacheV>),
    {
        match &self.cache {
            Some(_) => true,
            None => false,
        }
    }

    /// Raw parent link of keymap `h`.
    pub fn parent_slot(&self, h: usize) -> (p: Option<usize>)
        requires
            h < self@.maps.len(),
        ensures
            p == self@.maps[h as int].parent,
    {
        self.maps[h].parent
    }

    /// Set the cooperative-interrupt flag that `lookup_key` polls.
    pub fn set_quit_pending(&mut self, b: bool)
        requires
            old(self).wf(),
        ensures
            final(self).wf(),
            final(self)@ == (StoreV { quit_pending: b, ..old(self)@ }),
    {
        self.quit_pending = b;
        proof {
            assert(self@ =~= StoreV { quit_pending: b, ..old(self)@ });
            assert(parents_of(self@) =~= parents_of(old(self)@));
        }
    }

    /// Append a fresh keymap with the given entries and no parent,
    /// returning its handle.
    fn push_keymap(&mut self, entries: Vec<Entry>) -> (h: usize)
        requires
            old(self).wf(),
            old(self)@.maps.len() < usize::MAX,
            km_wf(KeymapV { entries: entries@.map_values(|e: Entry| e@), parent: None, immutable: false }),
        ensures
            final(self).wf(),
            h == old(self)@.maps.len(),
            final(self)@ == (StoreV {
                maps: old(self)@.maps.push(
                    KeymapV {
                        entries: entries@.map_values(|e: Entry| e@),
                        parent: None,
                        immutable: false,
                    },
                ),
                ..old(self)@
            }),
    {
        let ghost entv = entries@.map_values(|e: Entry| e@);
        let h = self.maps.len();
        let km = Keymap { entries, parent: None, immutable: false };
        self.maps.push(km);
        proof {
            let stv = StoreV {
                maps: old(self)@.maps.push(KeymapV { entries: entv, parent: None, immutable: false }),
                ..old(self)@
            };
            assert(self@.maps =~= stv.maps);
            assert(self@ =~= stv);
            self.lemma_wf_after_push(*old(self));
        }
        h
    }

    /// Pushing a parentless keymap preserves the invariant.
    proof fn lemma_wf_after_push(self, prev: Store)
        requires
            prev.wf(),
            prev@.maps.len() < usize::MAX,
            self@.maps.len() == prev@.maps.len() + 1,
            forall|i: int| 0 <= i < prev@.maps.len() ==> self@.maps[i] == prev@.maps[i],
            self@.maps.last().parent == None::<usize>,
            km_wf(self@.maps.last()),
            self@.fndefs.len() == self@.symvals.len(),
        ensures
            self.wf(),
    {
        let ps = parents_of(prev@);
        let ps2 = parents_of(self@);
        assert(ps2 =~= ps.push(None));
        assert forall|h: int| 0 <= h < self@.maps.len() implies #[trigger] terminates(ps2, h) by {
            if h < prev@.maps.len() {
                assert(terminates(ps, h * 1));
                let f = choose|f: nat| ends(ps, h, f);
                lemma_ends_push(ps, h, f, None);
                assert(ends(ps2, h, f));
            } else {
                assert(ps2[h] == None::<usize>);
                assert(ends(ps2, h, 1));
            }
        }
    }

    /// Construct a new sparse keymap: only an optional menu prompt, an
    /// empty alist, no parent.  Returns its handle.
    pub fn make_sparse_keymap(&mut self, prompt: Option<u64>) -> (h: usize)
        requires
            old(self).wf(),
            old(self)@.maps.len() < usize::MAX,
        ensures
            final(self).wf(),
            h == old(self)@.maps.len(),
            final(self)@ == (StoreV {
                maps: old(self)@.maps.push(
                    KeymapV {
                        entries: match prompt {
                            Some(s) => seq![EntryV::Prompt(s)],
                            None => Seq::empty(),
                        },
                        parent: None,
                        immutable: false,
                    },
                ),
                ..old(self)@
            }),
    {
        let mut entries: Vec<Entry> = Vec::new();
        match prompt {
            Some(s) => {
                entries.push(Entry::Prompt(s));
            },
            None => {},
        }
        proof {
            match prompt {
                Some(s) => {
                    assert(entries@.map_values(|e: Entry| e@) =~= seq![EntryV::Prompt(s)]);
                },
                None => {
                    assert(entries@.map_values(|e: Entry| e@) =~= Seq::<EntryV>::empty());
                },
            }
        }
        self.push_keymap(entries)
    }

    /// Construct a new dense keymap: a dense table of `dense_len`
    /// unpopulated slots for plain character codes, then an optional menu
    /// prompt.  Returns its handle.
    pub fn make_keymap(&mut self, prompt: Option<u64>, dense_len: usize) -> (h: usize)
        requires
            old(self).wf(),
            old(self)@.maps.len() < usize::MAX,
            dense_len <= DENSE_LIMIT,
        ensures
            final(self).wf(),
            h == old(self)@.maps.len(),
            final(self)@ == (StoreV {
                maps: old(self)@.maps.push(
                    KeymapV {
                        entries: match prompt {
                            Some(s) => seq![EntryV::Dense(nil_row(dense_len as nat)), EntryV::Prompt(s)],
                            None => seq![EntryV::Dense(nil_row(dense_len as nat))],
                        },
                        parent: None,
                        immutable: false,
                    },
                ),
                ..old(self)@
            }),
    {
        let mut row: Vec<Value> = Vec::new();
        let mut i: usize = 0;
        while i < dense_len
            invariant
                0 <= i <= dense_len,
                row@.len() == i,
                forall|j: int| 0 <= j < i ==> row@[j] == Value::Nil,
            decreases dense_len - i,
        {
            row.push(Value::Nil);
            i = i + 1;
        }
        proof {
            assert(row@ =~= nil_row(dense_len as nat));
        }
        let mut entries: Vec<Entry> = Vec::new();
        entries.push(Entry::Dense(row));
        match prompt {
            Some(s) => {
                entries.push(Entry::Prompt(s));
            },
            None => {},
        }
        proof {
            match prompt {
                Some(s) => {
                    assert(entries@.map_values(|e: Entry| e@) =~= seq![
                        EntryV::Dense(nil_row(dense_len as nat)),
                        EntryV::Prompt(s),
                    ]);
                },
                None => {
                    assert(entries@.map_values(|e: Entry| e@) =~= seq![
                        EntryV::Dense(nil_row(dense_len as nat)),
                    ]);
                },
            }
        }
        self.push_keymap(entries)
    }

    /// Create a fresh symbol with empty value and function cells; returns
    /// its id.
    pub fn new_symbol(&mut self) -> (s: u64)
        requires
            old(self).wf(),
            old(self)@.fndefs.len() < u64::MAX,
        ensures
            final(self).wf(),
            s == old(self)@.fndefs.len(),
            final(self)@ == (StoreV {
                fndefs: old(self)@.fndefs.push(Value::Nil),
                symvals: old(self)@.symvals.push(Value::Nil),
                ..old(self)@
            }),
    {
        let s = self.fndefs.len() as u64;
        self.fndefs.push(Value::Nil);
        self.symvals.push(Value::Nil);
        proof {
            assert(self@ =~= StoreV {
                fndefs: old(self)@.fndefs.push(Value::Nil),
                symvals: old(self)@.symvals.push(Value::Nil),
                ..old(self)@
            });
            assert(parents_of(self@) =~= parents_of(old(self)@));
        }
        s
    }

    /// Set symbol `s`'s function cell (the binding the resolver follows).
    pub fn set_function(&mut self, s: u64, v: Value)
        requires
            old(self).wf(),
            s < old(self)@.fndefs.len(),
        ensures
            final(self).wf(),
            final(self)@ == (StoreV { fndefs: old(self)@.fndefs.update(s as int, v), ..old(self)@ }),
    {
        let n = self.fndefs.len();
        let i = sym_index(s, n);
        vec_set(&mut self.fndefs, i, v);
        proof {
            assert(self@ =~= StoreV {
                fndefs: old(self)@.fndefs.update(s as int, v),
                ..old(self)@
            });
            assert(parents_of(self@) =~= parents_of(old(self)@));
        }
    }

    /// Set symbol `s`'s value cell.
    pub fn set_value(&mut self, s: u64, v: Value)
        requires
            old(self).wf(),
            s < old(self)@.symvals.len(),
        ensures
            final(self).wf(),
            final(self)@ == (StoreV { symvals: old(self)@.symvals.update(s as int, v), ..old(self)@ }),
    {
        let n = self.symvals.len();
        let i = sym_index(s, n);
        vec_set(&mut self.symvals, i, v);
        proof {
            assert(self@ =~= StoreV {
                symvals: old(self)@.symvals.update(s as int, v),
                ..old(self)@
            });
            assert(parents_of(self@) =~= parents_of(old(self)@));
        }
    }

    /// Register what a load of autoload descriptor `d` installs into the
    /// loaded symbol's function cell; returns `d`.
    pub fn new_autoload(&mut self, target: Value) -> (d: u64)
        requires
            old(self).wf(),
            old(self)@.loads.len() < u64::MAX,
        ensures
            final(self).wf(),
            d == old(self)@.loads.len(),
            final(self)@ == (StoreV { loads: old(self)@.loads.push(target), ..old(self)@ }),
    {
        let d = self.loads.len() as u64;
        self.loads.push(target);
        proof {
            assert(self@ =~= StoreV { loads: old(self)@.loads.push(target), ..old(self)@ });
            assert(parents_of(self@) =~= parents_of(old(self)@));
        }
        d
    }

    /// Mark keymap `h` immutable: later mutations fail with
    /// `ImmutableKeymap`.
    pub fn mark_immutable(&mut self, h: usize)
        requires
            old(self).wf(),
            h < old(self)@.maps.len(),
        ensures
            final(self).wf(),
            final(self)@ == (StoreV {
                maps: old(self)@.maps.update(
                    h as int,
                    KeymapV { immutable: true, ..old(self)@.maps[h as int] },
                ),
                ..old(self)@
            }),
    {
        let mut km = self.maps.remove(h);
        km.immutable = true;
        self.maps.insert(h, km);
        proof {
            let stv = StoreV {
                maps: old(self)@.maps.update(
                    h as int,
                    KeymapV { immutable: true, ..old(self)@.maps[h as int] },
                ),
                ..old(self)@
            };
            assert(self@.maps =~= stv.maps);
            assert(self@ =~= stv);
            assert(parents_of(self@) =~= parents_of(old(self)@));
        }
    }

    /// Index of the first dense-table entry covering character `c`.
    fn find_dense_target(entries: &Vec<Entry>, c: u32) -> (r: Option<usize>)
        ensures
            match r {
                Some(i) => i as int == dense_target(entries@.map_values(|e: Entry| e@), c, 0),
                None => dense_target(entries@.map_values(|e: Entry| e@), c, 0) == -1,
            },
    {
        let ghost es = entries@.map_values(|e: Entry| e@);
        let n: usize = entries.len();
        let mut i: usize = 0;
        while i < n
            invariant
                n == es.len(),
                es == entries@.map_values(|e: Entry| e@),
                0 <= i <= n,
                dense_target(es, c, 0) == dense_target(es, c, i as int),
            decreases n - i,
        {
            match &entries[i] {
                Entry::Dense(v) => {
                    if (c as usize) < v.len() {
                        return Some(i);
                    }
                },
                _ => {},
            }
            i = i + 1;
        }
        None
    }

    /// Index of the first `Pair` entry keyed by `e`.
    fn find_pair_target(entries: &Vec<Entry>, e: Event) -> (r: Option<usize>)
        ensures
            match r {
                Some(i) => i as int == pair_target(entries@.map_values(|x: Entry| x@), e, 0),
                None => pair_target(entries@.map_values(|x: Entry| x@), e, 0) == -1,
            },
    {
        let ghost es = entries@.map_values(|x: Entry| x@);
        let n: usize = entries.len();
        let mut i: usize = 0;
        while i < n
            invariant
                n == es.len(),
                es == entries@.map_values(|x: Entry| x@),
                0 <= i <= n,
                pair_target(es, e, 0) == pair_target(es, e, i as int),
            decreases n - i,
        {
            match &entries[i] {
                Entry::Pair(e2, _) => {
                    if *e2 == e {
                        return Some(i);
                    }
                },
                _ => {},
            }
            i = i + 1;
        }
        None
    }

    /// Bind event `e` to `b` in keymap `h`.
    ///
    /// A plain character whose code a dense table of the keymap covers is
    /// written into that table slot; any other event rebinds the first
    /// `Pair` entry with the same key, or appends a new one.  Fails with
    /// `ImmutableKeymap` on a protected keymap, changing nothing.  Binding
    /// insertion leaves the reverse-lookup cache alone: callers doing bulk
    /// rebinds invalidate it explicitly (see `invalidate_cache`).
    pub fn define_binding(&mut self, h: usize, e: Event, b: Value) -> (r: Result<(), KmError>)
        requires
            old(self).wf(),
            h < old(self)@.maps.len(),
        ensures
            final(self).wf(),
            old(self)@.maps[h as int].immutable ==> r == Err::<(), KmError>(
                KmError::ImmutableKeymap,
            ) && final(self)@ == old(self)@,
            !old(self)@.maps[h as int].immutable ==> r == Ok::<(), KmError>(()) && final(self)@
                == (StoreV {
                maps: old(self)@.maps.update(
                    h as int,
                    KeymapV {
                        entries: bind_tf(old(self)@.maps[h as int].entries, e, b),
                        ..old(self)@.maps[h as int]
                    },
                ),
                ..old(self)@
            }),
    {
        let ghost mv = old(self)@.maps[h as int];
        if self.maps[h].immutable {
            return Err(KmError::ImmutableKeymap);
        }
        let mut km = self.maps.remove(h);
        let ghost es = km@.entries;
        proof {
            assert(es == mv.entries);
        }
        let dense_idx: Option<usize> = match e {
            Event::Char(c) => Self::find_dense_target(&km.entries, c),
            _ => None,
        };
        match dense_idx {
            Some(di) => {
                let ghost c0: u32 = match e {
                    Event::Char(c) => c,
                    _ => 0,
                };
                proof {
                    lemma_dense_target(es, c0, 0);
                }
                let entry = km.entries.remove(di);
                match entry {
                    Entry::Dense(mut v) => {
                        let c: u32 = match e {
                            Event::Char(c) => c,
                            _ => 0,
                        };
                        vec_set(&mut v, c as usize, b);
                        km.entries.insert(di, Entry::Dense(v));
                        proof {
                            assert(km@.entries =~= bind_tf(es, e, b));
                        }
                    },
                    // the found target is always a dense entry
                    other => {
                        proof {
                            assert(false);
                        }
                        km.entries.insert(di, other);
                    },
                }
            },
            None => {
                match Self::find_pair_target(&km.entries, e) {
                    Some(pi) => {
                        proof {
                            lemma_pair_target(es, e, 0);
                        }
                        km.entries.remove(pi);
                        km.entries.insert(pi, Entry::Pair(e, b));
                        proof {
                            assert(km@.entries =~= bind_tf(es, e, b));
                        }
                    },
                    None => {
                        km.entries.push(Entry::Pair(e, b));
                        proof {
                            assert(km@.entries =~= bind_tf(es, e, b));
                        }
                    },
                }
            },
        }
        self.maps.insert(h, km);
        proof {
            self.lemma_wf_after_entries_change(*old(self), h as int, bind_tf(es, e, b));
        }
        Ok(())
    }

    /// Append a range-table entry binding the inclusive character range
    /// `lo..=hi` to `b` in keymap `h`.  Fails with `ImmutableKeymap` on a
    /// protected keymap, changing nothing.
    pub fn define_range_binding(&mut self, h: usize, lo: u32, hi: u32, b: Value) -> (r: Result<
        (),
        KmError,
    >)
        requires
            old(self).wf(),
            h < old(self)@.maps.len(),
        ensures
            final(self).wf(),
            old(self)@.maps[h as int].immutable ==> r == Err::<(), KmError>(
                KmError::ImmutableKeymap,
            ) && final(self)@ == old(self)@,
            !old(self)@.maps[h as int].immutable ==> r == Ok::<(), KmError>(()) && final(self)@
                == (StoreV {
                maps: old(self)@.maps.update(
                    h as int,
                    KeymapV {
                        entries: old(self)@.maps[h as int].entries.push(
                            EntryV::Ranges(seq![(lo, hi, b)]),
                        ),
                        ..old(self)@.maps[h as int]
                    },
                ),
                ..old(self)@
            }),
    {
        let ghost mv = old(self)@.maps[h as int];
        if self.maps[h].immutable {
            return Err(KmError::ImmutableKeymap);
        }
        let mut km = self.maps.remove(h);
        let ghost es = km@.entries;
        let mut row: Vec<(u32, u32, Value)> = Vec::new();
        row.push((lo, hi, b));
        km.entries.push(Entry::Ranges(row));
        proof {
            assert(km@.entries =~= es.push(EntryV::Ranges(seq![(lo, hi, b)])));
        }
        self.maps.insert(h, km);
        proof {
            self.lemma_wf_after_entries_change(
                *old(self),
                h as int,
                es.push(EntryV::Ranges(seq![(lo, hi, b)])),
            );
        }
        Ok(())
    }

    /// Replacing the entries of one keymap with equally well-formed
    /// entries, parent and mark untouched, preserves the invariant and
    /// pins the new state.
    proof fn lemma_wf_after_entries_change(self, prev: Store, h: int, es2: Seq<EntryV>)
        requires
            prev.wf(),
            0 <= h < prev@.maps.len(),
            km_wf(KeymapV { entries: es2, ..prev@.maps[h] }),
            self@.maps =~= prev@.maps.update(h, KeymapV { entries: es2, ..prev@.maps[h] }),
            same_symbols(self@, prev@),
            same_misc(self@, prev@),
        ensures
            self.wf(),
            self@ == (StoreV {
                maps: prev@.maps.update(h, KeymapV { entries: es2, ..prev@.maps[h] }),
                ..prev@
            }),
    {
        assert(parents_of(self@) =~= parents_of(prev@));
        assert(self@ =~= StoreV {
            maps: prev@.maps.update(h, KeymapV { entries: es2, ..prev@.maps[h] }),
            ..prev@
        });
    }

    /// Define `command` as a prefix command: a fresh sparse keymap (with
    /// the optional menu prompt `name`) is stored as `command`'s function
    /// definition, and as the value of `mapvar` — or of `command` itself
    /// when no `mapvar` is given.  Returns `command`.
    pub fn define_prefix_command(&mut self, command: u64, mapvar: Option<u64>, name: Option<u64>)
        -> (r: u64)
        requires
            old(self).wf(),
            old(self)@.maps.len() < usize::MAX,
            command < old(self)@.fndefs.len(),
            match mapvar {
                Some(mv) => mv < old(self)@.symvals.len(),
                None => true,
            },
        ensures
            final(self).wf(),
            r == command,
            final(self)@ == (StoreV {
                maps: old(self)@.maps.push(
                    KeymapV {
                        entries: match name {
                            Some(s) => seq![EntryV::Prompt(s)],
                            None => Seq::empty(),
                        },
                        parent: None,
                        immutable: false,
                    },
                ),
                fndefs: old(self)@.fndefs.update(
                    command as int,
                    Value::Keymap(old(self)@.maps.len() as usize),
                ),
                symvals: old(self)@.symvals.update(
                    match mapvar {
                        Some(mv) => mv as int,
                        None => command as int,
                    },
                    Value::Keymap(old(self)@.maps.len() as usize),
                ),
                ..old(self)@
            }),
    {
        let h = self.make_sparse_keymap(name);
        self.set_function(command, Value::Keymap(h));
        match mapvar {
            Some(mv) => self.set_value(mv, Value::Keymap(h)),
            None => self.set_value(command, Value::Keymap(h)),
        }
        proof {
            assert(self@ =~= StoreV {
                maps: old(self)@.maps.push(
                    KeymapV {
                        entries: match name {
                            Some(s) => seq![EntryV::Prompt(s)],
                            None => Seq::<EntryV>::empty(),
                        },
                        parent: None,
                        immutable: false,
                    },
                ),
                fndefs: old(self)@.fndefs.update(
                    command as int,
                    Value::Keymap(old(self)@.maps.len() as usize),
                ),
                symvals: old(self)@.symvals.update(
                    match mapvar {
                        Some(mv) => mv as int,
                        None => command as int,
                    },
                    Value::Keymap(old(self)@.maps.len() as usize),
                ),
                ..old(self)@
            });
        }
        command
    }
}

} // verus!

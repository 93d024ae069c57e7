//! The traversal engine: enumerate every (key, binding) pair reachable
//! from a keymap, merging the three physical binding encodings, optionally
//! walking the whole ancestor chain; and read a keymap's menu prompt.
//!
//! Each binding is reported exactly once per physical occurrence, in the
//! keymap's own storage order (ascending slot order inside a dense table,
//! row order inside a range table).  A parent is never reported as a
//! binding — only its own entries are, after the child's.

use vstd::prelude::*;

use crate::chain::ends;
use crate::chain::terminates;
use crate::data::KmError;
use crate::data::Value;
use crate::data::VisitKey;
use crate::keymap::level_items_from;
use crate::keymap::prompt_from;
use crate::lookup::chain_fuel;
use crate::resolve::lemma_resolve_strict;
use crate::resolve::resolve_fns;
use crate::resolve::resolve_now;
use crate::resolve::resolve_res;
use crate::resolve::ResolveStep;
use crate::store::parents_of;
use crate::store::Store;
use crate::store::StoreV;

verus! {

/// Enumeration of keymap `h` and its ancestors, walking at most `fuel`
/// parent links: the keymap's own entries first, then the parent's, and
/// so on.
pub open spec fn chain_items(st: StoreV, h: int, fuel: nat) -> Seq<(VisitKey, Value)>
    decreases fuel,
{
    if fuel == 0 || !(0 <= h < st.maps.len()) {
        Seq::empty()
    } else {
        level_items_from(st.maps[h].entries, 0) + match st.maps[h].parent {
            None => Seq::empty(),
            Some(p) => chain_items(st, p as int, (fuel - 1) as nat),
        }
    }
}

/// Any two sufficient chain budgets enumerate the same items.
pub proof fn lemma_chain_items_fuel(st: StoreV, h: int, f1: nat, f2: nat)
    requires
        ends(parents_of(st), h, f1),
        ends(parents_of(st), h, f2),
        st.maps.len() <= usize::MAX,
    ensures
        chain_items(st, h, f1) == chain_items(st, h, f2),
    decreases f1,
{
    if 0 <= h < st.maps.len() {
        match st.maps[h].parent {
            None => {},
            Some(p) => {
                assert(parents_of(st)[h] == Some(p));
                lemma_chain_items_fuel(st, p as int, (f1 - 1) as nat, (f2 - 1) as nat);
            },
        }
    }
}

/// Enumeration of keymap `h` and all its ancestors.
pub open spec fn visit_sp(st: StoreV, h: int) -> Seq<(VisitKey, Value)> {
    chain_items(st, h, chain_fuel(st, h))
}

/// State and result of `map_keymap(keymap, autoload)`: resolve `keymap`
/// and enumerate it with its whole ancestor chain.  Without `autoload`, a
/// value that resolves only to an unloaded descriptor symbol has no
/// entries to walk and yields nothing.
pub open spec fn map_keymap_sp(st: StoreV, keymap: Value, autoload: bool) -> (StoreV, Result<
    Seq<(VisitKey, Value)>,
    KmError,
>) {
    let st1 = StoreV {
        fndefs: resolve_fns(st.maps.len(), st.fndefs, st.loads, keymap, true, autoload),
        ..st
    };
    match resolve_res(st.maps.len(), st.fndefs, st.loads, keymap, true, autoload) {
        Err(e) => (st1, Err(e)),
        Ok(w) => match w {
            Value::Keymap(h) => (st1, Ok(visit_sp(st1, h as int))),
            _ => (st1, Ok(Seq::empty())),
        },
    }
}

/// First prompt of keymap `h` or its ancestors, walking at most `fuel`
/// parent links.
pub open spec fn prompt_at(st: StoreV, h: int, fuel: nat) -> Value
    decreases fuel,
{
    if fuel == 0 || !(0 <= h < st.maps.len()) {
        Value::Nil
    } else {
        match prompt_from(st.maps[h].entries, 0) {
            Some(s) => Value::Str(s),
            None => match st.maps[h].parent {
                None => Value::Nil,
                Some(p) => prompt_at(st, p as int, (fuel - 1) as nat),
            },
        }
    }
}

/// Any two sufficient chain budgets find the same prompt.
proof fn lemma_prompt_at_fuel(st: StoreV, h: int, f1: nat, f2: nat)
    requires
        ends(parents_of(st), h, f1),
        ends(parents_of(st), h, f2),
        st.maps.len() <= usize::MAX,
    ensures
        prompt_at(st, h, f1) == prompt_at(st, h, f2),
    decreases f1,
{
    if 0 <= h < st.maps.len() {
        match st.maps[h].parent {
            None => {},
            Some(p) => {
                assert(parents_of(st)[h] == Some(p));
                lemma_prompt_at_fuel(st, p as int, (f1 - 1) as nat, (f2 - 1) as nat);
            },
        }
    }
}

/// What `keymap_prompt(map)` returns: the first prompt string of the
/// keymap `map` resolves to (no loading) or of its ancestors, `Nil` for
/// none or when `map` is no keymap.
pub open spec fn keymap_prompt_sp(st: StoreV, map: Value) -> Value {
    match resolve_now(st.maps.len(), st.fndefs, map, false, false) {
        ResolveStep::Done(r) => match r {
            Ok(w) => match w {
                Value::Keymap(h) => prompt_at(st, h as int, chain_fuel(st, h as int)),
                _ => Value::Nil,
            },
            Err(_) => Value::Nil,
        },
        ResolveStep::NeedLoad(_, _) => Value::Nil,
    }
}

impl Store {
    /// Enumerate keymap `h` together with its whole ancestor chain, the
    /// keymap's own entries first.
    pub fn collect_chain(&self, h: usize) -> (r: Vec<(VisitKey, Value)>)
        requires
            self.wf(),
            h < self@.maps.len(),
        ensures
            r@ == visit_sp(self@, h as int),
    {
        let ghost st = self@;
        let ghost ps = parents_of(st);
        let mut out: Vec<(VisitKey, Value)> = Vec::new();
        let mut cur: usize = h;
        let ghost mut fuel: nat = 0;
        proof {
            assert(terminates(ps, h as int));
            fuel = choose|f: nat| ends(ps, h as int, f);
            assert(ends(ps, h as int, chain_fuel(st, h as int)));
            lemma_chain_items_fuel(st, h as int, chain_fuel(st, h as int), fuel);
        }
        loop
            invariant
                self.wf(),
                st == self@,
                ps == parents_of(st),
                cur < st.maps.len(),
                ends(ps, cur as int, fuel),
                visit_sp(st, h as int) == out@ + chain_items(st, cur as int, fuel),
            decreases fuel,
        {
            let ghost out0 = out@;
            let mut level = self.maps[cur].collect_items();
            out.append(&mut level);
            proof {
                assert(out@ =~= out0 + level_items_from(st.maps[cur as int].entries, 0));
            }
            match self.maps[cur].parent {
                Some(p) => {
                    proof {
                        assert(chain_items(st, cur as int, fuel) =~= level_items_from(
                            st.maps[cur as int].entries,
                            0,
                        ) + chain_items(st, p as int, (fuel - 1) as nat));
                        assert(visit_sp(st, h as int) =~= out@ + chain_items(
                            st,
                            p as int,
                            (fuel - 1) as nat,
                        ));
                        fuel = (fuel - 1) as nat;
                    }
                    cur = p;
                },
                None => {
                    proof {
                        assert(chain_items(st, cur as int, fuel) =~= level_items_from(
                            st.maps[cur as int].entries,
                            0,
                        ) + Seq::<(VisitKey, Value)>::empty());
                        assert(visit_sp(st, h as int) =~= out@);
                    }
                    return out;
                },
            }
        }
    }

    /// Enumerate one level of `keymap`: resolve it (loading on demand),
    /// report its own entries only, and return the parent as the
    /// remainder (`Nil` for none) for the caller to continue with.
    pub fn map_keymap_internal(&mut self, keymap: Value) -> (r: Result<
        (Vec<(VisitKey, Value)>, Value),
        KmError,
    >)
        requires
            old(self).wf(),
        ensures
            final(self).wf(),
            final(self)@ == (StoreV {
                fndefs: resolve_fns(
                    old(self)@.maps.len(),
                    old(self)@.fndefs,
                    old(self)@.loads,
                    keymap,
                    true,
                    true,
                ),
                ..old(self)@
            }),
            match resolve_res(
                old(self)@.maps.len(),
                old(self)@.fndefs,
                old(self)@.loads,
                keymap,
                true,
                true,
            ) {
                Err(e) => r == Err::<(Vec<(VisitKey, Value)>, Value), KmError>(e),
                Ok(w) => match w {
                    Value::Keymap(h) => r is Ok && r->Ok_0.0@ == level_items_from(
                        old(self)@.maps[h as int].entries,
                        0,
                    ) && r->Ok_0.1 == crate::parent::parent_value(old(self)@, h as int),
                    _ => r is Ok,
                },
            },
    {
        let ghost st0 = self@;
        let hres = self.get_keymap(keymap, true, true);
        proof {
            lemma_resolve_strict(st0.maps.len(), st0.fndefs, st0.loads, keymap, true);
        }
        match hres {
            Err(e) => Err(e),
            Ok(w) => {
                match w {
                    Value::Keymap(h) => {
                        let items = self.maps[h].collect_items();
                        let rem: Value = match self.maps[h].parent {
                            Some(p) => Value::Keymap(p),
                            None => Value::Nil,
                        };
                        Ok((items, rem))
                    },
                    // under error_if_not_keymap only a stored handle comes back
                    _ => {
                        proof {
                            assert(false);
                        }
                        Ok((Vec::new(), Value::Nil))
                    },
                }
            },
        }
    }

    /// Enumerate every binding of `keymap` and, recursively, of its whole
    /// ancestor chain; `autoload` lets the entry resolution load a
    /// deferred keymap.  An embedded parent is never reported as a
    /// binding: only its own entries are.
    pub fn map_keymap(&mut self, keymap: Value, autoload: bool) -> (r: Result<
        Vec<(VisitKey, Value)>,
        KmError,
    >)
        requires
            old(self).wf(),
        ensures
            final(self).wf(),
            final(self)@ == map_keymap_sp(old(self)@, keymap, autoload).0,
            match map_keymap_sp(old(self)@, keymap, autoload).1 {
                Ok(items) => r is Ok && r->Ok_0@ == items,
                Err(e) => r == Err::<Vec<(VisitKey, Value)>, KmError>(e),
            },
    {
        let ghost st0 = self@;
        let hres = self.get_keymap(keymap, true, autoload);
        match hres {
            Err(e) => Err(e),
            Ok(w) => {
                match w {
                    Value::Keymap(h) => {
                        let items = self.collect_chain(h);
                        proof {
                            assert(visit_sp(self@, h as int) =~= visit_sp(
                                map_keymap_sp(st0, keymap, autoload).0,
                                h as int,
                            ));
                        }
                        Ok(items)
                    },
                    _ => Ok(Vec::new()),
                }
            },
        }
    }

    /// The menu prompt of `map`: the first prompt string of the keymap it
    /// resolves to (no loading) or of its ancestors; `Nil` for none.
    pub fn keymap_prompt(&self, map: Value) -> (r: Value)
        requires
            self.wf(),
        ensures
            r == keymap_prompt_sp(self@, map),
    {
        let ghost st = self@;
        let ghost ps = parents_of(st);
        let h0: usize = match self.resolve_once(map, false, false) {
            ResolveStep::Done(rr) => {
                match rr {
                    Ok(w) => {
                        match w {
                            Value::Keymap(h) => h,
                            _ => {
                                return Value::Nil;
                            },
                        }
                    },
                    Err(_) => {
                        return Value::Nil;
                    },
                }
            },
            ResolveStep::NeedLoad(_, _) => {
                return Value::Nil;
            },
        };
        let mut cur: usize = h0;
        let ghost mut fuel: nat = 0;
        proof {
            assert(terminates(ps, h0 as int));
            fuel = choose|f: nat| ends(ps, h0 as int, f);
            assert(ends(ps, h0 as int, chain_fuel(st, h0 as int)));
            lemma_prompt_at_fuel(st, h0 as int, chain_fuel(st, h0 as int), fuel);
        }
        loop
            invariant
                self.wf(),
                st == self@,
                ps == parents_of(st),
                cur < st.maps.len(),
                ends(ps, cur as int, fuel),
                keymap_prompt_sp(st, map) == prompt_at(st, cur as int, fuel),
            decreases fuel,
        {
            match self.maps[cur].own_prompt() {
                Some(s) => {
                    return Value::Str(s);
                },
                None => {
                    match self.maps[cur].parent {
                        Some(p) => {
                            proof {
                                fuel = (fuel - 1) as nat;
                            }
                            cur = p;
                        },
                        None => {
                            return Value::Nil;
                        },
                    }
                },
            }
        }
    }
}

} // verus!

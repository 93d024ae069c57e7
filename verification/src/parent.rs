//! Parent-chain operations: read a keymap's parent, test ancestry, and
//! attach a parent while keeping the inheritance graph acyclic.
//!
//! Attaching a parent flushes the reverse-lookup cache and advances the
//! invalidation generation before anything else, whether or not the
//! attachment succeeds: the topology may be about to change, and stale
//! reverse-lookup results must not survive it.

use vstd::prelude::*;

use crate::chain::ends;
use crate::chain::in_chain;
use crate::chain::lemma_ends_update_all;
use crate::chain::lemma_ends_update_avoiding;
use crate::chain::reaches;
use crate::chain::terminates;
use crate::data::KmError;
use crate::data::Value;
use crate::keymap::KeymapV;
use crate::resolve::keymapp_sp;
use crate::resolve::lemma_resolve_strict;
use crate::resolve::ResolveStep;
use crate::resolve::resolve_fns;
use crate::resolve::resolve_res;
use crate::store::parents_of;
use crate::store::st_wf;
use crate::store::CacheV;
use crate::store::Store;
use crate::store::StoreV;

verus! {

/// The parent of keymap `h` as a value: its handle, or `Nil` for none.
pub open spec fn parent_value(st: StoreV, h: int) -> Value {
    match st.maps[h].parent {
        Some(p) => Value::Keymap(p),
        None => Value::Nil,
    }
}

/// What `keymap_parent(v)` returns: resolve `v`, then read its parent
/// link.  A value that resolves only to an unloaded descriptor symbol has
/// no readable parent and yields `Nil`.
pub open spec fn keymap_parent_sp(st: StoreV, v: Value, autoload: bool) -> Result<
    Value,
    KmError,
> {
    match resolve_res(st.maps.len(), st.fndefs, st.loads, v, true, autoload) {
        Err(e) => Err(e),
        Ok(w) => match w {
            Value::Keymap(h) => Ok(parent_value(st, h as int)),
            _ => Ok(Value::Nil),
        },
    }
}

/// One step of the ancestor walk from `cur`: the parent of the keymap
/// `cur` resolves to (without loading), `Nil` when there is none or when
/// `cur` does not resolve that far.
pub open spec fn next_of(st: StoreV, cur: Value) -> Value {
    match resolve_res(st.maps.len(), st.fndefs, st.loads, cur, true, false) {
        Ok(w) => match w {
            Value::Keymap(h) => parent_value(st, h as int),
            _ => Value::Nil,
        },
        Err(_) => Value::Nil,
    }
}

/// The ancestor walk from `cur` meets `target` within `fuel` steps.  The
/// walk stops at the first value that is not keymap-shaped; `target`
/// itself is compared first, so a walk starting at `target` succeeds at
/// once.
pub open spec fn memberp_from(st: StoreV, target: Value, cur: Value, fuel: nat) -> bool
    decreases fuel,
{
    if cur == target {
        true
    } else if !keymapp_sp(st.maps.len(), st.fndefs, cur) {
        false
    } else if fuel == 0 {
        false
    } else {
        memberp_from(st, target, next_of(st, cur), (fuel - 1) as nat)
    }
}

/// What `keymap_memberp(target, start)` returns: `target` is non-nil and
/// the ancestor walk from `start` meets it.
pub open spec fn memberp_sp(st: StoreV, target: Value, start: Value) -> bool {
    target != Value::Nil && exists|fuel: nat| memberp_from(st, target, start, fuel)
}

/// The ancestor walk from `cur` leaves keymap-shaped values within `fuel`
/// steps.
pub open spec fn walk_ends(st: StoreV, cur: Value, fuel: nat) -> bool
    decreases fuel,
{
    if !keymapp_sp(st.maps.len(), st.fndefs, cur) {
        true
    } else if fuel == 0 {
        false
    } else {
        walk_ends(st, next_of(st, cur), (fuel - 1) as nat)
    }
}

/// A walk starting at a stored handle ends within the handle's chain
/// budget plus one.
proof fn lemma_walk_ends_handle(st: StoreV, h: int, f: nat)
    requires
        st_wf(st),
        0 <= h < st.maps.len(),
        ends(parents_of(st), h, f),
    ensures
        walk_ends(st, Value::Keymap(h as usize), f + 1),
    decreases f,
{
    assert(keymapp_sp(st.maps.len(), st.fndefs, Value::Keymap(h as usize)));
    assert(f >= 1);
    match st.maps[h].parent {
        None => {
            assert(next_of(st, Value::Keymap(h as usize)) == Value::Nil);
            assert(!keymapp_sp(st.maps.len(), st.fndefs, Value::Nil));
            assert(walk_ends(st, Value::Nil, f));
        },
        Some(p) => {
            assert(parents_of(st)[h] == Some(p));
            lemma_walk_ends_handle(st, p as int, (f - 1) as nat);
            assert(next_of(st, Value::Keymap(h as usize)) == Value::Keymap(p));
            assert(walk_ends(st, Value::Keymap(p), ((f - 1) as nat) + 1));
            assert(((f - 1) as nat) + 1 == f);
        },
    }
}

/// Under the store invariant, the ancestor walk from any value ends.
pub proof fn lemma_walk_terminates(st: StoreV, cur: Value) -> (f: nat)
    requires
        st_wf(st),
    ensures
        walk_ends(st, cur, f),
{
    if !keymapp_sp(st.maps.len(), st.fndefs, cur) {
        assert(walk_ends(st, cur, 1));
        1
    } else {
        let nx = next_of(st, cur);
        match nx {
            Value::Keymap(p) => {
                if p < st.maps.len() {
                    assert(terminates(parents_of(st), p as int));
                    let fp = choose|f: nat| ends(parents_of(st), p as int, f);
                    lemma_walk_ends_handle(st, p as int, fp);
                    assert(walk_ends(st, nx, fp + 1));
                    assert(walk_ends(st, cur, fp + 2));
                    fp + 2
                } else {
                    assert(!keymapp_sp(st.maps.len(), st.fndefs, nx));
                    assert(walk_ends(st, nx, 1));
                    assert(walk_ends(st, cur, 2));
                    2
                }
            },
            _ => {
                assert(!keymapp_sp(st.maps.len(), st.fndefs, nx));
                assert(walk_ends(st, nx, 1));
                assert(walk_ends(st, cur, 2));
                2
            },
        }
    }
}

/// Stepping the walk once preserves and reflects eventual membership.
proof fn lemma_memberp_step(st: StoreV, target: Value, cur: Value)
    requires
        cur != target,
        keymapp_sp(st.maps.len(), st.fndefs, cur),
    ensures
        (exists|f: nat| memberp_from(st, target, cur, f)) <==> (exists|f: nat|
            memberp_from(st, target, next_of(st, cur), f)),
{
    if exists|f: nat| memberp_from(st, target, cur, f) {
        let f = choose|f: nat| memberp_from(st, target, cur, f);
        assert(memberp_from(st, target, next_of(st, cur), (f - 1) as nat));
    }
    if exists|f: nat| memberp_from(st, target, next_of(st, cur), f) {
        let f = choose|f: nat| memberp_from(st, target, next_of(st, cur), f);
        assert(memberp_from(st, target, cur, f + 1));
    }
}

/// On stored handles, the ancestor walk is exactly chain membership.
proof fn lemma_memberp_handles(st: StoreV, k: int, p: int, f: nat)
    requires
        st_wf(st),
        0 <= k < st.maps.len(),
        0 <= p < st.maps.len(),
    ensures
        memberp_from(st, Value::Keymap(k as usize), Value::Keymap(p as usize), f)
            == in_chain(parents_of(st), p, k, f),
    decreases f,
{
    let ps = parents_of(st);
    if p == k {
    } else if f == 0 {
    } else {
        assert(keymapp_sp(st.maps.len(), st.fndefs, Value::Keymap(p as usize)));
        assert(Value::Keymap(p as usize) != Value::Keymap(k as usize));
        match st.maps[p].parent {
            None => {
                assert(ps[p] == None::<usize>);
                assert(next_of(st, Value::Keymap(p as usize)) == Value::Nil);
                assert(!memberp_from(st, Value::Keymap(k as usize), Value::Nil, (f - 1) as nat));
            },
            Some(q) => {
                assert(ps[p] == Some(q));
                assert(next_of(st, Value::Keymap(p as usize)) == Value::Keymap(q));
                lemma_memberp_handles(st, k, q as int, (f - 1) as nat);
            },
        }
    }
}

/// Membership of stored handles is chain reachability.
pub proof fn lemma_memberp_reaches(st: StoreV, k: int, p: int)
    requires
        st_wf(st),
        0 <= k < st.maps.len(),
        0 <= p < st.maps.len(),
    ensures
        memberp_sp(st, Value::Keymap(k as usize), Value::Keymap(p as usize))
            == reaches(parents_of(st), p, k),
{
    if memberp_sp(st, Value::Keymap(k as usize), Value::Keymap(p as usize)) {
        let f = choose|f: nat|
            #[trigger] memberp_from(st, Value::Keymap(k as usize), Value::Keymap(p as usize), f);
        lemma_memberp_handles(st, k, p, f);
        assert(in_chain(parents_of(st), p, k, f));
    }
    if reaches(parents_of(st), p, k) {
        let f = choose|f: nat| in_chain(parents_of(st), p, k, f);
        lemma_memberp_handles(st, k, p, f);
        assert(memberp_from(st, Value::Keymap(k as usize), Value::Keymap(p as usize), f));
    }
}

/// State and result of `set_keymap_parent(keymap, parent)`.
///
/// The cache is flushed and the generation advanced unconditionally; then
/// `keymap` is resolved (loading allowed) and `parent`, unless `Nil`, is
/// resolved without loading; a parent whose chain already contains the
/// keymap is refused as cyclic; an immutable keymap refuses the mutation;
/// otherwise the parent link is replaced and the resolved parent
/// returned.
pub open spec fn set_parent_sp(st: StoreV, keymap: Value, parent: Value) -> (StoreV, Result<
    Value,
    KmError,
>) {
    let nmaps = st.maps.len();
    let r1 = resolve_res(nmaps, st.fndefs, st.loads, keymap, true, true);
    let fns1 = resolve_fns(nmaps, st.fndefs, st.loads, keymap, true, true);
    let st2 = StoreV {
        cache: None,
        generation: (st.generation + 1) as u64,
        fndefs: fns1,
        ..st
    };
    match r1 {
        Err(e) => (st2, Err(e)),
        Ok(w) => match w {
            Value::Keymap(k) => {
                if parent == Value::Nil {
                    if st.maps[k as int].immutable {
                        (st2, Err(KmError::ImmutableKeymap))
                    } else {
                        (
                            StoreV {
                                maps: st2.maps.update(
                                    k as int,
                                    KeymapV { parent: None, ..st2.maps[k as int] },
                                ),
                                ..st2
                            },
                            Ok(Value::Nil),
                        )
                    }
                } else {
                    match resolve_res(nmaps, fns1, st.loads, parent, true, false) {
                        Err(e) => (st2, Err(e)),
                        Ok(w2) => match w2 {
                            Value::Keymap(p) => {
                                if reaches(parents_of(st), p as int, k as int) {
                                    (st2, Err(KmError::CyclicInheritance))
                                } else if st.maps[k as int].immutable {
                                    (st2, Err(KmError::ImmutableKeymap))
                                } else {
                                    (
                                        StoreV {
                                            maps: st2.maps.update(
                                                k as int,
                                                KeymapV { parent: Some(p), ..st2.maps[k as int] },
                                            ),
                                            ..st2
                                        },
                                        Ok(Value::Keymap(p)),
                                    )
                                }
                            },
                            _ => (st2, Err(KmError::WrongType)),
                        },
                    }
                }
            },
            _ => (st2, Err(KmError::WrongType)),
        },
    }
}

impl Store {
    /// Return the parent keymap of `keymap` (`Nil` for none), resolving
    /// `keymap` first; with `autoload`, resolution may load a deferred
    /// keymap.
    pub fn keymap_parent(&mut self, keymap: Value, autoload: bool) -> (r: Result<Value, KmError>)
        requires
            old(self).wf(),
        ensures
            final(self).wf(),
            r == keymap_parent_sp(old(self)@, keymap, autoload),
            final(self)@ == (StoreV {
                fndefs: resolve_fns(
                    old(self)@.maps.len(),
                    old(self)@.fndefs,
                    old(self)@.loads,
                    keymap,
                    true,
                    autoload,
                ),
                ..old(self)@
            }),
    {
        match self.get_keymap(keymap, true, autoload) {
            Err(e) => Err(e),
            Ok(w) => {
                match w {
                    Value::Keymap(h) => {
                        match self.parent_slot(h) {
                            Some(p) => Ok(Value::Keymap(p)),
                            None => Ok(Value::Nil),
                        }
                    },
                    _ => Ok(Value::Nil),
                }
            },
        }
    }

    /// The resolved parent of `keymap`, loading on demand.
    pub fn keymap_parent_lisp(&mut self, keymap: Value) -> (r: Result<Value, KmError>)
        requires
            old(self).wf(),
        ensures
            final(self).wf(),
            r == keymap_parent_sp(old(self)@, keymap, true),
            final(self)@ == (StoreV {
                fndefs: resolve_fns(
                    old(self)@.maps.len(),
                    old(self)@.fndefs,
                    old(self)@.loads,
                    keymap,
                    true,
                    true,
                ),
                ..old(self)@
            }),
    {
        self.keymap_parent(keymap, true)
    }

    /// Whether `map` is `maps` itself or one of its ancestors: walk the
    /// parent chain from `maps`, comparing by identity at each step.  The
    /// walk never loads and stops at the first value that is not
    /// keymap-shaped.
    pub fn keymap_memberp(&self, map: Value, maps: Value) -> (b: bool)
        requires
            self.wf(),
        ensures
            b == memberp_sp(self@, map, maps),
    {
        if map == Value::Nil {
            return false;
        }
        let mut cur = maps;
        let ghost mut fuel: nat = 0;
        proof {
            fuel = lemma_walk_terminates(self@, maps);
        }
        loop
            invariant
                self.wf(),
                map != Value::Nil,
                walk_ends(self@, cur, fuel),
                (exists|f: nat| memberp_from(self@, map, maps, f)) == (exists|f: nat|
                    memberp_from(self@, map, cur, f)),
            ensures
                (map == cur || !keymapp_sp(self@.maps.len(), self@.fndefs, cur)),
                (exists|f: nat| memberp_from(self@, map, maps, f)) == (exists|f: nat|
                    memberp_from(self@, map, cur, f)),
            decreases fuel,
        {
            if map == cur {
                break;
            }
            if !self.keymapp(cur) {
                break;
            }
            proof {
                lemma_memberp_step(self@, map, cur);
            }
            let nxt = self.walk_step(cur);
            proof {
                fuel = (fuel - 1) as nat;
            }
            cur = nxt;
        }
        if map == cur {
            proof {
                assert(memberp_from(self@, map, cur, 0));
            }
            true
        } else {
            proof {
                assert(forall|f: nat| !memberp_from(self@, map, cur, f));
            }
            false
        }
    }

    /// One step of the ancestor walk, without loading.
    fn walk_step(&self, cur: Value) -> (r: Value)
        requires
            self.wf(),
        ensures
            r == next_of(self@, cur),
    {
        match self.resolve_value_noload(cur) {
            Ok(w) => {
                match w {
                    Value::Keymap(h) => {
                        match self.parent_slot(h) {
                            Some(p) => Value::Keymap(p),
                            None => Value::Nil,
                        }
                    },
                    _ => Value::Nil,
                }
            },
            Err(_) => Value::Nil,
        }
    }

    /// Resolution with `error_if_not_keymap` and loading off, reading the
    /// store without changing it.
    pub(crate) fn resolve_value_noload(&self, v: Value) -> (r: Result<Value, KmError>)
        ensures
            r == resolve_res(self@.maps.len(), self@.fndefs, self@.loads, v, true, false),
    {
        match self.resolve_once(v, true, false) {
            ResolveStep::Done(r) => r,
            ResolveStep::NeedLoad(_, _) => {
                // a pass with loading off never asks for a load
                proof {
                    assert(false);
                }
                Err(KmError::WrongType)
            },
        }
    }

    /// Replace the parent link of stored keymap `k`; a cycle has already
    /// been ruled out by the caller.
    fn set_parent_slot(&mut self, k: usize, p: Option<usize>)
        requires
            old(self).wf(),
            k < old(self)@.maps.len(),
            match p {
                Some(q) => q < old(self)@.maps.len() && !reaches(
                    parents_of(old(self)@),
                    q as int,
                    k as int,
                ),
                None => true,
            },
        ensures
            final(self).wf(),
            final(self)@ == (StoreV {
                maps: old(self)@.maps.update(
                    k as int,
                    KeymapV { parent: p, ..old(self)@.maps[k as int] },
                ),
                ..old(self)@
            }),
    {
        let mut km = self.maps.remove(k);
        km.parent = p;
        self.maps.insert(k, km);
        proof {
            let st0 = old(self)@;
            let ps = parents_of(st0);
            let stv = StoreV {
                maps: st0.maps.update(k as int, KeymapV { parent: p, ..st0.maps[k as int] }),
                ..st0
            };
            assert(self@.maps =~= stv.maps);
            assert(self@ =~= stv);
            let ps2 = parents_of(self@);
            assert(ps2 =~= ps.update(k as int, p));
            let fk: nat = match p {
                Some(q) => {
                    assert(terminates(ps, q as int));
                    let f0 = choose|f: nat| ends(ps, q as int, f);
                    assert(!in_chain(ps, q as int, k as int, f0));
                    lemma_ends_update_avoiding(ps, q as int, k as int, Some(q), f0);
                    assert(ends(ps2, k as int, f0 + 1));
                    f0 + 1
                },
                None => {
                    assert(ends(ps2, k as int, 1));
                    1
                },
            };
            assert forall|h: int| 0 <= h < self@.maps.len() implies #[trigger] terminates(
                ps2,
                h,
            ) by {
                assert(terminates(ps, h));
                let f = choose|f: nat| ends(ps, h, f);
                lemma_ends_update_all(ps, h, k as int, p, f, fk);
                assert(ends(ps2, h, f + fk));
            }
        }
    }

    /// Set `keymap`'s parent to `parent` (`Nil` removes it) and return the
    /// resolved parent.
    ///
    /// The reverse-lookup cache is flushed and the invalidation generation
    /// advanced before anything else, success or not.  `keymap` is
    /// resolved with loading allowed; a non-nil `parent` is resolved
    /// without loading.  A parent whose own ancestor chain already
    /// contains the keymap fails with `CyclicInheritance`; a keymap marked
    /// immutable fails with `ImmutableKeymap`; either failure leaves every
    /// binding and every parent link unchanged.
    pub fn set_keymap_parent(&mut self, keymap: Value, parent: Value) -> (r: Result<
        Value,
        KmError,
    >)
        requires
            old(self).wf(),
            old(self)@.generation < u64::MAX,
        ensures
            final(self).wf(),
            final(self)@ == set_parent_sp(old(self)@, keymap, parent).0,
            r == set_parent_sp(old(self)@, keymap, parent).1,
    {
        let ghost st0 = old(self)@;
        self.cache = None;
        self.generation = self.generation + 1;
        proof {
            assert(self@ =~= StoreV {
                cache: None,
                generation: (st0.generation + 1) as u64,
                ..st0
            });
            assert(parents_of(self@) =~= parents_of(st0));
        }
        let kres = self.get_keymap(keymap, true, true);
        proof {
            lemma_resolve_strict(st0.maps.len(), st0.fndefs, st0.loads, keymap, true);
        }
        let k: usize = match kres {
            Err(e) => {
                return Err(e);
            },
            Ok(w) => {
                match w {
                    Value::Keymap(k) => k,
                    // under error_if_not_keymap only a stored handle comes back
                    _ => {
                        proof {
                            assert(false);
                        }
                        return Err(KmError::WrongType);
                    },
                }
            },
        };
        let ghost st2 = set_parent_sp(st0, keymap, parent).0;
        proof {
            assert(parents_of(self@) =~= parents_of(st0));
        }
        if let Value::Nil = parent {
            if self.maps[k].immutable {
                return Err(KmError::ImmutableKeymap);
            }
            self.set_parent_slot(k, None);
            proof {
                assert(self@ =~= st2);
            }
            return Ok(Value::Nil);
        }
        let pres = self.get_keymap(parent, true, false);
        proof {
            lemma_resolve_strict(self@.maps.len(), self@.fndefs, self@.loads, parent, false);
        }
        let p: usize = match pres {
            Err(e) => {
                return Err(e);
            },
            Ok(w) => {
                match w {
                    Value::Keymap(p) => p,
                    // under error_if_not_keymap only a stored handle comes back
                    _ => {
                        proof {
                            assert(false);
                        }
                        return Err(KmError::WrongType);
                    },
                }
            },
        };
        let cyclic = self.keymap_memberp(Value::Keymap(k), Value::Keymap(p));
        proof {
            lemma_memberp_reaches(self@, k as int, p as int);
            assert(reaches(parents_of(self@), p as int, k as int) == reaches(
                parents_of(st0),
                p as int,
                k as int,
            ));
        }
        if cyclic {
            return Err(KmError::CyclicInheritance);
        }
        if self.maps[k].immutable {
            return Err(KmError::ImmutableKeymap);
        }
        self.set_parent_slot(k, Some(p));
        proof {
            assert(self@ =~= st2);
        }
        Ok(Value::Keymap(p))
    }
}

} // verus!

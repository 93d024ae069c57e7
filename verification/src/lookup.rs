//! The lookup engine: resolve an event, then a whole key sequence, against
//! a keymap and its ancestors.
//!
//! Within one keymap a plain character consults table entries (dense, then
//! range, in entry order) before any sparse pair; among pairs the earliest
//! match wins, and a `Wildcard` pair is a fallback consulted only when the
//! lookup accepts default bindings.  A keymap that yields nothing for an
//! event defers to its parent, transitively.  A whole-sequence lookup
//! resolves each event's binding into the next keymap; a non-keymap
//! binding met before the last event ends the walk with the distinguished
//! `TooLong` count, and a pending interrupt ends it with `Quit` at the
//! cooperative check point after each consumed event.

use vstd::prelude::*;

use crate::chain::ends;
use crate::chain::terminates;
use crate::data::norm_elem;
use crate::data::normalize_elem;
use crate::data::Event;
use crate::data::KeyElem;
use crate::data::KmError;
use crate::data::LookupRes;
use crate::data::Value;
use crate::keymap::own_hit;
use crate::resolve::lemma_resolve_handle;
use crate::resolve::lemma_resolve_lenient;
use crate::resolve::lemma_resolve_strict;
use crate::resolve::resolve_fns;
use crate::resolve::resolve_res;
use crate::store::parents_of;
use crate::store::Store;
use crate::store::StoreV;

verus! {

/// Binding of `e` at keymap `h` or its ancestors, walking at most `fuel`
/// parent links; `Nil` when nothing binds `e`.
pub open spec fn access_at(st: StoreV, h: int, e: Event, accept_default: bool, fuel: nat) -> Value
    decreases fuel,
{
    if fuel == 0 || !(0 <= h < st.maps.len()) {
        Value::Nil
    } else {
        match own_hit(st.maps[h], e, accept_default) {
            Some(b) => b,
            None => match st.maps[h].parent {
                None => Value::Nil,
                Some(p) => access_at(st, p as int, e, accept_default, (fuel - 1) as nat),
            },
        }
    }
}

/// Any two sufficient chain budgets give the same access result.
proof fn lemma_access_at_fuel(st: StoreV, h: int, e: Event, ad: bool, f1: nat, f2: nat)
    requires
        ends(parents_of(st), h, f1),
        ends(parents_of(st), h, f2),
        st.maps.len() <= usize::MAX,
    ensures
        access_at(st, h, e, ad, f1) == access_at(st, h, e, ad, f2),
    decreases f1,
{
    if 0 <= h < st.maps.len() {
        match st.maps[h].parent {
            None => {},
            Some(p) => {
                assert(parents_of(st)[h] == Some(p));
                lemma_access_at_fuel(st, p as int, e, ad, (f1 - 1) as nat, (f2 - 1) as nat);
            },
        }
    }
}

/// A chain budget sufficient for handle `h`.
pub open spec fn chain_fuel(st: StoreV, h: int) -> nat {
    choose|f: nat| ends(parents_of(st), h, f)
}

/// Binding of `e` at keymap `h`: tables first for characters, then exact
/// pairs, then — when defaults are accepted — the wildcard entry, then the
/// parent chain.
pub open spec fn access_sp(st: StoreV, h: int, e: Event, accept_default: bool) -> Value {
    access_at(st, h, e, accept_default, chain_fuel(st, h))
}

/// State and result of the lookup walk from key index `i` at keymap `h`:
/// normalize the event (an impermissible shape fails with `InvalidEvent`),
/// read its binding, return it at the last index; otherwise resolve the
/// binding (loading on demand) into the next keymap — a non-keymap binding
/// ends the walk with `TooLong(i + 1)`, and a pending interrupt with
/// `Quit` — and continue.
pub open spec fn lookup_from(
    st: StoreV,
    h: int,
    keys: Seq<KeyElem>,
    plain_string: bool,
    accept_default: bool,
    i: int,
) -> (StoreV, Result<LookupRes, KmError>)
    decreases keys.len() - i,
{
    match norm_elem(keys[i], plain_string) {
        None => (st, Err(KmError::InvalidEvent)),
        Some(e) => {
            let b = access_sp(st, h, e, accept_default);
            if i + 1 >= keys.len() {
                (st, Ok(LookupRes::Found(b)))
            } else {
                let st2 = StoreV {
                    fndefs: resolve_fns(st.maps.len(), st.fndefs, st.loads, b, false, true),
                    ..st
                };
                match resolve_res(st.maps.len(), st.fndefs, st.loads, b, false, true) {
                    Ok(w) => match w {
                        Value::Keymap(h2) => if st.quit_pending {
                            (st2, Ok(LookupRes::Quit))
                        } else {
                            lookup_from(st2, h2 as int, keys, plain_string, accept_default, i + 1)
                        },
                        _ => (st2, Ok(LookupRes::TooLong((i + 1) as usize))),
                    },
                    Err(_) => (st2, Ok(LookupRes::TooLong((i + 1) as usize))),
                }
            }
        },
    }
}

/// State and result of `lookup_key(keymap, keys)`: resolve `keymap`
/// (loading on demand, failing with `WrongType` if it is no keymap), hand
/// the keymap itself back for an empty sequence, and walk the sequence
/// otherwise.
pub open spec fn lookup_key_sp(
    st: StoreV,
    keymap: Value,
    keys: Seq<KeyElem>,
    plain_string: bool,
    accept_default: bool,
) -> (StoreV, Result<LookupRes, KmError>) {
    let st1 = StoreV {
        fndefs: resolve_fns(st.maps.len(), st.fndefs, st.loads, keymap, true, true),
        ..st
    };
    match resolve_res(st.maps.len(), st.fndefs, st.loads, keymap, true, true) {
        Err(e) => (st1, Err(e)),
        Ok(w) => match w {
            Value::Keymap(h) => if keys.len() == 0 {
                (st1, Ok(LookupRes::Found(Value::Keymap(h))))
            } else {
                lookup_from(st1, h as int, keys, plain_string, accept_default, 0)
            },
            _ => (st1, Err(KmError::WrongType)),
        },
    }
}

/// State and result of a key-binding probe against an optional keymap:
/// `Nil` for no map at all, a full lookup otherwise.
pub open spec fn key_binding_sp(
    st: StoreV,
    map: Value,
    keys: Seq<KeyElem>,
    plain_string: bool,
    accept_default: bool,
) -> (StoreV, Result<LookupRes, KmError>) {
    if map == Value::Nil {
        (st, Ok(LookupRes::Found(Value::Nil)))
    } else {
        lookup_key_sp(st, map, keys, plain_string, accept_default)
    }
}

impl Store {
    /// Binding of event `e` in keymap `h`: the access primitive.  Consults
    /// this keymap's tables and pairs, honors the wildcard entry only
    /// under `accept_default`, and defers to the parent chain when the
    /// keymap yields nothing.
    pub fn access_keymap(&self, h: usize, e: Event, accept_default: bool) -> (r: Value)
        requires
            self.wf(),
            h < self@.maps.len(),
        ensures
            r == access_sp(self@, h as int, e, accept_default),
    {
        let ghost st = self@;
        let ghost ps = parents_of(st);
        let mut cur: usize = h;
        let ghost mut fuel: nat = 0;
        proof {
            assert(terminates(ps, h as int));
            fuel = choose|f: nat| ends(ps, h as int, f);
            assert(ends(ps, h as int, chain_fuel(st, h as int)));
            lemma_access_at_fuel(st, h as int, e, accept_default, chain_fuel(st, h as int), fuel);
        }
        loop
            invariant
                self.wf(),
                st == self@,
                ps == parents_of(st),
                cur < st.maps.len(),
                ends(ps, cur as int, fuel),
                access_sp(st, h as int, e, accept_default) == access_at(
                    st,
                    cur as int,
                    e,
                    accept_default,
                    fuel,
                ),
            decreases fuel,
        {
            let found = self.maps[cur].own_lookup(e, accept_default);
            match found {
                Some(b) => {
                    return b;
                },
                None => {
                    match self.maps[cur].parent {
                        Some(p) => {
                            proof {
                                fuel = (fuel - 1) as nat;
                            }
                            cur = p;
                        },
                        None => {
                            return Value::Nil;
                        },
                    }
                },
            }
        }
    }

    /// In `keymap`, look up the key sequence `keys`.
    ///
    /// `keymap` is resolved once at entry (loading on demand); an empty
    /// sequence returns the keymap itself.  Each element is canonicalized
    /// (`plain_string` folds the legacy high bit of string characters into
    /// the meta modifier); an impermissible element fails with
    /// `InvalidEvent`.  The binding of the last event is returned as
    /// `Found` (`Nil` meaning undefined).  A non-keymap binding met
    /// earlier ends the walk with `TooLong(n)`, the count of events
    /// consumed, `1 <= n < keys.len()`; a pending interrupt ends it with
    /// `Quit` at the check point after a consumed event.
    pub fn lookup_key(
        &mut self,
        keymap: Value,
        keys: &Vec<KeyElem>,
        plain_string: bool,
        accept_default: bool,
    ) -> (r: Result<LookupRes, KmError>)
        requires
            old(self).wf(),
        ensures
            final(self).wf(),
            final(self)@ == lookup_key_sp(
                old(self)@,
                keymap,
                keys@,
                plain_string,
                accept_default,
            ).0,
            r == lookup_key_sp(old(self)@, keymap, keys@, plain_string, accept_default).1,
    {
        let ghost st0 = self@;
        let hres = self.get_keymap(keymap, true, true);
        proof {
            lemma_resolve_strict(st0.maps.len(), st0.fndefs, st0.loads, keymap, true);
        }
        let mut h: usize = match hres {
            Err(e) => {
                return Err(e);
            },
            Ok(w) => {
                match w {
                    Value::Keymap(h) => h,
                    // under error_if_not_keymap only a stored handle comes back
                    _ => {
                        proof {
                            assert(false);
                        }
                        return Err(KmError::WrongType);
                    },
                }
            },
        };
        let length = keys.len();
        if length == 0 {
            return Ok(LookupRes::Found(Value::Keymap(h)));
        }
        let mut idx: usize = 0;
        loop
            invariant
                st0 == old(self)@,
                self.wf(),
                0 <= idx < length,
                length == keys@.len(),
                h < self@.maps.len(),
                lookup_key_sp(st0, keymap, keys@, plain_string, accept_default) == lookup_from(
                    self@,
                    h as int,
                    keys@,
                    plain_string,
                    accept_default,
                    idx as int,
                ),
            decreases length - idx,
        {
            let ke = keys[idx];
            let e: Event = match normalize_elem(ke, plain_string) {
                Some(e) => e,
                None => {
                    return Err(KmError::InvalidEvent);
                },
            };
            let cmd = self.access_keymap(h, e, accept_default);
            if idx + 1 == length {
                return Ok(LookupRes::Found(cmd));
            }
            let ghost stp = self@;
            let nres = self.get_keymap(cmd, false, true);
            proof {
                lemma_resolve_lenient(stp.maps.len(), stp.fndefs, stp.loads, cmd, true);
                lemma_resolve_handle(stp.maps.len(), stp.fndefs, stp.loads, cmd, false, true);
            }
            match nres {
                Ok(w) => {
                    match w {
                        Value::Keymap(h2) => {
                            if self.quit_pending {
                                return Ok(LookupRes::Quit);
                            }
                            h = h2;
                            idx = idx + 1;
                        },
                        _ => {
                            return Ok(LookupRes::TooLong(idx + 1));
                        },
                    }
                },
                Err(_) => {
                    // without error_if_not_keymap resolution cannot fail
                    proof {
                        assert(false);
                    }
                    return Err(KmError::WrongType);
                },
            }
        }
    }

    /// The current global keymap (`Nil` for none).
    pub fn current_global_map(&self) -> (v: Value)
        ensures
            v == self@.global_map,
    {
        self.global_map
    }

    /// Select `keymap` as the global keymap, resolving it first.
    pub fn use_global_map(&mut self, keymap: Value) -> (r: Result<(), KmError>)
        requires
            old(self).wf(),
        ensures
            final(self).wf(),
            final(self)@ == (StoreV {
                fndefs: resolve_fns(
                    old(self)@.maps.len(),
                    old(self)@.fndefs,
                    old(self)@.loads,
                    keymap,
                    true,
                    true,
                ),
                global_map: match resolve_res(
                    old(self)@.maps.len(),
                    old(self)@.fndefs,
                    old(self)@.loads,
                    keymap,
                    true,
                    true,
                ) {
                    Ok(w) => w,
                    Err(_) => old(self)@.global_map,
                },
                ..old(self)@
            }),
            r is Ok <==> resolve_res(
                old(self)@.maps.len(),
                old(self)@.fndefs,
                old(self)@.loads,
                keymap,
                true,
                true,
            ) is Ok,
    {
        match self.get_keymap(keymap, true, true) {
            Ok(w) => {
                self.global_map = w;
                proof {
                    assert(parents_of(self@) =~= parents_of(old(self)@));
                }
                Ok(())
            },
            Err(e) => Err(e),
        }
    }

    /// The current buffer's local keymap (`Nil` for none).
    pub fn current_local_map(&self) -> (v: Value)
        ensures
            v == self@.local_map,
    {
        self.local_map
    }

    /// Select `keymap` as the local keymap; `Nil` means no local keymap.
    pub fn use_local_map(&mut self, keymap: Value) -> (r: Result<(), KmError>)
        requires
            old(self).wf(),
        ensures
            final(self).wf(),
            keymap == Value::Nil ==> r == Ok::<(), KmError>(()) && final(self)@ == (StoreV {
                local_map: Value::Nil,
                ..old(self)@
            }),
            keymap != Value::Nil ==> final(self)@ == (StoreV {
                fndefs: resolve_fns(
                    old(self)@.maps.len(),
                    old(self)@.fndefs,
                    old(self)@.loads,
                    keymap,
                    true,
                    true,
                ),
                local_map: match resolve_res(
                    old(self)@.maps.len(),
                    old(self)@.fndefs,
                    old(self)@.loads,
                    keymap,
                    true,
                    true,
                ) {
                    Ok(w) => w,
                    Err(_) => old(self)@.local_map,
                },
                ..old(self)@
            }) && (r is Ok <==> resolve_res(
                old(self)@.maps.len(),
                old(self)@.fndefs,
                old(self)@.loads,
                keymap,
                true,
                true,
            ) is Ok),
    {
        if let Value::Nil = keymap {
            self.local_map = Value::Nil;
            proof {
                assert(parents_of(self@) =~= parents_of(old(self)@));
            }
            return Ok(());
        }
        match self.get_keymap(keymap, true, true) {
            Ok(w) => {
                self.local_map = w;
                proof {
                    assert(parents_of(self@) =~= parents_of(old(self)@));
                }
                Ok(())
            },
            Err(e) => Err(e),
        }
    }

    /// Binding of `keys` in the current local keymap only; `Nil` when
    /// there is no local keymap.
    pub fn local_key_binding(&mut self, keys: &Vec<KeyElem>, plain_string: bool, accept_default:
        bool) -> (r: Result<LookupRes, KmError>)
        requires
            old(self).wf(),
        ensures
            final(self).wf(),
            final(self)@ == key_binding_sp(
                old(self)@,
                old(self)@.local_map,
                keys@,
                plain_string,
                accept_default,
            ).0,
            r == key_binding_sp(
                old(self)@,
                old(self)@.local_map,
                keys@,
                plain_string,
                accept_default,
            ).1,
    {
        let map = self.current_local_map();
        if let Value::Nil = map {
            return Ok(LookupRes::Found(Value::Nil));
        }
        self.lookup_key(map, keys, plain_string, accept_default)
    }

    /// Binding of `keys` in the current global keymap only; `Nil` when
    /// there is no global keymap.
    pub fn global_key_binding(&mut self, keys: &Vec<KeyElem>, plain_string: bool, accept_default:
        bool) -> (r: Result<LookupRes, KmError>)
        requires
            old(self).wf(),
        ensures
            final(self).wf(),
            final(self)@ == key_binding_sp(
                old(self)@,
                old(self)@.global_map,
                keys@,
                plain_string,
                accept_default,
            ).0,
            r == key_binding_sp(
                old(self)@,
                old(self)@.global_map,
                keys@,
                plain_string,
                accept_default,
            ).1,
    {
        let map = self.current_global_map();
        if let Value::Nil = map {
            return Ok(LookupRes::Found(Value::Nil));
        }
        self.lookup_key(map, keys, plain_string, accept_default)
    }
}

} // verus!

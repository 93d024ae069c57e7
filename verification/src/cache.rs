//! The reverse-lookup cache: which keys invoke a command.
//!
//! The store memoizes one keymap's full enumeration (the keymap and all
//! its ancestors) together with the root it was built against, and answers
//! reverse-lookup queries from it.  Any parent attachment flushes the memo
//! and advances the invalidation generation, since inheritance changes the
//! reachable bindings; plain binding insertion does not — callers doing
//! bulk rebinds invalidate explicitly with `invalidate_cache`.

use vstd::prelude::*;

use crate::data::KmError;
use crate::data::Value;
use crate::data::VisitKey;
use crate::resolve::lemma_resolve_strict;
use crate::resolve::resolve_res;
use crate::store::parents_of;
use crate::store::CacheV;
use crate::store::RevCache;
use crate::store::Store;
use crate::store::StoreV;
use crate::traverse::visit_sp;

verus! {

/// The keys among `items` whose binding is exactly `cmd`, in item order,
/// scanning from `i`.
pub open spec fn matching_keys(items: Seq<(VisitKey, Value)>, cmd: Value, i: int) -> Seq<VisitKey>
    decreases items.len() - i,
{
    if i < 0 || i >= items.len() {
        Seq::empty()
    } else if items[i].1 == cmd {
        seq![items[i].0] + matching_keys(items, cmd, i + 1)
    } else {
        matching_keys(items, cmd, i + 1)
    }
}

/// The enumeration a reverse lookup of root `h` consults: the memo when it
/// was built against `h`, a fresh enumeration otherwise.
pub open spec fn where_is_items(st: StoreV, h: int) -> Seq<(VisitKey, Value)> {
    match st.cache {
        Some(c) => if c.root == h {
            c.items
        } else {
            visit_sp(st, h)
        },
        None => visit_sp(st, h),
    }
}

/// State and result of `where_is(map, cmd)`: resolve `map` (no loading),
/// consult or build the memo for it, and filter the keys bound to `cmd`.
pub open spec fn where_is_sp(st: StoreV, map: Value, cmd: Value) -> (StoreV, Result<
    Seq<VisitKey>,
    KmError,
>) {
    match resolve_res(st.maps.len(), st.fndefs, st.loads, map, true, false) {
        Err(e) => (st, Err(e)),
        Ok(w) => match w {
            Value::Keymap(h) => {
                let items = where_is_items(st, h as int);
                (
                    StoreV { cache: Some(CacheV { root: h, items }), ..st },
                    Ok(matching_keys(items, cmd, 0)),
                )
            },
            _ => (st, Err(KmError::WrongType)),
        },
    }
}

impl Store {
    /// The keys among `items` bound exactly to `cmd`, in item order.
    fn filter_items(items: &Vec<(VisitKey, Value)>, cmd: Value) -> (r: Vec<VisitKey>)
        ensures
            r@ == matching_keys(items@, cmd, 0),
    {
        let mut out: Vec<VisitKey> = Vec::new();
        let n: usize = items.len();
        let mut i: usize = 0;
        while i < n
            invariant
                n == items@.len(),
                0 <= i <= n,
                matching_keys(items@, cmd, 0) == out@ + matching_keys(items@, cmd, i as int),
            decreases n - i,
        {
            let ghost out0 = out@;
            let it = items[i];
            if it.1 == cmd {
                out.push(it.0);
                proof {
                    assert(out0 + matching_keys(items@, cmd, i as int) =~= out@ + matching_keys(
                        items@,
                        cmd,
                        i + 1,
                    ));
                }
            }
            i = i + 1;
        }
        proof {
            assert(matching_keys(items@, cmd, n as int) =~= Seq::<VisitKey>::empty());
            assert(out@ =~= matching_keys(items@, cmd, 0));
        }
        out
    }

    /// Which keys invoke `cmd` in the keymap `map` resolves to (no
    /// loading), its ancestors included.
    ///
    /// Answered from the reverse-lookup memo when one built against the
    /// same root is held; built fresh, and remembered, otherwise.  The
    /// memo never survives a `set_keymap_parent` call, so an answer is
    /// never computed from a pre-mutation topology.
    pub fn where_is(&mut self, map: Value, cmd: Value) -> (r: Result<Vec<VisitKey>, KmError>)
        requires
            old(self).wf(),
        ensures
            final(self).wf(),
            final(self)@ == where_is_sp(old(self)@, map, cmd).0,
            match where_is_sp(old(self)@, map, cmd).1 {
                Ok(keys) => r is Ok && r->Ok_0@ == keys,
                Err(e) => r == Err::<Vec<VisitKey>, KmError>(e),
            },
    {
        let ghost st0 = self@;
        let hres = self.resolve_value_noload(map);
        proof {
            lemma_resolve_strict(st0.maps.len(), st0.fndefs, st0.loads, map, false);
        }
        let h: usize = match hres {
            Err(e) => {
                return Err(e);
            },
            Ok(w) => {
                match w {
                    Value::Keymap(h) => h,
                    // under error_if_not_keymap only a stored handle comes back
                    _ => {
                        proof {
                            assert(false);
                        }
                        return Err(KmError::WrongType);
                    },
                }
            },
        };
        let hit: bool = match &self.cache {
            Some(c) => c.root == h,
            None => false,
        };
        if !hit {
            let items = self.collect_chain(h);
            self.cache = Some(RevCache { root: h, items });
            proof {
                assert(parents_of(self@) =~= parents_of(st0));
                assert(self@ =~= where_is_sp(st0, map, cmd).0);
            }
        } else {
            proof {
                assert(self@ =~= where_is_sp(st0, map, cmd).0);
            }
        }
        let r: Vec<VisitKey> = match &self.cache {
            Some(c) => Self::filter_items(&c.items, cmd),
            // the memo was filled or confirmed just above
            None => {
                proof {
                    assert(false);
                }
                Vec::new()
            },
        };
        Ok(r)
    }

    /// Flush the reverse-lookup memo and advance the invalidation
    /// generation; for callers that rebind in bulk, since plain binding
    /// insertion leaves the memo alone.
    pub fn invalidate_cache(&mut self)
        requires
            old(self).wf(),
            old(self)@.generation < u64::MAX,
        ensures
            final(self).wf(),
            final(self)@ == (StoreV {
                cache: None,
                generation: (old(self)@.generation + 1) as u64,
                ..old(self)@
            }),
    {
        self.cache = None;
        self.generation = self.generation + 1;
        proof {
            assert(self@ =~= StoreV {
                cache: None,
                generation: (old(self)@.generation + 1) as u64,
                ..old(self)@
            });
            assert(parents_of(self@) =~= parents_of(old(self)@));
        }
    }
}

} // verus!

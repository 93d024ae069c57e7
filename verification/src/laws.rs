//! Laws of the engine: properties that relate several operations, stated
//! and proved over the same specification functions the operations'
//! contracts use.

use vstd::prelude::*;

use crate::chain::ends;
use crate::chain::in_chain;
use crate::chain::reaches;
use crate::chain::terminates;
use crate::data::norm_elem;
use crate::data::Event;
use crate::data::KeyElem;
use crate::data::KmError;
use crate::data::LookupRes;
use crate::data::Value;
use crate::keymap::level_items_from;
use crate::keymap::own_hit;
use crate::keymap::table_hit_from;
use crate::lookup::access_sp;
use crate::lookup::chain_fuel;
use crate::lookup::lookup_from;
use crate::lookup::lookup_key_sp;
use crate::parent::memberp_sp;
use crate::parent::set_parent_sp;
use crate::parent::lemma_memberp_reaches;
use crate::resolve::resolve_now;
use crate::resolve::resolve_res;
use crate::resolve::ResolveStep;
use crate::store::parents_of;
use crate::store::st_wf;
use crate::store::CacheV;
use crate::store::StoreV;
use crate::traverse::chain_items;
use crate::traverse::visit_sp;

verus! {

/// The ancestor test decides exactly chain membership: for stored keymaps
/// `k` and `p`, `keymap_memberp(Keymap(k), Keymap(p))` holds iff `k` lies
/// on `p`'s parent chain, `p` itself included.  The walk behind it ends
/// within the chain's length: acyclicity makes every chain finite.
pub proof fn law_ancestor_is_chain_membership(st: StoreV, k: int, p: int)
    requires
        st_wf(st),
        0 <= k < st.maps.len(),
        0 <= p < st.maps.len(),
    ensures
        memberp_sp(st, Value::Keymap(k as usize), Value::Keymap(p as usize)) == reaches(
            parents_of(st),
            p,
            k,
        ),
{
    lemma_memberp_reaches(st, k, p);
}

/// Attaching a parent that is the keymap itself, or that already counts
/// the keymap among its ancestors, fails with `CyclicInheritance`, and no
/// keymap — no binding, no parent link — changes.
pub proof fn law_cyclic_attachment_refused(st: StoreV, k: usize, p: usize)
    requires
        st_wf(st),
        k < st.maps.len(),
        p < st.maps.len(),
        p == k || reaches(parents_of(st), p as int, k as int),
    ensures
        set_parent_sp(st, Value::Keymap(k), Value::Keymap(p)).1 == Err::<Value, KmError>(
            KmError::CyclicInheritance,
        ),
        set_parent_sp(st, Value::Keymap(k), Value::Keymap(p)).0.maps == st.maps,
{
    if p == k {
        assert(in_chain(parents_of(st), p as int, k as int, 0));
        assert(reaches(parents_of(st), p as int, k as int));
    }
}

/// Looking an empty key sequence up in any value that resolves to a
/// keymap returns that keymap itself.
pub proof fn law_lookup_empty_returns_map(
    st: StoreV,
    keymap: Value,
    plain_string: bool,
    accept_default: bool,
)
    ensures
        match resolve_res(st.maps.len(), st.fndefs, st.loads, keymap, true, true) {
            Ok(w) => match w {
                Value::Keymap(h) => lookup_key_sp(
                    st,
                    keymap,
                    Seq::empty(),
                    plain_string,
                    accept_default,
                ).1 == Ok::<LookupRes, KmError>(LookupRes::Found(Value::Keymap(h))),
                _ => true,
            },
            Err(_) => true,
        },
{
}

/// In a three-event sequence whose first event is bound to a prefix
/// keymap and whose second event's binding resolves to no keymap, lookup
/// returns the count `2` — the events consumed before the walk broke off —
/// whatever the third event is.
pub proof fn law_prefix_break_counts_two(
    st: StoreV,
    h: int,
    keys: Seq<KeyElem>,
    plain_string: bool,
    accept_default: bool,
    e0: Event,
    e1: Event,
    h1: usize,
)
    requires
        st_wf(st),
        !st.quit_pending,
        keys.len() == 3,
        0 <= h < st.maps.len(),
        norm_elem(keys[0], plain_string) == Some(e0),
        norm_elem(keys[1], plain_string) == Some(e1),
        access_sp(st, h, e0, accept_default) == Value::Keymap(h1),
        h1 < st.maps.len(),
        resolve_now(
            st.maps.len(),
            st.fndefs,
            access_sp(st, h1 as int, e1, accept_default),
            false,
            true,
        ) == ResolveStep::Done(Ok::<Value, KmError>(Value::Nil)),
    ensures
        lookup_from(st, h, keys, plain_string, accept_default, 0) == (st, Ok::<
            LookupRes,
            KmError,
        >(LookupRes::TooLong(2))),
{
    let b0 = access_sp(st, h, e0, accept_default);
    assert(resolve_now(st.maps.len(), st.fndefs, b0, false, true) == ResolveStep::Done(Ok::<
        Value,
        KmError,
    >(b0)));
    let b1 = access_sp(st, h1 as int, e1, accept_default);
    let st3 = StoreV {
        fndefs: crate::resolve::resolve_fns(st.maps.len(), st.fndefs, st.loads, b1, false, true),
        ..st
    };
    assert(st3 =~= st);
    assert(crate::resolve::resolve_res(st.maps.len(), st.fndefs, st.loads, b1, false, true)
        == Ok::<Value, KmError>(Value::Nil));
    assert(lookup_from(st, h1 as int, keys, plain_string, accept_default, 1) == (
        st,
        Ok::<LookupRes, KmError>(LookupRes::TooLong(2)),
    ));
    let st2 = StoreV {
        fndefs: crate::resolve::resolve_fns(st.maps.len(), st.fndefs, st.loads, b0, false, true),
        ..st
    };
    assert(st2 =~= st);
    assert(crate::resolve::resolve_res(st.maps.len(), st.fndefs, st.loads, b0, false, true)
        == Ok::<Value, KmError>(Value::Keymap(h1)));
}

/// Enumerating a parentless keymap yields exactly its own entries' items:
/// each populated slot, row and pair once, in storage order, and nothing
/// else — in particular no parent marker, since a parent is no entry.
pub proof fn law_visit_is_own_entries(st: StoreV, h: int)
    requires
        st_wf(st),
        0 <= h < st.maps.len(),
        st.maps[h].parent == None::<usize>,
    ensures
        visit_sp(st, h) == level_items_from(st.maps[h].entries, 0),
{
    assert(terminates(parents_of(st), h));
    assert(ends(parents_of(st), h, chain_fuel(st, h)));
    assert(visit_sp(st, h) =~= level_items_from(st.maps[h].entries, 0) + Seq::<(
        crate::data::VisitKey,
        Value,
    )>::empty());
    assert(level_items_from(st.maps[h].entries, 0) + Seq::<(crate::data::VisitKey, Value)>::empty()
        =~= level_items_from(st.maps[h].entries, 0));
}

/// Enumerating a keymap with a parent yields its own entries' items
/// followed by the parent's full enumeration: ancestors contribute after
/// the child, and the parent link itself is never an item.
pub proof fn law_visit_appends_parent(st: StoreV, h: int, p: usize)
    requires
        st_wf(st),
        0 <= h < st.maps.len(),
        st.maps[h].parent == Some(p),
    ensures
        p < st.maps.len(),
        visit_sp(st, h) == level_items_from(st.maps[h].entries, 0) + visit_sp(st, p as int),
{
    let ps = parents_of(st);
    assert(terminates(ps, h));
    let f = chain_fuel(st, h);
    assert(ends(ps, h, f));
    assert(ps[h] == Some(p));
    assert(ends(ps, p as int, (f - 1) as nat));
    assert(terminates(ps, p as int));
    assert(ends(ps, p as int, chain_fuel(st, p as int)));
    crate::traverse::lemma_chain_items_fuel(st, p as int, (f - 1) as nat, chain_fuel(st, p as int));
    assert(visit_sp(st, h) =~= level_items_from(st.maps[h].entries, 0) + chain_items(
        st,
        p as int,
        (f - 1) as nat,
    ));
}

/// A character bound in a table entry (dense or range) shadows every
/// `Pair` entry for the same character: the table binding is what access,
/// and a single-key lookup, return.
pub proof fn law_table_shadows_pairs(st: StoreV, h: int, c: u32, accept_default: bool, b: Value)
    requires
        st_wf(st),
        0 <= h < st.maps.len(),
        table_hit_from(st.maps[h].entries, c, 0) == Some(b),
    ensures
        access_sp(st, h, Event::Char(c), accept_default) == b,
        lookup_from(
            st,
            h,
            seq![KeyElem::Ev(Event::Char(c))],
            false,
            accept_default,
            0,
        ) == (st, Ok::<LookupRes, KmError>(LookupRes::Found(b))),
{
    assert(terminates(parents_of(st), h));
    assert(ends(parents_of(st), h, chain_fuel(st, h)));
    assert(own_hit(st.maps[h], Event::Char(c), accept_default) == Some(b));
    let keys = seq![KeyElem::Ev(Event::Char(c))];
    assert(norm_elem(keys[0], false) == Some(Event::Char(c)));
}

/// A parent attachment — attempted or successful — flushes the
/// reverse-lookup memo and advances the invalidation generation: no
/// reverse lookup after it can answer from the pre-attachment topology.
pub proof fn law_set_parent_invalidates(st: StoreV, keymap: Value, parent: Value)
    requires
        st.generation < u64::MAX,
    ensures
        set_parent_sp(st, keymap, parent).0.generation == st.generation + 1,
        set_parent_sp(st, keymap, parent).0.cache == None::<CacheV>,
{
}

/// A reverse lookup with no memo held answers from the current topology:
/// the keys it returns are filtered from a fresh enumeration of the
/// resolved keymap and its present ancestors.
pub proof fn law_reverse_lookup_is_fresh(st: StoreV, map: Value, cmd: Value)
    requires
        st.cache == None::<CacheV>,
    ensures
        match resolve_res(st.maps.len(), st.fndefs, st.loads, map, true, false) {
            Ok(w) => match w {
                Value::Keymap(h) => crate::cache::where_is_sp(st, map, cmd).1 == Ok::<
                    Seq<crate::data::VisitKey>,
                    KmError,
                >(crate::cache::matching_keys(visit_sp(st, h as int), cmd, 0)),
                _ => true,
            },
            Err(_) => true,
        },
{
}

} // verus!

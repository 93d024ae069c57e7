//! Parent-chain theory.
//!
//! A store holds its keymaps' parent links as a sequence `ps`, one
//! `Option<usize>` per keymap handle.  The chain of a handle is the walk
//! `h, ps[h], ps[ps[h]], ...`; the store's invariant is that every chain
//! ends (reaches a handle without a parent), which is exactly acyclicity.
//! Termination is phrased with an explicit step budget (`ends`), and
//! acyclicity as the existence of a sufficient budget (`terminates`); the
//! lemmas below move budgets around and carry termination across a single
//! parent-link update, which is all `set_keymap_parent` changes.

use vstd::prelude::*;

verus! {

/// The chain from `h` reaches a parentless keymap within `fuel` steps.
/// A handle outside the sequence has no parent link, so its chain ends
/// at once.
pub open spec fn ends(ps: Seq<Option<usize>>, h: int, fuel: nat) -> bool
    decreases fuel,
{
    if fuel == 0 {
        false
    } else if 0 <= h < ps.len() {
        match ps[h] {
            None => true,
            Some(p) => ends(ps, p as int, (fuel - 1) as nat),
        }
    } else {
        true
    }
}

/// The chain from `h` ends: `h` is on no parent cycle.
pub open spec fn terminates(ps: Seq<Option<usize>>, h: int) -> bool {
    exists|fuel: nat| ends(ps, h, fuel)
}

/// `t` appears on the chain of `h` (including `h` itself) within `fuel`
/// steps.
pub open spec fn in_chain(ps: Seq<Option<usize>>, h: int, t: int, fuel: nat) -> bool
    decreases fuel,
{
    if h == t {
        true
    } else if fuel == 0 {
        false
    } else if 0 <= h < ps.len() {
        match ps[h] {
            None => false,
            Some(p) => in_chain(ps, p as int, t, (fuel - 1) as nat),
        }
    } else {
        false
    }
}

/// `t` appears on the chain of `h`, `h` itself included.
pub open spec fn reaches(ps: Seq<Option<usize>>, h: int, t: int) -> bool {
    exists|fuel: nat| in_chain(ps, h, t, fuel)
}

/// A larger budget keeps `ends` true.
pub proof fn lemma_ends_mono(ps: Seq<Option<usize>>, h: int, f: nat, g: nat)
    requires
        ends(ps, h, f),
        f <= g,
    ensures
        ends(ps, h, g),
    decreases f,
{
    if 0 <= h < ps.len() {
        match ps[h] {
            None => {},
            Some(p) => {
                lemma_ends_mono(ps, p as int, (f - 1) as nat, (g - 1) as nat);
            },
        }
    }
}

/// A chain that ends without meeting `k` is untouched by re-pointing `k`'s
/// parent link.
pub proof fn lemma_ends_update_avoiding(
    ps: Seq<Option<usize>>,
    h: int,
    k: int,
    x: Option<usize>,
    f: nat,
)
    requires
        ends(ps, h, f),
        !in_chain(ps, h, k, f),
        0 <= k < ps.len(),
    ensures
        ends(ps.update(k, x), h, f),
    decreases f,
{
    if 0 <= h < ps.len() {
        assert(h != k);
        match ps[h] {
            None => {},
            Some(p) => {
                lemma_ends_update_avoiding(ps, p as int, k, x, (f - 1) as nat);
            },
        }
    }
}
/// Appending a keymap does not disturb the chain of an existing handle,
/// provided every existing link stays within the existing handles.
pub proof fn lemma_ends_push(ps: Seq<Option<usize>>, h: int, f: nat, x: Option<usize>)
    requires
        ends(ps, h, f),
        h < ps.len(),
        forall|j: int| 0 <= j < ps.len() ==> match #[trigger] ps[j] {
            Some(p) => p < ps.len(),
            None => true,
        },
    ensures
        ends(ps.push(x), h, f),
    decreases f,
{
    if 0 <= h < ps.len() {
        match ps[h] {
            None => {},
            Some(p) => {
                lemma_ends_push(ps, p as int, (f - 1) as nat, x);
            },
        }
    }
}

/// After re-pointing `k`'s parent link, every chain that ended before still
/// ends, provided the chain of `k` itself ends in the new sequence: an old
/// chain either avoids `k` or continues along `k`'s new chain.
pub proof fn lemma_ends_update_all(
    ps: Seq<Option<usize>>,
    h: int,
    k: int,
    x: Option<usize>,
    f: nat,
    fk: nat,
)
    requires
        ends(ps, h, f),
        0 <= k < ps.len(),
        ends(ps.update(k, x), k, fk),
    ensures
        ends(ps.update(k, x), h, f + fk),
    decreases f,
{
    let ps2 = ps.update(k, x);
    if h == k {
        lemma_ends_mono(ps2, k, fk, f + fk);
    } else if 0 <= h < ps.len() {
        match ps[h] {
            None => {},
            Some(p) => {
                lemma_ends_update_all(ps, p as int, k, x, (f - 1) as nat, fk);
            },
        }
    }
}

} // verus!

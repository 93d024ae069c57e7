//! The resolver: canonicalize an arbitrary host value into a keymap.
//!
//! A value counts as a keymap if it is a stored keymap handle, or a symbol
//! whose function cell (one level of indirection) holds one.  A symbol
//! whose function cell is a deferred-keymap descriptor can be loaded on
//! demand: the loader installs the registered value into the symbol's
//! function cell and resolution retries once from the top.  The loader
//! runs at most once per call, so a load that fails to produce a keymap
//! ends in the ordinary failure path instead of retrying forever.

use vstd::prelude::*;

use crate::data::KmError;
use crate::data::Value;
use crate::store::parents_of;
use crate::store::sym_index;
use crate::store::vec_set;
use crate::store::Store;
use crate::store::StoreV;

verus! {

/// Outcome of one resolution pass: finished, or a load of symbol `s`'s
/// autoload descriptor `d` is wanted before the pass can be retried.
pub enum ResolveStep {
    Done(Result<Value, KmError>),
    NeedLoad(u64, u64),
}

/// The failure value of a resolution: an error under
/// `error_if_not_keymap`, plain `Nil` otherwise.
pub open spec fn terminal(err: bool) -> Result<Value, KmError> {
    if err {
        Err(KmError::WrongType)
    } else {
        Ok(Value::Nil)
    }
}

/// Function cell of symbol `s`, `Nil` for a symbol the store has no cell
/// for.
pub open spec fn fndef_of(fns: Seq<Value>, s: u64) -> Value {
    if s < fns.len() {
        fns[s as int]
    } else {
        Value::Nil
    }
}

/// One level of symbol indirection: a symbol stands for its function
/// cell, anything else for itself.
pub open spec fn indirect(fns: Seq<Value>, v: Value) -> Value {
    match v {
        Value::Sym(s) => fndef_of(fns, s),
        _ => v,
    }
}

/// One pass of keymap resolution against `nmaps` stored keymaps and
/// function cells `fns`:
/// - `Nil` fails at once;
/// - a stored keymap handle is returned as is;
/// - otherwise one level of indirection is followed and a stored keymap
///   handle found there is returned;
/// - a symbol whose cell is a deferred-keymap descriptor asks for a load
///   when `load_ok`, and is returned unresolved when loading is off but
///   failure is not demanded (`!err`);
/// - everything else fails with `terminal(err)`.
pub open spec fn resolve_now(
    nmaps: nat,
    fns: Seq<Value>,
    v: Value,
    err: bool,
    load_ok: bool,
) -> ResolveStep {
    match v {
        Value::Nil => ResolveStep::Done(terminal(err)),
        Value::Keymap(h) => if h < nmaps {
            ResolveStep::Done(Ok(v))
        } else {
            ResolveStep::Done(terminal(err))
        },
        _ => {
            let tem = indirect(fns, v);
            match tem {
                Value::Keymap(h) => if h < nmaps {
                    ResolveStep::Done(Ok(tem))
                } else {
                    ResolveStep::Done(terminal(err))
                },
                Value::AutoloadKm(d) => match v {
                    Value::Sym(s) => if load_ok {
                        ResolveStep::NeedLoad(s, d)
                    } else if !err {
                        ResolveStep::Done(Ok(v))
                    } else {
                        ResolveStep::Done(terminal(err))
                    },
                    _ => ResolveStep::Done(terminal(err)),
                },
                _ => ResolveStep::Done(terminal(err)),
            }
        },
    }
}

/// Function cells after loading descriptor `d` for symbol `s`: the
/// registered value is installed into the symbol's cell; an unregistered
/// descriptor or unknown symbol loads nothing.
pub open spec fn load_fns(fns: Seq<Value>, loads: Seq<Value>, s: u64, d: u64) -> Seq<Value> {
    if d < loads.len() && s < fns.len() {
        fns.update(s as int, loads[d as int])
    } else {
        fns
    }
}

/// Result of a full resolution: one pass, at most one load, then one more
/// pass with loading disabled.
pub open spec fn resolve_res(
    nmaps: nat,
    fns: Seq<Value>,
    loads: Seq<Value>,
    v: Value,
    err: bool,
    load_ok: bool,
) -> Result<Value, KmError> {
    match resolve_now(nmaps, fns, v, err, load_ok) {
        ResolveStep::Done(r) => r,
        ResolveStep::NeedLoad(s, d) => match resolve_now(
            nmaps,
            load_fns(fns, loads, s, d),
            v,
            err,
            false,
        ) {
            ResolveStep::Done(r) => r,
            ResolveStep::NeedLoad(_, _) => terminal(err),
        },
    }
}

/// Function cells after a full resolution: changed only when a load ran.
pub open spec fn resolve_fns(
    nmaps: nat,
    fns: Seq<Value>,
    loads: Seq<Value>,
    v: Value,
    err: bool,
    load_ok: bool,
) -> Seq<Value> {
    match resolve_now(nmaps, fns, v, err, load_ok) {
        ResolveStep::Done(_) => fns,
        ResolveStep::NeedLoad(s, d) => load_fns(fns, loads, s, d),
    }
}

/// Under `error_if_not_keymap`, resolution either fails with `WrongType`
/// or returns a stored keymap handle.
pub proof fn lemma_resolve_strict(
    nmaps: nat,
    fns: Seq<Value>,
    loads: Seq<Value>,
    v: Value,
    load_ok: bool,
)
    ensures
        match resolve_res(nmaps, fns, loads, v, true, load_ok) {
            Ok(w) => match w {
                Value::Keymap(h) => h < nmaps,
                _ => false,
            },
            Err(e) => e == KmError::WrongType,
        },
{
}

/// Without `error_if_not_keymap`, resolution never fails.
pub proof fn lemma_resolve_lenient(
    nmaps: nat,
    fns: Seq<Value>,
    loads: Seq<Value>,
    v: Value,
    load_ok: bool,
)
    ensures
        resolve_res(nmaps, fns, loads, v, false, load_ok) is Ok,
{
}

/// A keymap handle that resolution returns is always a stored one.
pub proof fn lemma_resolve_handle(
    nmaps: nat,
    fns: Seq<Value>,
    loads: Seq<Value>,
    v: Value,
    err: bool,
    load_ok: bool,
)
    ensures
        match resolve_res(nmaps, fns, loads, v, err, load_ok) {
            Ok(w) => match w {
                Value::Keymap(h) => h < nmaps,
                _ => true,
            },
            Err(_) => true,
        },
{
}

/// `keymapp`: `v` is keymap-shaped — it resolves, without loading, to a
/// keymap or to a symbol whose cell is a loadable keymap descriptor.
pub open spec fn keymapp_sp(nmaps: nat, fns: Seq<Value>, v: Value) -> bool {
    match resolve_now(nmaps, fns, v, false, false) {
        ResolveStep::Done(r) => match r {
            Ok(w) => w != Value::Nil,
            Err(_) => false,
        },
        ResolveStep::NeedLoad(_, _) => false,
    }
}

impl Store {
    /// The failure value under `err`.
    fn terminal_res(err: bool) -> (r: Result<Value, KmError>)
        ensures
            r == terminal(err),
    {
        if err {
            Err(KmError::WrongType)
        } else {
            Ok(Value::Nil)
        }
    }

    /// One level of symbol indirection through the function cells.
    fn indirect_fn(&self, v: Value) -> (r: Value)
        ensures
            r == indirect(self@.fndefs, v),
    {
        match v {
            Value::Sym(s) => {
                let n = self.fndefs.len();
                if s < n as u64 {
                    self.fndefs[sym_index(s, n)]
                } else {
                    Value::Nil
                }
            },
            _ => v,
        }
    }

    /// One resolution pass; reads the store without changing it.
    pub(crate) fn resolve_once(&self, v: Value, err: bool, load_ok: bool) -> (r: ResolveStep)
        ensures
            r == resolve_now(self@.maps.len(), self@.fndefs, v, err, load_ok),
    {
        let nmaps = self.maps.len();
        match v {
            Value::Nil => ResolveStep::Done(Self::terminal_res(err)),
            Value::Keymap(h) => {
                if h < nmaps {
                    ResolveStep::Done(Ok(v))
                } else {
                    ResolveStep::Done(Self::terminal_res(err))
                }
            },
            _ => {
                let tem = self.indirect_fn(v);
                match tem {
                    Value::Keymap(h) => {
                        if h < nmaps {
                            ResolveStep::Done(Ok(tem))
                        } else {
                            ResolveStep::Done(Self::terminal_res(err))
                        }
                    },
                    Value::AutoloadKm(_d) => {
                        match v {
                            Value::Sym(s) => {
                                if load_ok {
                                    ResolveStep::NeedLoad(s, _d)
                                } else if !err {
                                    ResolveStep::Done(Ok(v))
                                } else {
                                    ResolveStep::Done(Self::terminal_res(err))
                                }
                            },
                            _ => ResolveStep::Done(Self::terminal_res(err)),
                        }
                    },
                    _ => ResolveStep::Done(Self::terminal_res(err)),
                }
            },
        }
    }

    /// Run the loader for descriptor `d` of symbol `s`: install the
    /// registered value into the symbol's function cell; an unregistered
    /// descriptor loads nothing.
    fn do_load(&mut self, s: u64, d: u64)
        requires
            old(self).wf(),
        ensures
            final(self).wf(),
            final(self)@ == (StoreV {
                fndefs: load_fns(old(self)@.fndefs, old(self)@.loads, s, d),
                ..old(self)@
            }),
    {
        let nl = self.loads.len();
        let nf = self.fndefs.len();
        if d < nl as u64 && s < nf as u64 {
            let target = self.loads[sym_index(d, nl)];
            let i = sym_index(s, nf);
            vec_set(&mut self.fndefs, i, target);
        }
        proof {
            assert(self@ =~= StoreV {
                fndefs: load_fns(old(self)@.fndefs, old(self)@.loads, s, d),
                ..old(self)@
            });
            assert(parents_of(self@) =~= parents_of(old(self)@));
        }
    }

    /// Canonicalize `object` into a keymap.
    ///
    /// Follows one level of symbol indirection; with `autoload`, a symbol
    /// whose function cell is a deferred-keymap descriptor is loaded once
    /// and resolution retried.  Under `error_if_not_keymap` a value that
    /// does not resolve fails with `WrongType`, otherwise `Ok(Nil)` is
    /// returned; a loadable symbol met with loading off (and failure not
    /// demanded) is returned unresolved, as itself.
    pub fn get_keymap(&mut self, object: Value, error_if_not_keymap: bool, autoload: bool) -> (r:
        Result<Value, KmError>)
        requires
            old(self).wf(),
        ensures
            final(self).wf(),
            r == resolve_res(
                old(self)@.maps.len(),
                old(self)@.fndefs,
                old(self)@.loads,
                object,
                error_if_not_keymap,
                autoload,
            ),
            final(self)@ == (StoreV {
                fndefs: resolve_fns(
                    old(self)@.maps.len(),
                    old(self)@.fndefs,
                    old(self)@.loads,
                    object,
                    error_if_not_keymap,
                    autoload,
                ),
                ..old(self)@
            }),
    {
        match self.resolve_once(object, error_if_not_keymap, autoload) {
            ResolveStep::Done(r) => {
                proof {
                    assert(self@ =~= StoreV { fndefs: self@.fndefs, ..old(self)@ });
                }
                r
            },
            ResolveStep::NeedLoad(s, d) => {
                self.do_load(s, d);
                match self.resolve_once(object, error_if_not_keymap, false) {
                    ResolveStep::Done(r) => r,
                    ResolveStep::NeedLoad(_, _) => {
                        // the second pass runs with loading off and cannot ask again
                        proof {
                            assert(false);
                        }
                        Err(KmError::WrongType)
                    },
                }
            },
        }
    }

    /// Whether `v` is keymap-shaped: a keymap, or a symbol resolving (or
    /// loadable) to one.
    pub fn keymapp(&self, v: Value) -> (b: bool)
        ensures
            b == keymapp_sp(self@.maps.len(), self@.fndefs, v),
    {
        match self.resolve_once(v, false, false) {
            ResolveStep::Done(r) => {
                match r {
                    Ok(w) => w != Value::Nil,
                    Err(_) => false,
                }
            },
            ResolveStep::NeedLoad(_, _) => false,
        }
    }
}

} // verus!

use keymap_engine::data::Event;
use keymap_engine::data::KeyElem;
use keymap_engine::data::KmError;
use keymap_engine::data::LookupRes;
use keymap_engine::data::Value;
use keymap_engine::store::Store;

fn key(c: u32) -> KeyElem {
    KeyElem::Ev(Event::Char(c))
}

#[test]
fn parent_of_fresh_keymap_is_nil() {
    let mut st = Store::new();
    let m = st.make_sparse_keymap(None);
    assert_eq!(st.keymap_parent(Value::Keymap(m), false), Ok(Value::Nil));
    assert_eq!(st.keymap_parent_lisp(Value::Keymap(m)), Ok(Value::Nil));
}

#[test]
fn set_parent_links_and_returns_parent() {
    let mut st = Store::new();
    let m = st.make_sparse_keymap(None);
    let m2 = st.make_sparse_keymap(None);
    let r = st.set_keymap_parent(Value::Keymap(m2), Value::Keymap(m));
    assert_eq!(r, Ok(Value::Keymap(m)));
    assert_eq!(st.keymap_parent(Value::Keymap(m2), false), Ok(Value::Keymap(m)));
    // removing the parent again
    let r = st.set_keymap_parent(Value::Keymap(m2), Value::Nil);
    assert_eq!(r, Ok(Value::Nil));
    assert_eq!(st.keymap_parent(Value::Keymap(m2), false), Ok(Value::Nil));
}

#[test]
fn ancestor_walk_finds_whole_chain() {
    let mut st = Store::new();
    let a = st.make_sparse_keymap(None);
    let b = st.make_sparse_keymap(None);
    let c = st.make_sparse_keymap(None);
    st.set_keymap_parent(Value::Keymap(b), Value::Keymap(a)).unwrap();
    st.set_keymap_parent(Value::Keymap(c), Value::Keymap(b)).unwrap();
    // every node of the chain is a member, starting from the bottom
    assert!(st.keymap_memberp(Value::Keymap(c), Value::Keymap(c)));
    assert!(st.keymap_memberp(Value::Keymap(b), Value::Keymap(c)));
    assert!(st.keymap_memberp(Value::Keymap(a), Value::Keymap(c)));
    // nothing above the top, and nothing sideways
    assert!(!st.keymap_memberp(Value::Keymap(c), Value::Keymap(a)));
    assert!(!st.keymap_memberp(Value::Keymap(c), Value::Keymap(b)));
    let other = st.make_sparse_keymap(None);
    assert!(!st.keymap_memberp(Value::Keymap(other), Value::Keymap(c)));
    // nil is never a member
    assert!(!st.keymap_memberp(Value::Nil, Value::Keymap(c)));
}

#[test]
fn self_parent_fails_with_cyclic_inheritance() {
    let mut st = Store::new();
    let m = st.make_sparse_keymap(None);
    let r = st.set_keymap_parent(Value::Keymap(m), Value::Keymap(m));
    assert_eq!(r, Err(KmError::CyclicInheritance));
    assert_eq!(st.keymap_parent(Value::Keymap(m), false), Ok(Value::Nil));
}

#[test]
fn transitive_cycle_fails_and_leaves_keymap_unchanged() {
    let mut st = Store::new();
    let m = st.make_sparse_keymap(None);
    let cmd = st.new_symbol();
    st.define_binding(m, Event::Char('a' as u32), Value::Sym(cmd)).unwrap();
    let m2 = st.make_sparse_keymap(None);
    st.set_keymap_parent(Value::Keymap(m2), Value::Keymap(m)).unwrap();
    // attaching m2 as m's parent would close the loop
    let r = st.set_keymap_parent(Value::Keymap(m), Value::Keymap(m2));
    assert_eq!(r, Err(KmError::CyclicInheritance));
    // m's parent is still unset, its binding untouched
    assert_eq!(st.keymap_parent(Value::Keymap(m), false), Ok(Value::Nil));
    let keys = vec![key('a' as u32)];
    let r = st.lookup_key(Value::Keymap(m), &keys, false, false);
    assert_eq!(r, Ok(LookupRes::Found(Value::Sym(cmd))));
    // and m2 still inherits from m
    let r = st.lookup_key(Value::Keymap(m2), &keys, false, false);
    assert_eq!(r, Ok(LookupRes::Found(Value::Sym(cmd))));
}

#[test]
fn immutable_keymap_refuses_mutation() {
    let mut st = Store::new();
    let m = st.make_sparse_keymap(None);
    let p = st.make_sparse_keymap(None);
    st.mark_immutable(m);
    let cmd = st.new_symbol();
    assert_eq!(
        st.define_binding(m, Event::Char('a' as u32), Value::Sym(cmd)),
        Err(KmError::ImmutableKeymap)
    );
    assert_eq!(
        st.define_range_binding(m, 0, 9, Value::Sym(cmd)),
        Err(KmError::ImmutableKeymap)
    );
    assert_eq!(
        st.set_keymap_parent(Value::Keymap(m), Value::Keymap(p)),
        Err(KmError::ImmutableKeymap)
    );
    assert_eq!(st.keymap_parent(Value::Keymap(m), false), Ok(Value::Nil));
}

#[test]
fn set_parent_of_non_keymap_is_wrong_type() {
    let mut st = Store::new();
    let m = st.make_sparse_keymap(None);
    assert_eq!(
        st.set_keymap_parent(Value::Int(3), Value::Keymap(m)),
        Err(KmError::WrongType)
    );
    assert_eq!(
        st.set_keymap_parent(Value::Keymap(m), Value::Int(3)),
        Err(KmError::WrongType)
    );
}

#[test]
fn keymapp_recognizes_keymap_shapes() {
    let mut st = Store::new();
    let m = st.make_sparse_keymap(None);
    assert!(st.keymapp(Value::Keymap(m)));
    assert!(!st.keymapp(Value::Nil));
    assert!(!st.keymapp(Value::Int(5)));
    // a symbol whose function cell holds a keymap is keymap-shaped
    let s = st.new_symbol();
    assert!(!st.keymapp(Value::Sym(s)));
    st.set_function(s, Value::Keymap(m));
    assert!(st.keymapp(Value::Sym(s)));
    // so is a symbol whose function cell is a loadable keymap descriptor
    let s2 = st.new_symbol();
    let d = st.new_autoload(Value::Keymap(m));
    st.set_function(s2, Value::AutoloadKm(d));
    assert!(st.keymapp(Value::Sym(s2)));
}

#[test]
fn autoload_resolves_once_loaded() {
    let mut st = Store::new();
    let m = st.make_sparse_keymap(None);
    let cmd = st.new_symbol();
    st.define_binding(m, Event::Char('k' as u32), Value::Sym(cmd)).unwrap();
    let s = st.new_symbol();
    let d = st.new_autoload(Value::Keymap(m));
    st.set_function(s, Value::AutoloadKm(d));
    // without loading, the symbol is returned unresolved
    assert_eq!(st.get_keymap(Value::Sym(s), false, false), Ok(Value::Sym(s)));
    // with loading, resolution installs the keymap and returns it
    assert_eq!(st.get_keymap(Value::Sym(s), true, true), Ok(Value::Keymap(m)));
    // the load is persistent: the function cell now holds the keymap
    assert_eq!(st.get_keymap(Value::Sym(s), true, false), Ok(Value::Keymap(m)));
    // and a lookup through the symbol works
    let keys = vec![key('k' as u32)];
    let r = st.lookup_key(Value::Sym(s), &keys, false, false);
    assert_eq!(r, Ok(LookupRes::Found(Value::Sym(cmd))));
}

#[test]
fn failed_load_falls_back_to_error() {
    let mut st = Store::new();
    let s = st.new_symbol();
    // a descriptor nobody registered a target for: the load is a no-op
    st.set_function(s, Value::AutoloadKm(42));
    assert_eq!(st.get_keymap(Value::Sym(s), true, true), Err(KmError::WrongType));
    // without failure demanded, the symbol comes back unresolved
    assert_eq!(st.get_keymap(Value::Sym(s), false, true), Ok(Value::Sym(s)));
}

#[test]
fn get_keymap_follows_one_indirection_level() {
    let mut st = Store::new();
    let m = st.make_sparse_keymap(None);
    let s1 = st.new_symbol();
    let s2 = st.new_symbol();
    st.set_function(s1, Value::Keymap(m));
    st.set_function(s2, Value::Sym(s1));
    assert_eq!(st.get_keymap(Value::Sym(s1), true, false), Ok(Value::Keymap(m)));
    // a symbol chaining to another symbol is not chased further
    assert_eq!(st.get_keymap(Value::Sym(s2), false, false), Ok(Value::Nil));
}

use keymap_engine::data::normalize_elem;
use keymap_engine::data::Event;
use keymap_engine::data::KeyElem;
use keymap_engine::data::KmError;
use keymap_engine::data::META_BIT;
use keymap_engine::data::Value;
use keymap_engine::data::VisitKey;
use keymap_engine::store::Store;

#[test]
fn visit_merges_dense_and_alist_encodings() {
    let mut st = Store::new();
    let m = st.make_keymap(None, 128);
    let cmd_a = st.new_symbol();
    let cmd_b = st.new_symbol();
    let f5 = st.new_symbol();
    st.define_binding(m, Event::Char(5), Value::Sym(cmd_a)).unwrap();
    st.define_binding(m, Event::Sym(f5), Value::Sym(cmd_b)).unwrap();
    let items = st.map_keymap(Value::Keymap(m), true).unwrap();
    assert_eq!(items.len(), 2);
    assert!(items.contains(&(VisitKey::Ev(Event::Char(5)), Value::Sym(cmd_a))));
    assert!(items.contains(&(VisitKey::Ev(Event::Sym(f5)), Value::Sym(cmd_b))));
}

#[test]
fn visit_reports_each_occurrence_once_in_storage_order() {
    let mut st = Store::new();
    let m = st.make_keymap(None, 8);
    let c1 = st.new_symbol();
    let c2 = st.new_symbol();
    let c3 = st.new_symbol();
    st.define_binding(m, Event::Char(3), Value::Sym(c1)).unwrap();
    st.define_binding(m, Event::Char(1), Value::Sym(c2)).unwrap();
    st.define_range_binding(m, 100, 120, Value::Sym(c3)).unwrap();
    let items = st.map_keymap(Value::Keymap(m), true).unwrap();
    // dense slots come in ascending order, then the appended range row
    assert_eq!(
        items,
        vec![
            (VisitKey::Ev(Event::Char(1)), Value::Sym(c2)),
            (VisitKey::Ev(Event::Char(3)), Value::Sym(c1)),
            (VisitKey::Range(100, 120), Value::Sym(c3)),
        ]
    );
}

#[test]
fn visit_includes_ancestors_but_never_the_parent_link() {
    let mut st = Store::new();
    let parent = st.make_sparse_keymap(None);
    let child = st.make_sparse_keymap(None);
    let pc = st.new_symbol();
    let cc = st.new_symbol();
    st.define_binding(parent, Event::Char('p' as u32), Value::Sym(pc)).unwrap();
    st.define_binding(child, Event::Char('c' as u32), Value::Sym(cc)).unwrap();
    st.set_keymap_parent(Value::Keymap(child), Value::Keymap(parent)).unwrap();
    let items = st.map_keymap(Value::Keymap(child), true).unwrap();
    assert_eq!(
        items,
        vec![
            (VisitKey::Ev(Event::Char('c' as u32)), Value::Sym(cc)),
            (VisitKey::Ev(Event::Char('p' as u32)), Value::Sym(pc)),
        ]
    );
    // no item carries the parent keymap as a binding
    assert!(!items.iter().any(|it| it.1 == Value::Keymap(parent)));
}

#[test]
fn one_level_visit_stops_at_parent_boundary() {
    let mut st = Store::new();
    let parent = st.make_sparse_keymap(None);
    let child = st.make_sparse_keymap(None);
    let pc = st.new_symbol();
    let cc = st.new_symbol();
    st.define_binding(parent, Event::Char('p' as u32), Value::Sym(pc)).unwrap();
    st.define_binding(child, Event::Char('c' as u32), Value::Sym(cc)).unwrap();
    st.set_keymap_parent(Value::Keymap(child), Value::Keymap(parent)).unwrap();
    let (items, remainder) = st.map_keymap_internal(Value::Keymap(child)).unwrap();
    assert_eq!(items, vec![(VisitKey::Ev(Event::Char('c' as u32)), Value::Sym(cc))]);
    assert_eq!(remainder, Value::Keymap(parent));
    let (items, remainder) = st.map_keymap_internal(Value::Keymap(parent)).unwrap();
    assert_eq!(items, vec![(VisitKey::Ev(Event::Char('p' as u32)), Value::Sym(pc))]);
    assert_eq!(remainder, Value::Nil);
}

#[test]
fn visit_of_non_keymap_is_wrong_type() {
    let mut st = Store::new();
    assert_eq!(st.map_keymap(Value::Int(1), true), Err(KmError::WrongType));
    assert_eq!(st.map_keymap_internal(Value::Nil), Err(KmError::WrongType));
}

#[test]
fn prompt_read_from_keymap_or_ancestors() {
    let mut st = Store::new();
    let named = st.make_sparse_keymap(Some(501));
    assert_eq!(st.keymap_prompt(Value::Keymap(named)), Value::Str(501));
    let bare = st.make_sparse_keymap(None);
    assert_eq!(st.keymap_prompt(Value::Keymap(bare)), Value::Nil);
    st.set_keymap_parent(Value::Keymap(bare), Value::Keymap(named)).unwrap();
    assert_eq!(st.keymap_prompt(Value::Keymap(bare)), Value::Str(501));
    assert_eq!(st.keymap_prompt(Value::Int(4)), Value::Nil);
    // a dense keymap stores its prompt after the table
    let dense = st.make_keymap(Some(777), 16);
    assert_eq!(st.keymap_prompt(Value::Keymap(dense)), Value::Str(777));
}

#[test]
fn where_is_reports_keys_for_command() {
    let mut st = Store::new();
    let m = st.make_sparse_keymap(None);
    let cmd = st.new_symbol();
    let other = st.new_symbol();
    st.define_binding(m, Event::Char('a' as u32), Value::Sym(cmd)).unwrap();
    st.define_binding(m, Event::Char('b' as u32), Value::Sym(other)).unwrap();
    st.define_binding(m, Event::Char('c' as u32), Value::Sym(cmd)).unwrap();
    let keys = st.where_is(Value::Keymap(m), Value::Sym(cmd)).unwrap();
    assert_eq!(
        keys,
        vec![VisitKey::Ev(Event::Char('a' as u32)), VisitKey::Ev(Event::Char('c' as u32))]
    );
    let keys = st.where_is(Value::Keymap(m), Value::Sym(other)).unwrap();
    assert_eq!(keys, vec![VisitKey::Ev(Event::Char('b' as u32))]);
}

#[test]
fn where_is_includes_inherited_bindings() {
    let mut st = Store::new();
    let parent = st.make_sparse_keymap(None);
    let child = st.make_sparse_keymap(None);
    let cmd = st.new_symbol();
    st.define_binding(parent, Event::Char('z' as u32), Value::Sym(cmd)).unwrap();
    st.set_keymap_parent(Value::Keymap(child), Value::Keymap(parent)).unwrap();
    let keys = st.where_is(Value::Keymap(child), Value::Sym(cmd)).unwrap();
    assert_eq!(keys, vec![VisitKey::Ev(Event::Char('z' as u32))]);
}

#[test]
fn set_parent_advances_generation_and_flushes_cache() {
    let mut st = Store::new();
    let m = st.make_sparse_keymap(None);
    let p = st.make_sparse_keymap(None);
    let cmd = st.new_symbol();
    st.define_binding(p, Event::Char('q' as u32), Value::Sym(cmd)).unwrap();
    // build the memo
    let keys = st.where_is(Value::Keymap(m), Value::Sym(cmd)).unwrap();
    assert_eq!(keys, vec![]);
    assert!(st.cache_present());
    let g0 = st.cache_generation();
    // any parent attachment — even a failing one — flushes and advances
    st.set_keymap_parent(Value::Keymap(m), Value::Keymap(p)).unwrap();
    assert!(!st.cache_present());
    assert_eq!(st.cache_generation(), g0 + 1);
    // the next reverse lookup answers from the new topology
    let keys = st.where_is(Value::Keymap(m), Value::Sym(cmd)).unwrap();
    assert_eq!(keys, vec![VisitKey::Ev(Event::Char('q' as u32))]);
    // a failing attachment still invalidates
    let g1 = st.cache_generation();
    assert!(st.cache_present());
    let r = st.set_keymap_parent(Value::Keymap(p), Value::Keymap(m));
    assert_eq!(r, Err(KmError::CyclicInheritance));
    assert!(!st.cache_present());
    assert_eq!(st.cache_generation(), g1 + 1);
}

#[test]
fn explicit_invalidation_after_bulk_rebinding() {
    let mut st = Store::new();
    let m = st.make_sparse_keymap(None);
    let cmd = st.new_symbol();
    st.define_binding(m, Event::Char('a' as u32), Value::Sym(cmd)).unwrap();
    let keys = st.where_is(Value::Keymap(m), Value::Sym(cmd)).unwrap();
    assert_eq!(keys, vec![VisitKey::Ev(Event::Char('a' as u32))]);
    // plain binding insertion leaves the memo alone: the caller invalidates
    st.define_binding(m, Event::Char('b' as u32), Value::Sym(cmd)).unwrap();
    let g = st.cache_generation();
    st.invalidate_cache();
    assert_eq!(st.cache_generation(), g + 1);
    assert!(!st.cache_present());
    let keys = st.where_is(Value::Keymap(m), Value::Sym(cmd)).unwrap();
    assert_eq!(
        keys,
        vec![VisitKey::Ev(Event::Char('a' as u32)), VisitKey::Ev(Event::Char('b' as u32))]
    );
}

#[test]
fn normalize_elem_shapes() {
    assert_eq!(
        normalize_elem(KeyElem::ModList(7, 2, -1), false),
        Some(Event::Pair(7, 2, -1))
    );
    assert_eq!(normalize_elem(KeyElem::Other(3), false), None);
    assert_eq!(
        normalize_elem(KeyElem::Ev(Event::Char(0xE4)), true),
        Some(Event::Char((0xE4 | META_BIT) & !0x80))
    );
    assert_eq!(
        normalize_elem(KeyElem::Ev(Event::Char(0x61)), true),
        Some(Event::Char(0x61))
    );
}

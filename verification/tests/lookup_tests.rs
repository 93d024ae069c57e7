use keymap_engine::data::Event;
use keymap_engine::data::KeyElem;
use keymap_engine::data::KmError;
use keymap_engine::data::LookupRes;
use keymap_engine::data::Value;
use keymap_engine::data::META_BIT;
use keymap_engine::store::Store;
use keymap_engine::Ctl;

fn key(c: u32) -> KeyElem {
    KeyElem::Ev(Event::Char(c))
}

#[test]
fn ctl_masks_low_five_bits() {
    assert_eq!(Ctl('a'), 1);
    assert_eq!(Ctl('g'), 7);
    assert_eq!(Ctl('@'), 0);
    assert_eq!(Ctl('?'), 31);
}

#[test]
fn empty_sequence_returns_keymap_itself() {
    let mut st = Store::new();
    let m = st.make_sparse_keymap(None);
    let keys: Vec<KeyElem> = Vec::new();
    let r = st.lookup_key(Value::Keymap(m), &keys, false, false);
    assert_eq!(r, Ok(LookupRes::Found(Value::Keymap(m))));
}

#[test]
fn sparse_binding_found() {
    let mut st = Store::new();
    let m = st.make_sparse_keymap(None);
    let self_insert = st.new_symbol();
    st.define_binding(m, Event::Char('a' as u32), Value::Sym(self_insert)).unwrap();
    let keys = vec![key('a' as u32)];
    let r = st.lookup_key(Value::Keymap(m), &keys, false, false);
    assert_eq!(r, Ok(LookupRes::Found(Value::Sym(self_insert))));
}

#[test]
fn unbound_event_is_undefined() {
    let mut st = Store::new();
    let m = st.make_sparse_keymap(None);
    let keys = vec![key('z' as u32)];
    let r = st.lookup_key(Value::Keymap(m), &keys, false, false);
    assert_eq!(r, Ok(LookupRes::Found(Value::Nil)));
}

#[test]
fn inherited_binding_found_through_parent() {
    let mut st = Store::new();
    let m = st.make_sparse_keymap(None);
    let self_insert = st.new_symbol();
    st.define_binding(m, Event::Char('a' as u32), Value::Sym(self_insert)).unwrap();
    let m2 = st.make_sparse_keymap(None);
    let r = st.set_keymap_parent(Value::Keymap(m2), Value::Keymap(m));
    assert_eq!(r, Ok(Value::Keymap(m)));
    let keys = vec![key('a' as u32)];
    let r = st.lookup_key(Value::Keymap(m2), &keys, false, false);
    assert_eq!(r, Ok(LookupRes::Found(Value::Sym(self_insert))));
}

#[test]
fn child_binding_shadows_parent() {
    let mut st = Store::new();
    let parent = st.make_sparse_keymap(None);
    let child = st.make_sparse_keymap(None);
    let cmd_parent = st.new_symbol();
    let cmd_child = st.new_symbol();
    st.define_binding(parent, Event::Char('a' as u32), Value::Sym(cmd_parent)).unwrap();
    st.define_binding(child, Event::Char('a' as u32), Value::Sym(cmd_child)).unwrap();
    st.set_keymap_parent(Value::Keymap(child), Value::Keymap(parent)).unwrap();
    let keys = vec![key('a' as u32)];
    let r = st.lookup_key(Value::Keymap(child), &keys, false, false);
    assert_eq!(r, Ok(LookupRes::Found(Value::Sym(cmd_child))));
}

#[test]
fn prefix_key_descends_into_nested_keymap() {
    let mut st = Store::new();
    let m = st.make_sparse_keymap(None);
    let self_insert = st.new_symbol();
    st.define_binding(m, Event::Char('a' as u32), Value::Sym(self_insert)).unwrap();
    let m3 = st.make_sparse_keymap(None);
    st.define_binding(m3, Event::Char('x' as u32), Value::Keymap(m)).unwrap();
    let keys = vec![key('x' as u32), key('a' as u32)];
    let r = st.lookup_key(Value::Keymap(m3), &keys, false, false);
    assert_eq!(r, Ok(LookupRes::Found(Value::Sym(self_insert))));
    let keys = vec![key('x' as u32), key('z' as u32)];
    let r = st.lookup_key(Value::Keymap(m3), &keys, false, false);
    assert_eq!(r, Ok(LookupRes::Found(Value::Nil)));
    let keys = vec![key('y' as u32)];
    let r = st.lookup_key(Value::Keymap(m3), &keys, false, false);
    assert_eq!(r, Ok(LookupRes::Found(Value::Nil)));
    let keys = vec![key('x' as u32)];
    let r = st.lookup_key(Value::Keymap(m3), &keys, false, false);
    assert_eq!(r, Ok(LookupRes::Found(Value::Keymap(m))));
}

#[test]
fn too_long_counts_events_before_break() {
    let mut st = Store::new();
    let inner = st.make_sparse_keymap(None);
    let outer = st.make_sparse_keymap(None);
    let cmd = st.new_symbol();
    st.define_binding(outer, Event::Char('x' as u32), Value::Keymap(inner)).unwrap();
    st.define_binding(inner, Event::Char('y' as u32), Value::Sym(cmd)).unwrap();
    // three events; the second one's binding is a plain command, so the
    // walk breaks after consuming two events, whatever the third is
    let keys = vec![key('x' as u32), key('y' as u32), key(123456)];
    let r = st.lookup_key(Value::Keymap(outer), &keys, false, false);
    assert_eq!(r, Ok(LookupRes::TooLong(2)));
    let keys = vec![key('x' as u32), key('y' as u32), key(0)];
    let r = st.lookup_key(Value::Keymap(outer), &keys, false, false);
    assert_eq!(r, Ok(LookupRes::TooLong(2)));
}

#[test]
fn table_binding_shadows_alist_for_same_char() {
    let mut st = Store::new();
    let m = st.make_sparse_keymap(None);
    let cmd_table = st.new_symbol();
    let cmd_alist = st.new_symbol();
    // an alist pair for 'a', then a table entry covering the same code
    st.define_binding(m, Event::Char('a' as u32), Value::Sym(cmd_alist)).unwrap();
    st.define_range_binding(m, 'a' as u32, 'a' as u32, Value::Sym(cmd_table)).unwrap();
    let keys = vec![key('a' as u32)];
    let r = st.lookup_key(Value::Keymap(m), &keys, false, false);
    assert_eq!(r, Ok(LookupRes::Found(Value::Sym(cmd_table))));
    // in a dense keymap the slot binding is likewise what lookup returns
    let d = st.make_keymap(None, 128);
    st.define_binding(d, Event::Char('a' as u32), Value::Sym(cmd_table)).unwrap();
    let r = st.lookup_key(Value::Keymap(d), &keys, false, false);
    assert_eq!(r, Ok(LookupRes::Found(Value::Sym(cmd_table))));
}

#[test]
fn wildcard_needs_accept_default() {
    let mut st = Store::new();
    let m = st.make_sparse_keymap(None);
    let fallback = st.new_symbol();
    st.define_binding(m, Event::Wildcard, Value::Sym(fallback)).unwrap();
    let keys = vec![key('q' as u32)];
    let r = st.lookup_key(Value::Keymap(m), &keys, false, false);
    assert_eq!(r, Ok(LookupRes::Found(Value::Nil)));
    let r = st.lookup_key(Value::Keymap(m), &keys, false, true);
    assert_eq!(r, Ok(LookupRes::Found(Value::Sym(fallback))));
}

#[test]
fn plain_string_high_bit_becomes_meta() {
    let mut st = Store::new();
    let m = st.make_sparse_keymap(None);
    let cmd = st.new_symbol();
    let folded = ('a' as u32) | META_BIT;
    st.define_binding(m, Event::Char(folded), Value::Sym(cmd)).unwrap();
    let raw = ('a' as u32) | 0x80;
    let keys = vec![key(raw)];
    let r = st.lookup_key(Value::Keymap(m), &keys, true, false);
    assert_eq!(r, Ok(LookupRes::Found(Value::Sym(cmd))));
    // without the plain-string flag the raw code is looked up as is
    let r = st.lookup_key(Value::Keymap(m), &keys, false, false);
    assert_eq!(r, Ok(LookupRes::Found(Value::Nil)));
}

#[test]
fn modifier_list_normalizes_to_pair() {
    let mut st = Store::new();
    let m = st.make_sparse_keymap(None);
    let cmd = st.new_symbol();
    let mouse = st.new_symbol();
    st.define_binding(m, Event::Pair(mouse, 4, 77), Value::Sym(cmd)).unwrap();
    let keys = vec![KeyElem::ModList(mouse, 4, 77)];
    let r = st.lookup_key(Value::Keymap(m), &keys, false, false);
    assert_eq!(r, Ok(LookupRes::Found(Value::Sym(cmd))));
}

#[test]
fn invalid_event_is_an_error() {
    let mut st = Store::new();
    let m = st.make_sparse_keymap(None);
    let keys = vec![KeyElem::Other(9)];
    let r = st.lookup_key(Value::Keymap(m), &keys, false, false);
    assert_eq!(r, Err(KmError::InvalidEvent));
}

#[test]
fn non_keymap_lookup_is_wrong_type() {
    let mut st = Store::new();
    let keys = vec![key('a' as u32)];
    let r = st.lookup_key(Value::Int(7), &keys, false, false);
    assert_eq!(r, Err(KmError::WrongType));
    let r = st.lookup_key(Value::Nil, &keys, false, false);
    assert_eq!(r, Err(KmError::WrongType));
}

#[test]
fn pending_interrupt_quits_between_events() {
    let mut st = Store::new();
    let inner = st.make_sparse_keymap(None);
    let outer = st.make_sparse_keymap(None);
    let cmd = st.new_symbol();
    st.define_binding(outer, Event::Char('x' as u32), Value::Keymap(inner)).unwrap();
    st.define_binding(inner, Event::Char('y' as u32), Value::Sym(cmd)).unwrap();
    st.set_quit_pending(true);
    let keys = vec![key('x' as u32), key('y' as u32)];
    let r = st.lookup_key(Value::Keymap(outer), &keys, false, false);
    assert_eq!(r, Ok(LookupRes::Quit));
    // a single-event lookup has no check point before its answer
    let keys = vec![key('x' as u32)];
    let r = st.lookup_key(Value::Keymap(outer), &keys, false, false);
    assert_eq!(r, Ok(LookupRes::Found(Value::Keymap(inner))));
}

#[test]
fn range_binding_covers_interval() {
    let mut st = Store::new();
    let m = st.make_sparse_keymap(None);
    let cmd = st.new_symbol();
    st.define_range_binding(m, '0' as u32, '9' as u32, Value::Sym(cmd)).unwrap();
    let keys = vec![key('5' as u32)];
    let r = st.lookup_key(Value::Keymap(m), &keys, false, false);
    assert_eq!(r, Ok(LookupRes::Found(Value::Sym(cmd))));
    let keys = vec![key('a' as u32)];
    let r = st.lookup_key(Value::Keymap(m), &keys, false, false);
    assert_eq!(r, Ok(LookupRes::Found(Value::Nil)));
}

#[test]
fn global_and_local_bindings() {
    let mut st = Store::new();
    let g = st.make_sparse_keymap(None);
    let l = st.make_sparse_keymap(None);
    let gcmd = st.new_symbol();
    let lcmd = st.new_symbol();
    st.define_binding(g, Event::Char('a' as u32), Value::Sym(gcmd)).unwrap();
    st.define_binding(l, Event::Char('a' as u32), Value::Sym(lcmd)).unwrap();
    let keys = vec![key('a' as u32)];
    // with no maps selected, both probes answer undefined
    assert_eq!(st.global_key_binding(&keys, false, false), Ok(LookupRes::Found(Value::Nil)));
    assert_eq!(st.local_key_binding(&keys, false, false), Ok(LookupRes::Found(Value::Nil)));
    st.use_global_map(Value::Keymap(g)).unwrap();
    st.use_local_map(Value::Keymap(l)).unwrap();
    assert_eq!(st.current_global_map(), Value::Keymap(g));
    assert_eq!(st.current_local_map(), Value::Keymap(l));
    assert_eq!(st.global_key_binding(&keys, false, false), Ok(LookupRes::Found(Value::Sym(gcmd))));
    assert_eq!(st.local_key_binding(&keys, false, false), Ok(LookupRes::Found(Value::Sym(lcmd))));
    st.use_local_map(Value::Nil).unwrap();
    assert_eq!(st.local_key_binding(&keys, false, false), Ok(LookupRes::Found(Value::Nil)));
}

#[test]
fn prefix_through_symbol_function_cell() {
    let mut st = Store::new();
    let cmd = st.new_symbol();
    let prefix_sym = st.new_symbol();
    let inner_cmd = st.new_symbol();
    let _ = cmd;
    let h = {
        let r = st.define_prefix_command(prefix_sym, None, None);
        assert_eq!(r, prefix_sym);
        match st.get_keymap(Value::Sym(prefix_sym), true, false) {
            Ok(Value::Keymap(h)) => h,
            other => panic!("prefix symbol did not resolve: {:?}", other),
        }
    };
    st.define_binding(h, Event::Char('b' as u32), Value::Sym(inner_cmd)).unwrap();
    let outer = st.make_sparse_keymap(None);
    st.define_binding(outer, Event::Char('x' as u32), Value::Sym(prefix_sym)).unwrap();
    let keys = vec![key('x' as u32), key('b' as u32)];
    let r = st.lookup_key(Value::Keymap(outer), &keys, false, false);
    assert_eq!(r, Ok(LookupRes::Found(Value::Sym(inner_cmd))));
}

use hack_textual::strings::{slice_to_vec, StringInterner, UnitBytesId};

#[test]
fn interning_the_same_text_twice_gives_one_id() {
    let mut strings = StringInterner::new();
    let this = strings.intern_str("$this");
    let other = strings.intern_str("other");
    assert_eq!(this, UnitBytesId(0));
    assert_eq!(other, UnitBytesId(1));
    assert_eq!(strings.intern_str("$this"), this);
    assert_eq!(strings.strings.len(), 2);
    assert_eq!(strings.lookup_bytes(other), b"other");
}

#[test]
fn interning_keeps_earlier_ids() {
    let mut strings = StringInterner::new();
    let a = strings.intern_bytes(b"a\xff\x00");
    let empty = strings.intern_bytes(b"");
    let longer = strings.intern_bytes(b"a\xff\x00b");
    assert_eq!(strings.lookup_bytes(a), b"a\xff\x00");
    assert_eq!(strings.lookup_bytes(empty), b"");
    assert_eq!(strings.lookup_bytes(longer), b"a\xff\x00b");
}

#[test]
fn text_is_interned_as_utf8() {
    let mut strings = StringInterner::new();
    let id = strings.intern_str("é");
    assert_eq!(strings.lookup_bytes(id), &[0xc3, 0xa9]);
    assert_eq!(strings.intern_bytes(&[0xc3, 0xa9]), id);
}

#[test]
fn an_optional_id_is_looked_up_where_it_is_there() {
    let mut strings = StringInterner::new();
    let id = strings.intern_str("ctx");
    assert_eq!(strings.lookup_bytes_or_none(Some(id)), Some(&b"ctx"[..]));
    assert_eq!(strings.lookup_bytes_or_none(None), None);
}

#[test]
fn a_slice_becomes_a_vector() {
    assert_eq!(slice_to_vec(&[3, 1, 2]), vec![3, 1, 2]);
    assert_eq!(slice_to_vec(&[]), Vec::<u8>::new());
}

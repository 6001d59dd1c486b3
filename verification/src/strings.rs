//! Interned byte strings.

use vstd::prelude::*;
use vstd::utf8::encode_utf8;

verus! {

/// The name of an interned byte string: its position in the interner.
#[derive(Clone, Copy, Debug, PartialEq, Eq, Structural)]
pub struct UnitBytesId(pub usize);

/// The distinct byte strings of a compilation unit, in the order in which they
/// were first seen.
#[derive(Debug)]
pub struct StringInterner {
    pub strings: Vec<Vec<u8>>,
}

/// The strings after `bytes` has been interned: unchanged where `bytes` was
/// there already, else one longer.
pub open spec fn with_string(strings: Seq<Seq<u8>>, bytes: Seq<u8>) -> Seq<Seq<u8>> {
    if strings.contains(bytes) {
        strings
    } else {
        strings.push(bytes)
    }
}

/// The id under which `bytes` is found once it has been interned.
pub open spec fn string_id(strings: Seq<Seq<u8>>, bytes: Seq<u8>) -> UnitBytesId {
    UnitBytesId(
        if strings.contains(bytes) {
            strings.index_of(bytes) as usize
        } else {
            strings.len() as usize
        },
    )
}

/// The id of a string given as text.
pub open spec fn text_id(strings: Seq<Seq<u8>>, text: Seq<char>) -> UnitBytesId {
    string_id(strings, encode_utf8(text))
}

/// The strings after `text` has been interned.
pub open spec fn with_text(strings: Seq<Seq<u8>>, text: Seq<char>) -> Seq<Seq<u8>> {
    with_string(strings, encode_utf8(text))
}

impl View for StringInterner {
    type V = Seq<Seq<u8>>;

    open spec fn view(&self) -> Seq<Seq<u8>> {
        self.strings@.map_values(|v: Vec<u8>| v@)
    }
}

/// Whether two byte slices hold the same bytes.
pub fn same_bytes(a: &[u8], b: &[u8]) -> (r: bool)
    ensures
        r == (a@ == b@),
{
    if a.len() != b.len() {
        return false;
    }
    let mut i: usize = 0;
    while i < a.len()
        invariant
            a.len() == b.len(),
            i <= a.len(),
            forall|k: int| 0 <= k < i ==> a@[k] == b@[k],
        decreases a.len() - i,
    {
        if a[i] != b[i] {
            return false;
        }
        i += 1;
    }
    assert(a@ =~= b@);
    true
}

impl StringInterner {
    /// No string is held twice.
    pub open spec fn wf(&self) -> bool {
        self@.no_duplicates()
    }

    pub fn new() -> (r: StringInterner)
        ensures
            r.wf(),
            r@ == Seq::<Seq<u8>>::empty(),
    {
        let r = StringInterner { strings: Vec::new() };
        assert(r@ =~= Seq::<Seq<u8>>::empty());
        r
    }

    /// The id of `bytes`, which are added where they are not there yet.
    pub fn intern_bytes(&mut self, bytes: &[u8]) -> (r: UnitBytesId)
        requires
            old(self).wf(),
        ensures
            final(self).wf(),
            final(self)@ == with_string(old(self)@, bytes@),
            r == string_id(old(self)@, bytes@),
            r.0 < final(self)@.len(),
            final(self)@[r.0 as int] == bytes@,
    {
        let mut i: usize = 0;
        while i < self.strings.len()
            invariant
                *self == *old(self),
                old(self).wf(),
                i <= self.strings.len(),
                forall|k: int| 0 <= k < i ==> self@[k] != bytes@,
            decreases self.strings.len() - i,
        {
            assert(self@[i as int] == self.strings@[i as int]@);
            if same_bytes(self.strings[i].as_slice(), bytes) {
                proof {
                    assert(self@.contains(bytes@));
                    let j = self@.index_of(bytes@);
                    assert(self@[j] == self@[i as int]);
                }
                return UnitBytesId(i);
            }
            i += 1;
        }
        assert(!self@.contains(bytes@));
        let id: usize = self.strings.len();
        let copy: Vec<u8> = slice_to_vec(bytes);
        self.strings.push(copy);
        assert(self@ =~= old(self)@.push(bytes@));
        UnitBytesId(id)
    }

    /// The id of the UTF-8 bytes of `s`, which are added where they are not
    /// there yet.
    pub fn intern_str(&mut self, s: &str) -> (r: UnitBytesId)
        requires
            old(self).wf(),
        ensures
            final(self).wf(),
            final(self)@ == with_text(old(self)@, s@),
            r == text_id(old(self)@, s@),
            r.0 < final(self)@.len(),
            final(self)@[r.0 as int] == encode_utf8(s@),
    {
        self.intern_bytes(s.as_bytes())
    }

    /// The bytes that `id` names.
    pub fn lookup_bytes(&self, id: UnitBytesId) -> (r: &[u8])
        requires
            id.0 < self@.len(),
        ensures
            r@ == self@[id.0 as int],
    {
        self.strings[id.0].as_slice()
    }

    /// The bytes that `id` names, where there is an id.
    pub fn lookup_bytes_or_none(&self, id: Option<UnitBytesId>) -> (r: Option<&[u8]>)
        requires
            id matches Some(id) ==> id.0 < self@.len(),
        ensures
            r is Some == id is Some,
            id matches Some(id) ==> r->0@ == self@[id.0 as int],
    {
        match id {
            Some(id) => Some(self.lookup_bytes(id)),
            None => None,
        }
    }
}

/// A vector with the bytes of a slice.
pub fn slice_to_vec(bytes: &[u8]) -> (r: Vec<u8>)
    ensures
        r@ == bytes@,
{
    let mut out: Vec<u8> = Vec::new();
    let mut i: usize = 0;
    while i < bytes.len()
        invariant
            i <= bytes.len(),
            out@ == bytes@.take(i as int),
        decreases bytes.len() - i,
    {
        out.push(bytes[i]);
        i += 1;
        assert(out@ =~= bytes@.take(i as int));
    }
    assert(bytes@.take(bytes.len() as int) =~= bytes@);
    out
}

/// Where no string is held twice, the id under which a text is found is the only
/// one that names it.
pub proof fn lemma_text_id(strings: Seq<Seq<u8>>, text: Seq<char>, id: UnitBytesId)
    requires
        strings.no_duplicates(),
        id.0 < strings.len(),
        strings[id.0 as int] == encode_utf8(text),
    ensures
        text_id(strings, text) == id,
        with_text(strings, text) == strings,
{
    let bytes = encode_utf8(text);
    assert(strings.contains(bytes));
    assert(strings[strings.index_of(bytes)] == strings[id.0 as int]);
}

/// Interning a text a second time changes nothing and gives the same id.
pub proof fn interning_twice_is_interning_once(strings: Seq<Seq<u8>>, text: Seq<char>)
    requires
        strings.no_duplicates(),
        strings.len() < usize::MAX,
    ensures
        with_text(with_text(strings, text), text) == with_text(strings, text),
        text_id(with_text(strings, text), text) == text_id(strings, text),
{
    let once = with_text(strings, text);
    let id = text_id(strings, text);
    if !strings.contains(encode_utf8(text)) {
        assert(once.no_duplicates());
        assert(once[strings.len() as int] == encode_utf8(text));
        lemma_text_id(once, text, id);
    }
}

/// Interning never moves or drops a string that is already there.
pub proof fn interning_keeps_ids(strings: Seq<Seq<u8>>, bytes: Seq<u8>, id: UnitBytesId)
    requires
        id.0 < strings.len(),
    ensures
        id.0 < with_string(strings, bytes).len(),
        with_string(strings, bytes)[id.0 as int] == strings[id.0 as int],
{
}

} // verus!

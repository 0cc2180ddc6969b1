//! Request headers as the routing and rate-limiting rules read them.
//!
//! Header names compare without regard to ASCII case and are stored in small
//! letters; a name may carry several values, kept in the order they were
//! added, and a lookup yields the first of them.  Values are raw bytes.

use crate::text::{ascii_lower, chars_eq_ignore_ascii_case, chars_of, eq_ignore_ascii_case, string_from_chars, to_ascii_lower};
use vstd::prelude::*;

verus! {

/// One header line.
pub struct HeaderEntry {
    /// Header name, in small letters.
    pub name: String,
    /// Header value bytes.
    pub value: Vec<u8>,
}

/// A multimap of request headers.
pub struct RequestHeaders {
    entries: Vec<HeaderEntry>,
}

/// `s` with every ASCII capital letter mapped to its small letter.
pub open spec fn lower_seq(s: Seq<char>) -> Seq<char> {
    s.map_values(|c: char| ascii_lower(c))
}

/// The value of the first entry whose name matches `name` without regard to
/// ASCII case.
pub open spec fn header_get(h: Seq<(Seq<char>, Seq<u8>)>, name: Seq<char>) -> Option<Seq<u8>>
    decreases h.len(),
{
    if h.len() == 0 {
        None
    } else if eq_ignore_ascii_case(h[0].0, name) {
        Some(h[0].1)
    } else {
        header_get(h.drop_first(), name)
    }
}

/// Selects the header lines whose name differs from `name`.
pub open spec fn other_name(name: Seq<char>) -> spec_fn((Seq<char>, Seq<u8>)) -> bool {
    |e: (Seq<char>, Seq<u8>)| !eq_ignore_ascii_case(e.0, name)
}

/// Whether `b` is one of the bytes a header value may hold to be read as
/// text: visible ASCII or horizontal tab.
pub open spec fn is_visible_ascii(b: u8) -> bool {
    (32 <= b && b < 127) || b == 9
}

/// Whether a header value can be read as text.
pub open spec fn value_is_text(v: Seq<u8>) -> bool {
    forall|i: int| 0 <= i < v.len() ==> is_visible_ascii(#[trigger] v[i])
}

/// The characters of a header value whose bytes are ASCII.
pub open spec fn value_chars(v: Seq<u8>) -> Seq<char> {
    v.map_values(|b: u8| b as char)
}

/// The text of a header value: `None` unless every byte is visible ASCII or
/// a tab.
pub open spec fn value_text(v: Seq<u8>) -> Option<Seq<char>> {
    if value_is_text(v) {
        Some(value_chars(v))
    } else {
        None
    }
}

/// Reads a header value as text, or `None` when it holds other bytes.
pub fn value_to_text(v: &Vec<u8>) -> (r: Option<String>)
    ensures
        match r {
            Some(s) => value_text(v@) == Some(s@),
            None => value_text(v@) is None,
        },
{
    let mut cs: Vec<char> = Vec::new();
    let mut i: usize = 0;
    while i < v.len()
        invariant
            i <= v@.len(),
            forall|k: int| 0 <= k < i ==> is_visible_ascii(#[trigger] v@[k]),
            cs@ == value_chars(v@.take(i as int)),
        decreases v@.len() - i,
    {
        let b = v[i];
        if !((32 <= b && b < 127) || b == 9) {
            return None;
        }
        cs.push(b as char);
        assert(value_chars(v@.take(i + 1)) =~= value_chars(v@.take(i as int)).push(b as char));
        i = i + 1;
    }
    assert(v@.take(i as int) =~= v@);
    Some(string_from_chars(&cs))
}

/// Lowercases the ASCII letters of `s`.
pub fn lowercase_ascii(s: &str) -> (r: String)
    ensures
        r@ == lower_seq(s@),
{
    let cs = chars_of(s);
    let mut out: Vec<char> = Vec::new();
    let mut i: usize = 0;
    while i < cs.len()
        invariant
            i <= cs@.len(),
            out@ == lower_seq(cs@.take(i as int)),
        decreases cs@.len() - i,
    {
        out.push(to_ascii_lower(cs[i]));
        assert(lower_seq(cs@.take(i + 1)) =~= lower_seq(cs@.take(i as int)).push(
            ascii_lower(cs@[i as int]),
        ));
        i = i + 1;
    }
    assert(cs@.take(i as int) =~= cs@);
    string_from_chars(&out)
}

impl RequestHeaders {
    /// The header lines as (name, value) pairs, in order.
    pub closed spec fn view(&self) -> Seq<(Seq<char>, Seq<u8>)> {
        self.entries@.map_values(|e: HeaderEntry| (e.name@, e.value@))
    }

    /// An empty header map.
    pub fn new() -> (h: Self)
        ensures
            h.view() == Seq::<(Seq<char>, Seq<u8>)>::empty(),
    {
        let h = RequestHeaders { entries: Vec::new() };
        assert(h.view() =~= Seq::<(Seq<char>, Seq<u8>)>::empty());
        h
    }

    /// Number of header lines.
    pub fn len(&self) -> (n: usize)
        ensures
            n == self.view().len(),
    {
        self.entries.len()
    }

    /// Adds a value for `name`, after any values it already has.
    pub fn append(&mut self, name: &str, value: &[u8])
        ensures
            final(self).view() == old(self).view().push((lower_seq(name@), value@)),
    {
        let entry = HeaderEntry { name: lowercase_ascii(name), value: vstd::slice::slice_to_vec(value) };
        self.entries.push(entry);
        assert(self.view() =~= old(self).view().push((lower_seq(name@), value@)));
    }

    /// Sets `value` as the only value of `name`, removing the values it had.
    pub fn insert(&mut self, name: &str, value: &[u8])
        ensures
            final(self).view() == old(self).view().filter(other_name(name@)).push(
                (lower_seq(name@), value@),
            ),
    {
        let ghost keep = other_name(name@);
        let key = chars_of(name);
        let mut kept: Vec<HeaderEntry> = Vec::new();
        let mut rest: Vec<HeaderEntry> = Vec::new();
        std::mem::swap(&mut rest, &mut self.entries);
        let ghost orig = old(self).view();
        let ghost orig_entries = rest@;
        assert(orig =~= orig_entries.map_values(|e: HeaderEntry| (e.name@, e.value@)));
        let mut i: usize = 0;
        let n = rest.len();
        while i < n
            invariant
                n == orig_entries.len(),
                i <= n,
                rest@.len() == n - i,
                forall|k: int| 0 <= k < rest@.len() ==> rest@[k] == orig_entries[i + k],
                orig =~= orig_entries.map_values(|e: HeaderEntry| (e.name@, e.value@)),
                kept@.map_values(|e: HeaderEntry| (e.name@, e.value@)) == orig.take(i as int).filter(
                    keep,
                ),
                key@ == name@,
                keep == other_name(name@),
            decreases n - i,
        {
            let e = rest.remove(0);
            let en = chars_of(e.name.as_str());
            let drop = chars_eq_ignore_ascii_case(&en, &key);
            assert(orig[i as int] == (e.name@, e.value@));
            assert(drop == !keep(orig[i as int]));
            proof {
                assert(orig.take(i + 1) =~= orig.take(i as int).push(orig[i as int]));
                orig.take(i as int).lemma_filter_push(orig[i as int], keep);
            }
            if !drop {
                let ghost before = kept@;
                kept.push(e);
                assert(kept@ =~= before.push(e));
                assert(kept@.map_values(|e: HeaderEntry| (e.name@, e.value@)) =~= orig.take(
                    i as int,
                ).filter(keep).push(orig[i as int]));
            }
            i = i + 1;
        }
        assert(orig.take(n as int) =~= orig);
        let entry = HeaderEntry { name: lowercase_ascii(name), value: vstd::slice::slice_to_vec(value) };
        kept.push(entry);
        self.entries = kept;
        assert(self.view() =~= orig.filter(keep).push((lower_seq(name@), value@)));
    }

    /// The first value of `name`, if it has any.
    pub fn get(&self, name: &str) -> (r: Option<Vec<u8>>)
        ensures
            match r {
                Some(v) => header_get(self.view(), name@) == Some(v@),
                None => header_get(self.view(), name@) is None,
            },
    {
        let key = chars_of(name);
        let ghost h = self.view();
        assert(h.subrange(0, h.len() as int) =~= h);
        let mut i: usize = 0;
        while i < self.entries.len()
            invariant
                i <= self.entries@.len(),
                h == self.view(),
                h.len() == self.entries@.len(),
                key@ == name@,
                header_get(h, name@) == header_get(h.subrange(i as int, h.len() as int), name@),
            decreases self.entries@.len() - i,
        {
            let en = chars_of(self.entries[i].name.as_str());
            let ghost sub = h.subrange(i as int, h.len() as int);
            assert(sub[0] == h[i as int]);
            assert(sub.drop_first() =~= h.subrange(i + 1, h.len() as int));
            if chars_eq_ignore_ascii_case(&en, &key) {
                return Some(self.entries[i].value.clone());
            }
            i = i + 1;
        }
        None
    }

    /// Whether `name` has at least one value.
    pub fn contains_key(&self, name: &str) -> (r: bool)
        ensures
            r == (header_get(self.view(), name@) is Some),
    {
        self.get(name).is_some()
    }
}

} // verus!

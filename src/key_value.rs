//! The `key = value` text format of world metadata files.
use vstd::prelude::*;
use vstd::string::*;

use crate::text::{
    after, find_char, first_index, pieces, same_text, starts_with, texts, trim, trim_range,
};

verus! {

/// The entry of one trimmed, non-empty line: the key is what precedes the
/// first `=`, the value what follows it, cut at the first `-`, which opens a
/// comment; both are trimmed.
pub open spec fn parse_entry(line: Seq<char>) -> (Seq<char>, Seq<char>) {
    let e = first_index(line, '=') as int;
    let value = trim(after(line, e));
    (trim(line.subrange(0, e)), trim(value.subrange(0, first_index(value, '-') as int)))
}

/// The entries of a sequence of lines, blank lines skipped.
pub open spec fn line_entries(lines: Seq<Seq<char>>) -> Seq<(Seq<char>, Seq<char>)>
    decreases lines.len(),
{
    if lines.len() == 0 {
        Seq::empty()
    } else if trim(lines[0]).len() == 0 {
        line_entries(lines.drop_first())
    } else {
        seq![parse_entry(trim(lines[0]))] + line_entries(lines.drop_first())
    }
}

/// The entries of a text, in the order of its lines.
pub open spec fn parse_key_values(s: Seq<char>) -> Seq<(Seq<char>, Seq<char>)> {
    line_entries(pieces(s, '\n'))
}

/// The value of the first entry whose key is `key`.
pub open spec fn lookup(entries: Seq<(Seq<char>, Seq<char>)>, key: Seq<char>) -> Option<Seq<char>>
    decreases entries.len(),
{
    if entries.len() == 0 {
        None
    } else if entries[0].0 == key {
        Some(entries[0].1)
    } else {
        lookup(entries.drop_first(), key)
    }
}

/// The entries whose key is not `key`, in order.
pub open spec fn without_key(entries: Seq<(Seq<char>, Seq<char>)>, key: Seq<char>) -> Seq<
    (Seq<char>, Seq<char>),
>
    decreases entries.len(),
{
    if entries.len() == 0 {
        Seq::empty()
    } else if entries.last().0 == key {
        without_key(entries.drop_last(), key)
    } else {
        without_key(entries.drop_last(), key).push(entries.last())
    }
}

/// One `key=value` line per entry, each ended by a newline.
pub open spec fn render(entries: Seq<(Seq<char>, Seq<char>)>) -> Seq<char>
    decreases entries.len(),
{
    if entries.len() == 0 {
        Seq::empty()
    } else {
        render(entries.drop_last()) + entries.last().0 + seq!['='] + entries.last().1 + seq![
            '\n',
        ]
    }
}

/// The values of the entries whose key begins with `prefix`, in order.
pub open spec fn prefixed_values(entries: Seq<(Seq<char>, Seq<char>)>, prefix: Seq<char>) -> Seq<
    Seq<char>,
>
    decreases entries.len(),
{
    if entries.len() == 0 {
        Seq::empty()
    } else if prefix.is_prefix_of(entries.last().0) {
        prefixed_values(entries.drop_last(), prefix).push(entries.last().1)
    } else {
        prefixed_values(entries.drop_last(), prefix)
    }
}

pub open spec fn entry_views(d: Seq<(String, String)>) -> Seq<(Seq<char>, Seq<char>)> {
    d.map_values(|e: (String, String)| (e.0@, e.1@))
}

/// An ordered list of key/value entries; a key may occur more than once.
#[derive(Clone, Debug)]
pub struct KeyValue {
    data: Vec<(String, String)>,
}

impl View for KeyValue {
    type V = Seq<(Seq<char>, Seq<char>)>;

    closed spec fn view(&self) -> Seq<(Seq<char>, Seq<char>)> {
        entry_views(self.data@)
    }
}

/// The entry of the trimmed, non-empty line `s[a..b]`.
fn parse_line(s: &str, a: usize, b: usize) -> (r: (String, String))
    requires
        a <= b <= s@.len(),
    ensures
        (r.0@, r.1@) == parse_entry(s@.subrange(a as int, b as int)),
{
    let ghost line = s@.subrange(a as int, b as int);
    let e = find_char(s, a, b, '=');
    let (ka, kb) = trim_range(s, a, e);
    assert(line.subrange(0, e - a) =~= s@.subrange(a as int, e as int));
    let (va0, vb0) = if e < b {
        (e + 1, b)
    } else {
        (b, b)
    };
    assert(after(line, e - a) =~= s@.subrange(va0 as int, vb0 as int));
    let (va, vb) = trim_range(s, va0, vb0);
    let d = find_char(s, va, vb, '-');
    assert(s@.subrange(va as int, vb as int).subrange(0, d - va) =~= s@.subrange(
        va as int,
        d as int,
    ));
    let (xa, xb) = trim_range(s, va, d);
    (String::from_str(s.substring_char(ka, kb)), String::from_str(s.substring_char(xa, xb)))
}

impl KeyValue {
    pub fn new() -> (r: KeyValue)
        ensures
            r@ == Seq::<(Seq<char>, Seq<char>)>::empty(),
    {
        KeyValue { data: Vec::new() }
    }

    /// Parses a text of `key=value` lines. Whitespace around keys and values
    /// is dropped, a `-` in a value starts a comment, and blank lines are
    /// skipped; every other line gives one entry, in order.
    pub fn from(serialized: &str) -> (r: KeyValue)
        ensures
            r@ == parse_key_values(serialized@),
    {
        let n = serialized.unicode_len();
        let ghost s = serialized@;
        let mut data: Vec<(String, String)> = Vec::new();
        let mut pos: usize = 0;
        assert(s.subrange(0, n as int) =~= s);
        loop
            invariant_except_break
                pos <= n == s.len(),
                s == serialized@,
                entry_views(data@) + line_entries(pieces(s.subrange(pos as int, n as int), '\n'))
                    == parse_key_values(s),
            ensures
                entry_views(data@) == parse_key_values(s),
            decreases n - pos,
        {
            let e = find_char(serialized, pos, n, '\n');
            let ghost rest = s.subrange(pos as int, n as int);
            let ghost line = s.subrange(pos as int, e as int);
            let ghost tail = if e < n {
                pieces(s.subrange(e + 1, n as int), '\n')
            } else {
                Seq::<Seq<char>>::empty()
            };
            proof {
                assert(rest.subrange(0, e - pos) =~= line);
                if e < n {
                    assert(rest.subrange(e - pos + 1, rest.len() as int) =~= s.subrange(
                        e + 1,
                        n as int,
                    ));
                } else {
                    assert(rest =~= line);
                }
                assert(pieces(rest, '\n') =~= seq![line] + tail);
                assert((seq![line] + tail).drop_first() =~= tail);
            }
            let (a, b) = trim_range(serialized, pos, e);
            let ghost before = data@;
            if a < b {
                let entry = parse_line(serialized, a, b);
                data.push(entry);
                assert(entry_views(data@) =~= entry_views(before) + seq![
                    parse_entry(trim(line)),
                ]);
            }
            if e == n {
                assert(line_entries(tail) =~= Seq::<(Seq<char>, Seq<char>)>::empty());
                assert(entry_views(data@) =~= entry_views(before) + line_entries(
                    pieces(rest, '\n'),
                ));
                break;
            }
            assert(entry_views(data@) + line_entries(tail) =~= entry_views(before)
                + line_entries(pieces(rest, '\n')));
            pos = e + 1;
        }
        KeyValue { data }
    }

    /// One `key=value` line per entry, in order, each ended by a newline.
    pub fn as_str(&self) -> (r: String)
        ensures
            r@ == render(self@),
    {
        let mut result = String::new();
        let mut i: usize = 0;
        proof {
            reveal_strlit("=");
            reveal_strlit("\n");
            assert("="@ =~= seq!['=']);
            assert("\n"@ =~= seq!['\n']);
        }
        while i < self.data.len()
            invariant
                i <= self.data@.len(),
                result@ == render(entry_views(self.data@).subrange(0, i as int)),
                "="@ == seq!['='],
                "\n"@ == seq!['\n'],
            decreases self.data@.len() - i,
        {
            let entry = &self.data[i];
            result.append(entry.0.as_str());
            result.append("=");
            result.append(entry.1.as_str());
            result.append("\n");
            assert(entry_views(self.data@).subrange(0, i + 1).drop_last() =~= entry_views(
                self.data@,
            ).subrange(0, i as int));
            i = i + 1;
        }
        assert(entry_views(self.data@).subrange(0, i as int) =~= entry_views(self.data@));
        result
    }

    /// Appends an entry; earlier entries with the same key stay.
    pub fn insert(&mut self, key: String, value: String)
        ensures
            final(self)@ == old(self)@.push((key@, value@)),
    {
        self.data.push((key, value));
        assert(entry_views(self.data@) =~= entry_views(old(self).data@).push((key@, value@)));
    }

    /// The value of the first entry whose key is `key`.
    pub fn get(&self, key: &str) -> (r: Option<String>)
        ensures
            r matches Some(v) ==> lookup(self@, key@) == Some(v@),
            r is None ==> lookup(self@, key@) is None,
    {
        let ghost ev = entry_views(self.data@);
        let n = self.data.len();
        let mut i: usize = 0;
        assert(ev.subrange(0, n as int) =~= ev);
        while i < n
            invariant
                i <= n == self.data@.len(),
                ev == entry_views(self.data@),
                lookup(ev, key@) == lookup(ev.subrange(i as int, n as int), key@),
            decreases n - i,
        {
            let entry = &self.data[i];
            if same_text(entry.0.as_str(), key) {
                let v = entry.1.clone();
                return Some(v);
            }
            assert(ev.subrange(i as int, n as int).drop_first() =~= ev.subrange(
                i + 1,
                n as int,
            ));
            i = i + 1;
        }
        None
    }

    /// Drops every entry whose key is `key`, keeping the others in order.
    pub fn remove(&mut self, key: &str)
        ensures
            final(self)@ == without_key(old(self)@, key@),
    {
        let ghost ev = entry_views(self.data@);
        let mut kept: Vec<(String, String)> = Vec::new();
        let mut i: usize = 0;
        while i < self.data.len()
            invariant
                i <= self.data@.len(),
                ev == entry_views(self.data@),
                self.data@ == old(self).data@,
                entry_views(kept@) == without_key(ev.subrange(0, i as int), key@),
            decreases self.data@.len() - i,
        {
            let entry = &self.data[i];
            assert(ev.subrange(0, i + 1).drop_last() =~= ev.subrange(0, i as int));
            if !same_text(entry.0.as_str(), key) {
                let ghost before = kept@;
                kept.push((entry.0.clone(), entry.1.clone()));
                assert(entry_views(kept@) =~= entry_views(before).push(ev[i as int]));
            }
            i = i + 1;
        }
        assert(ev.subrange(0, i as int) =~= ev);
        self.data = kept;
    }

    /// Takes the first entry out, if there is one.
    pub fn next(&mut self) -> (r: Option<(String, String)>)
        ensures
            old(self)@.len() == 0 ==> r is None && final(self)@ == old(self)@,
            old(self)@.len() > 0 ==> (r matches Some(e) && (e.0@, e.1@) == old(self)@[0]
                && final(self)@ == old(self)@.drop_first()),
    {
        if self.data.len() == 0 {
            return None;
        }
        let e = self.data.remove(0);
        assert(entry_views(self.data@) =~= entry_views(old(self).data@).drop_first());
        Some(e)
    }

    /// The values of the entries whose key begins with `prefix`, in order.
    pub fn values_with_prefix(&self, prefix: &str) -> (r: Vec<String>)
        ensures
            texts(r@) == prefixed_values(self@, prefix@),
    {
        let ghost ev = entry_views(self.data@);
        let mut r: Vec<String> = Vec::new();
        let mut i: usize = 0;
        while i < self.data.len()
            invariant
                i <= self.data@.len(),
                ev == entry_views(self.data@),
                texts(r@) == prefixed_values(ev.subrange(0, i as int), prefix@),
            decreases self.data@.len() - i,
        {
            assert(ev.subrange(0, i + 1).drop_last() =~= ev.subrange(0, i as int));
            let entry = &self.data[i];
            if starts_with(entry.0.as_str(), prefix) {
                let ghost r0 = r@;
                r.push(entry.1.clone());
                assert(texts(r@) =~= texts(r0).push(ev[i as int].1));
            }
            i = i + 1;
        }
        assert(ev.subrange(0, i as int) =~= ev);
        r
    }
}

} // verus!

//! Character-level helpers shared by the line-oriented text formats:
//! whitespace trimming, searching for a separator and splitting on it.
use vstd::prelude::*;
use vstd::string::*;

verus! {

/// The characters that Unicode calls White_Space.
pub open spec fn is_space(c: char) -> bool {
    ||| c == '\t' || c == '\n' || c == '\u{0B}' || c == '\u{0C}' || c == '\r' || c == ' '
    ||| c == '\u{85}' || c == '\u{A0}' || c == '\u{1680}'
    ||| ('\u{2000}' <= c && c <= '\u{200A}')
    ||| c == '\u{2028}' || c == '\u{2029}' || c == '\u{202F}' || c == '\u{205F}' || c == '\u{3000}'
}

pub open spec fn trim_start(s: Seq<char>) -> Seq<char>
    decreases s.len(),
{
    if s.len() > 0 && is_space(s[0]) {
        trim_start(s.drop_first())
    } else {
        s
    }
}

pub open spec fn trim_end(s: Seq<char>) -> Seq<char>
    decreases s.len(),
{
    if s.len() > 0 && is_space(s.last()) {
        trim_end(s.drop_last())
    } else {
        s
    }
}

/// `s` without leading and trailing whitespace.
pub open spec fn trim(s: Seq<char>) -> Seq<char> {
    trim_end(trim_start(s))
}

/// The index of the first `c` in `s`, or `s.len()` when there is none.
pub open spec fn first_index(s: Seq<char>, c: char) -> nat
    decreases s.len(),
{
    if s.len() == 0 {
        0
    } else if s[0] == c {
        0
    } else {
        1 + first_index(s.drop_first(), c)
    }
}

/// What follows position `i` of `s`, or nothing when `i` is past the end.
pub open spec fn after(s: Seq<char>, i: int) -> Seq<char> {
    if 0 <= i < s.len() {
        s.subrange(i + 1, s.len() as int)
    } else {
        Seq::empty()
    }
}

/// The pieces of `s` between occurrences of `c`, in order; always at least one.
pub open spec fn pieces(s: Seq<char>, c: char) -> Seq<Seq<char>>
    decreases s.len(),
{
    if first_index(s, c) < s.len() {
        seq![s.subrange(0, first_index(s, c) as int)] + pieces(
            s.subrange(first_index(s, c) as int + 1, s.len() as int),
            c,
        )
    } else {
        seq![s]
    }
}

/// The character views of a sequence of strings.
pub open spec fn texts(v: Seq<String>) -> Seq<Seq<char>> {
    v.map_values(|x: String| x@)
}

pub fn is_space_char(c: char) -> (r: bool)
    ensures
        r == is_space(c),
{
    c == '\t' || c == '\n' || c == '\u{0B}' || c == '\u{0C}' || c == '\r' || c == ' ' || c
        == '\u{85}' || c == '\u{A0}' || c == '\u{1680}' || ('\u{2000}' <= c && c <= '\u{200A}')
        || c == '\u{2028}' || c == '\u{2029}' || c == '\u{202F}' || c == '\u{205F}' || c
        == '\u{3000}'
}

/// The bounds of `s[from..to]` once whitespace is trimmed from both ends.
pub fn trim_range(s: &str, from: usize, to: usize) -> (r: (usize, usize))
    requires
        from <= to <= s@.len(),
    ensures
        from <= r.0 <= r.1 <= to,
        s@.subrange(r.0 as int, r.1 as int) == trim(s@.subrange(from as int, to as int)),
{
    let mut a = from;
    while a < to && is_space_char(s.get_char(a))
        invariant
            from <= a <= to <= s@.len(),
            trim_start(s@.subrange(from as int, to as int)) == trim_start(
                s@.subrange(a as int, to as int),
            ),
        decreases to - a,
    {
        assert(s@.subrange(a as int, to as int).drop_first() =~= s@.subrange(
            a + 1,
            to as int,
        ));
        a = a + 1;
    }
    let mut b = to;
    while b > a && is_space_char(s.get_char(b - 1))
        invariant
            a <= b <= to <= s@.len(),
            trim_start(s@.subrange(from as int, to as int)) == s@.subrange(a as int, to as int),
            trim(s@.subrange(from as int, to as int)) == trim_end(
                s@.subrange(a as int, b as int),
            ),
        decreases b - a,
    {
        assert(s@.subrange(a as int, b as int).drop_last() =~= s@.subrange(
            a as int,
            b - 1,
        ));
        b = b - 1;
    }
    (a, b)
}

/// The position of the first `c` in `s[from..to]`, or `to` when there is none.
pub fn find_char(s: &str, from: usize, to: usize, c: char) -> (r: usize)
    requires
        from <= to <= s@.len(),
    ensures
        from <= r <= to,
        r - from == first_index(s@.subrange(from as int, to as int), c),
        r < to ==> s@[r as int] == c,
{
    let mut i = from;
    while i < to && s.get_char(i) != c
        invariant
            from <= i <= to <= s@.len(),
            first_index(s@.subrange(from as int, to as int), c) == (i - from) + first_index(
                s@.subrange(i as int, to as int),
                c,
            ),
        decreases to - i,
    {
        assert(s@.subrange(i as int, to as int).drop_first() =~= s@.subrange(
            i + 1,
            to as int,
        ));
        i = i + 1;
    }
    i
}

/// The pieces of `s[from..to]` between occurrences of `c`.
pub fn split_pieces(s: &str, from: usize, to: usize, c: char) -> (r: Vec<String>)
    requires
        from <= to <= s@.len(),
    ensures
        texts(r@) == pieces(s@.subrange(from as int, to as int), c),
{
    let mut r: Vec<String> = Vec::new();
    let mut pos = from;
    loop
        invariant_except_break
            from <= pos <= to <= s@.len(),
            texts(r@) + pieces(s@.subrange(pos as int, to as int), c) == pieces(
                s@.subrange(from as int, to as int),
                c,
            ),
        ensures
            texts(r@) == pieces(s@.subrange(from as int, to as int), c),
        decreases to - pos,
    {
        let e = find_char(s, pos, to, c);
        let ghost rest = s@.subrange(pos as int, to as int);
        let piece = String::from_str(s.substring_char(pos, e));
        proof {
            assert(rest.subrange(0, e - pos) =~= s@.subrange(pos as int, e as int));
            if e < to {
                assert(rest.subrange(e - pos + 1, rest.len() as int) =~= s@.subrange(
                    e + 1,
                    to as int,
                ));
            }
        }
        let ghost before = r@;
        r.push(piece);
        proof {
            assert(texts(r@) =~= texts(before).push(piece@));
        }
        if e == to {
            assert(rest =~= s@.subrange(pos as int, e as int));
            assert(texts(r@) =~= texts(before) + pieces(rest, c));
            break;
        }
        assert(texts(r@) + pieces(s@.subrange(e + 1, to as int), c) =~= texts(before) + pieces(
            rest,
            c,
        ));
        pos = e + 1;
    }
    r
}

/// Whether two strings hold the same characters.
pub fn same_text(a: &str, b: &str) -> (r: bool)
    ensures
        r == (a@ == b@),
{
    let n = a.unicode_len();
    if n != b.unicode_len() {
        return false;
    }
    let mut i: usize = 0;
    while i < n
        invariant
            n == a@.len() == b@.len(),
            i <= n,
            forall|j: int| 0 <= j < i ==> a@[j] == b@[j],
        decreases n - i,
    {
        if a.get_char(i) != b.get_char(i) {
            return false;
        }
        i = i + 1;
    }
    assert(a@ =~= b@);
    true
}

/// Whether `a` begins with `prefix`.
pub fn starts_with(a: &str, prefix: &str) -> (r: bool)
    ensures
        r == prefix@.is_prefix_of(a@),
{
    let n = prefix.unicode_len();
    if n > a.unicode_len() {
        return false;
    }
    let mut i: usize = 0;
    while i < n
        invariant
            n == prefix@.len() <= a@.len(),
            i <= n,
            forall|j: int| 0 <= j < i ==> prefix@[j] == a@[j],
        decreases n - i,
    {
        if a.get_char(i) != prefix.get_char(i) {
            return false;
        }
        i = i + 1;
    }
    true
}

} // verus!

//! Character-level helpers for strings.

use vstd::prelude::*;
use vstd::string::*;

verus! {

/// Whether two strings hold the same characters.
pub fn str_eq(a: &str, b: &str) -> (same: bool)
    ensures
        same == (a@ == b@),
{
    let x = a.as_bytes();
    let y = b.as_bytes();
    proof {
        vstd::utf8::encode_utf8_decode_utf8(a@);
        vstd::utf8::encode_utf8_decode_utf8(b@);
    }
    if x.len() != y.len() {
        return false;
    }
    let n: usize = x.len();
    let mut i: usize = 0;
    while i < n
        invariant
            n == x@.len(),
            n == y@.len(),
            i <= n,
            x@ == a.spec_bytes(),
            y@ == b.spec_bytes(),
            x@.subrange(0, i as int) == y@.subrange(0, i as int),
        decreases n - i,
    {
        if x[i] != y[i] {
            assert(a@ == b@ ==> x@ == y@);
            return false;
        }
        assert(x@.subrange(0, i + 1) == x@.subrange(0, i as int).push(x@[i as int]));
        assert(y@.subrange(0, i + 1) == y@.subrange(0, i as int).push(y@[i as int]));
        i = i + 1;
    }
    assert(x@ == x@.subrange(0, n as int));
    assert(y@ == y@.subrange(0, n as int));
    true
}

/// The characters of `s`, in order.
pub fn chars_of(s: &str) -> (chars: Vec<char>)
    ensures
        chars@ == s@,
{
    let mut out: Vec<char> = Vec::new();
    for c in it: s.chars()
        invariant
            out@ == it.seq().take(it.index() as int),
            it.seq() == s@,
    {
        out.push(c);
    }
    out
}

/// The characters of `s` from `from` up to, not including, `to`.
pub fn substring(s: &str, from: usize, to: usize) -> (part: String)
    requires
        from <= to <= s@.len(),
    ensures
        part@ == s@.subrange(from as int, to as int),
{
    String::from_str(s.substring_char(from, to))
}

/// Index of the first `c` in `s` at or after `from`, or the length of `s`
/// where there is none.
pub open spec fn spec_index_of(s: Seq<char>, c: char, from: int) -> int
    decreases s.len() - from,
{
    if from < 0 || from >= s.len() {
        s.len() as int
    } else if s[from] == c {
        from
    } else {
        spec_index_of(s, c, from + 1)
    }
}

/// What [`spec_index_of`] finds lies in range, and nothing before it is `c`.
pub proof fn lemma_index_of(s: Seq<char>, c: char, from: int)
    requires
        0 <= from <= s.len(),
    ensures
        from <= spec_index_of(s, c, from) <= s.len(),
        spec_index_of(s, c, from) < s.len() ==> s[spec_index_of(s, c, from)] == c,
        forall|j: int| from <= j < spec_index_of(s, c, from) ==> s[j] != c,
    decreases s.len() - from,
{
    if from < s.len() && s[from] != c {
        lemma_index_of(s, c, from + 1);
    }
}

/// Computes [`spec_index_of`].
pub fn index_of(s: &Vec<char>, c: char, from: usize) -> (at: usize)
    requires
        from <= s.len(),
    ensures
        at == spec_index_of(s@, c, from as int),
        from <= at <= s.len(),
        at < s.len() ==> s[at as int] == c,
        forall|j: int| from <= j < at ==> s[j] != c,
{
    let mut i: usize = from;
    while i < s.len()
        invariant
            from <= i <= s.len(),
            spec_index_of(s@, c, from as int) == spec_index_of(s@, c, i as int),
            forall|j: int| from <= j < i ==> s[j] != c,
        decreases s.len() - i,
    {
        if s[i] == c {
            return i;
        }
        i = i + 1;
    }
    i
}

/// Whether `c` occurs in `s`.
pub open spec fn spec_contains_char(s: Seq<char>, c: char) -> bool {
    spec_index_of(s, c, 0) < s.len()
}

/// The pieces of `s` that lie between the occurrences of `sep`. A string
/// without `sep` is one piece, the empty string included.
pub open spec fn spec_split(s: Seq<char>, sep: char) -> Seq<Seq<char>>
    decreases s.len(),
{
    let at = spec_index_of(s, sep, 0);
    if at < 0 || at >= s.len() {
        seq![s]
    } else {
        seq![s.subrange(0, at)] + spec_split(s.subrange(at + 1, s.len() as int), sep)
    }
}

/// The views of a sequence of strings.
pub open spec fn views_of(items: Seq<String>) -> Seq<Seq<char>> {
    Seq::new(items.len(), |i: int| items[i]@)
}

/// [`spec_split`] of a suffix, unfolded at its first separator.
proof fn lemma_split_suffix(s: Seq<char>, sep: char, start: int)
    requires
        0 <= start <= s.len(),
    ensures
        ({
            let at = spec_index_of(s, sep, start);
            let tail = s.subrange(start, s.len() as int);
            if at >= s.len() {
                spec_split(tail, sep) == seq![tail]
            } else {
                spec_split(tail, sep) == seq![s.subrange(start, at)] + spec_split(
                    s.subrange(at + 1, s.len() as int),
                    sep,
                )
            }
        }),
{
    let tail = s.subrange(start, s.len() as int);
    lemma_index_shift(s, sep, start, start);
    let at = spec_index_of(s, sep, start);
    lemma_index_of(s, sep, start);
    if at < s.len() {
        assert(tail.subrange(0, at - start) == s.subrange(start, at));
        assert(tail.subrange(at - start + 1, tail.len() as int) == s.subrange(
            at + 1,
            s.len() as int,
        ));
    }
}

/// Searching a suffix finds what searching the whole string from its start
/// finds, moved by the offset.
proof fn lemma_index_shift(s: Seq<char>, sep: char, start: int, from: int)
    requires
        0 <= start <= from <= s.len(),
    ensures
        spec_index_of(s.subrange(start, s.len() as int), sep, from - start) == spec_index_of(
            s,
            sep,
            from,
        ) - start,
    decreases s.len() - from,
{
    let tail = s.subrange(start, s.len() as int);
    if from < s.len() {
        assert(tail[from - start] == s[from]);
        if s[from] != sep {
            lemma_index_shift(s, sep, start, from + 1);
        }
    }
}

/// Splits `s` at every `sep`, as [`spec_split`] says.
pub fn split(s: &str, sep: char) -> (pieces: Vec<String>)
    ensures
        views_of(pieces@) == spec_split(s@, sep),
{
    let chars = chars_of(s);
    let n: usize = chars.len();
    let mut pieces: Vec<String> = Vec::new();
    let mut start: usize = 0;
    assert(s@.subrange(0, n as int) =~= s@);
    assert(views_of(pieces@) + spec_split(s@, sep) =~= spec_split(s@, sep));
    loop
        invariant_except_break
            start <= n,
            n == s@.len(),
            chars@ == s@,
            spec_split(s@, sep) == views_of(pieces@) + spec_split(
                s@.subrange(start as int, n as int),
                sep,
            ),
        ensures
            views_of(pieces@) == spec_split(s@, sep),
        decreases n - start,
    {
        let at: usize = index_of(&chars, sep, start);
        proof {
            lemma_split_suffix(s@, sep, start as int);
        }
        let piece = substring(s, start, at);
        let ghost before = views_of(pieces@);
        pieces.push(piece);
        assert(views_of(pieces@) == before + seq![s@.subrange(start as int, at as int)]);
        if at >= n {
            assert(s@.subrange(start as int, at as int) == s@.subrange(start as int, n as int));
            break;
        }
        start = at + 1;
    }
    pieces
}

/// Whether `s` ends with `suffix`.
pub open spec fn spec_ends_with(s: Seq<char>, suffix: Seq<char>) -> bool {
    s.len() >= suffix.len() && s.subrange(s.len() - suffix.len(), s.len() as int) == suffix
}

/// Whether the characters of `a` from `a_from` on are exactly those of `b`.
pub fn tail_eq(a: &Vec<char>, a_from: usize, b: &Vec<char>) -> (same: bool)
    requires
        a_from <= a.len(),
    ensures
        same == (a@.subrange(a_from as int, a.len() as int) == b@),
{
    let rest: usize = a.len() - a_from;
    if rest != b.len() {
        return false;
    }
    let ghost tail = a@.subrange(a_from as int, a.len() as int);
    let mut i: usize = 0;
    while i < rest
        invariant
            a_from <= a.len(),
            rest == a.len() - a_from,
            rest == b.len(),
            i <= rest,
            tail == a@.subrange(a_from as int, a.len() as int),
            tail.subrange(0, i as int) == b@.subrange(0, i as int),
        decreases rest - i,
    {
        if a[a_from + i] != b[i] {
            assert(tail[i as int] != b@[i as int]);
            return false;
        }
        assert(tail.subrange(0, i + 1) == tail.subrange(0, i as int).push(tail[i as int]));
        assert(b@.subrange(0, i + 1) == b@.subrange(0, i as int).push(b@[i as int]));
        i = i + 1;
    }
    assert(tail == tail.subrange(0, rest as int));
    assert(b@ == b@.subrange(0, rest as int));
    true
}

/// The last component of a path: what stands behind its last slash, or the
/// whole path where it has none.
pub open spec fn spec_basename(path: Seq<char>) -> Seq<char>
    decreases path.len(),
{
    if path.len() == 0 || path.last() == '/' {
        Seq::empty()
    } else {
        spec_basename(path.drop_last()).push(path.last())
    }
}

/// The last component begins behind the last slash.
pub proof fn lemma_basename(path: Seq<char>, from: int)
    requires
        0 <= from <= path.len(),
        forall|j: int| from <= j < path.len() ==> path[j] != '/',
        from == 0 || path[from - 1] == '/',
    ensures
        spec_basename(path) == path.subrange(from, path.len() as int),
    decreases path.len() - from,
{
    if from == path.len() {
        assert(path.subrange(from, path.len() as int) =~= Seq::<char>::empty());
    } else {
        let head = path.drop_last();
        assert(path.last() == path[path.len() - 1]);
        lemma_basename(head, from);
        assert(head.subrange(from, head.len() as int).push(path.last()) =~= path.subrange(
            from,
            path.len() as int,
        ));
    }
}

/// The last component of a path.
pub fn basename(path: &str) -> (name: String)
    ensures
        name@ == spec_basename(path@),
{
    let chars = chars_of(path);
    let n: usize = chars.len();
    let mut from: usize = n;
    while from > 0 && chars[from - 1] != '/'
        invariant
            from <= n,
            n == chars.len(),
            forall|j: int| from <= j < n ==> chars[j] != '/',
        decreases from,
    {
        from = from - 1;
    }
    proof {
        lemma_basename(path@, from as int);
    }
    substring(path, from, n)
}

/// Whether `a` stands before `b` in the order of the dictionary: at the
/// first place where they differ `a` has the smaller character, or `a` ends
/// there and `b` goes on.
pub open spec fn spec_text_before(a: Seq<char>, b: Seq<char>) -> bool
    decreases a.len(),
{
    if b.len() == 0 {
        false
    } else if a.len() == 0 {
        true
    } else if a[0] != b[0] {
        a[0] < b[0]
    } else {
        spec_text_before(a.drop_first(), b.drop_first())
    }
}

/// Of two texts that differ one stands before the other, and never both.
pub proof fn lemma_text_order_total(a: Seq<char>, b: Seq<char>)
    ensures
        a == b || spec_text_before(a, b) || spec_text_before(b, a),
        !(spec_text_before(a, b) && spec_text_before(b, a)),
        !spec_text_before(a, a),
    decreases a.len(),
{
    if a.len() > 0 {
        lemma_text_order_total(a.drop_first(), a.drop_first());
    }
    if a.len() > 0 && b.len() > 0 && a[0] == b[0] {
        lemma_text_order_total(a.drop_first(), b.drop_first());
        if a.drop_first() == b.drop_first() {
            assert(a =~= seq![a[0]] + a.drop_first());
            assert(b =~= seq![b[0]] + b.drop_first());
        }
    } else if a.len() == 0 && b.len() == 0 {
        assert(a =~= b);
    }
}

/// What stands before a text that stands before a third stands before the
/// third.
pub proof fn lemma_text_order_transitive(a: Seq<char>, b: Seq<char>, c: Seq<char>)
    requires
        spec_text_before(a, b),
        spec_text_before(b, c),
    ensures
        spec_text_before(a, c),
    decreases a.len(),
{
    if a.len() > 0 && a[0] == b[0] && b[0] == c[0] {
        lemma_text_order_transitive(a.drop_first(), b.drop_first(), c.drop_first());
    }
}

/// Whether `a` stands before `b` in the order of the dictionary.
pub fn text_before(a: &str, b: &str) -> (before: bool)
    ensures
        before == spec_text_before(a@, b@),
{
    let x = chars_of(a);
    let y = chars_of(b);
    let mut i: usize = 0;
    assert(x@.skip(0) =~= x@ && y@.skip(0) =~= y@);
    while i < x.len() && i < y.len()
        invariant
            i <= x.len(),
            i <= y.len(),
            x@ == a@,
            y@ == b@,
            spec_text_before(a@, b@) == spec_text_before(x@.skip(i as int), y@.skip(i as int)),
        decreases x.len() - i,
    {
        let ghost p = x@.skip(i as int);
        let ghost q = y@.skip(i as int);
        assert(p[0] == x@[i as int] && q[0] == y@[i as int]);
        assert(p.drop_first() =~= x@.skip(i + 1) && q.drop_first() =~= y@.skip(i + 1));
        if x[i] != y[i] {
            return x[i] < y[i];
        }
        i = i + 1;
    }
    assert(x@.skip(i as int).len() == x.len() - i && y@.skip(i as int).len() == y.len() - i);
    i < y.len()
}

} // verus!

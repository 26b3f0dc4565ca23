//! Character-level text helpers with exact specifications.
use vstd::prelude::*;

verus! {

/// Unicode `White_Space`, the set that `char::is_whitespace` accepts.
pub open spec fn is_ws(c: char) -> bool {
    let u = c as u32;
    (9 <= u && u <= 13) || u == 32 || u == 0x85 || u == 0xA0 || u == 0x1680
        || (0x2000 <= u && u <= 0x200A) || u == 0x2028 || u == 0x2029 || u == 0x202F
        || u == 0x205F || u == 0x3000
}

/// `s` without its leading whitespace.
pub open spec fn trim_start(s: Seq<char>) -> Seq<char>
    decreases s.len(),
{
    if s.len() > 0 && is_ws(s[0]) {
        trim_start(s.drop_first())
    } else {
        s
    }
}

/// `s` without its trailing whitespace.
pub open spec fn trim_end(s: Seq<char>) -> Seq<char>
    decreases s.len(),
{
    if s.len() > 0 && is_ws(s.last()) {
        trim_end(s.drop_last())
    } else {
        s
    }
}

/// `s` without leading or trailing whitespace.
pub open spec fn trim(s: Seq<char>) -> Seq<char> {
    trim_end(trim_start(s))
}

/// `s` without its leading run of `#` characters.
pub open spec fn strip_hashes(s: Seq<char>) -> Seq<char>
    decreases s.len(),
{
    if s.len() > 0 && s[0] == '#' {
        strip_hashes(s.drop_first())
    } else {
        s
    }
}

/// The number of characters of `s` before the first `c`, or its length.
pub open spec fn span_until(s: Seq<char>, c: char) -> nat
    decreases s.len(),
{
    if s.len() == 0 || s[0] == c {
        0
    } else {
        1 + span_until(s.drop_first(), c)
    }
}

/// The first line of `s` (empty when `s` is empty).
pub open spec fn first_line(s: Seq<char>) -> Seq<char> {
    s.take(span_until(s, '\n') as int)
}

/// The span stops at the first `c`, within the bounds of `s`.
pub proof fn lemma_span_until_bound(s: Seq<char>, c: char)
    ensures
        span_until(s, c) <= s.len(),
        span_until(s, c) < s.len() ==> s[span_until(s, c) as int] == c,
        forall|i: int| 0 <= i < span_until(s, c) ==> s[i] != c,
    decreases s.len(),
{
    if s.len() > 0 && s[0] != c {
        lemma_span_until_bound(s.drop_first(), c);
        assert forall|i: int| 0 < i < span_until(s, c) implies s[i] != c by {
            assert(s[i] == s.drop_first()[i - 1]);
        }
    }
}

/// Whether `c` is Unicode whitespace.
pub fn is_whitespace(c: char) -> (r: bool)
    ensures
        r == is_ws(c),
{
    let u = c as u32;
    (9 <= u && u <= 13) || u == 32 || u == 0x85 || u == 0xA0 || u == 0x1680 || (0x2000 <= u
        && u <= 0x200A) || u == 0x2028 || u == 0x2029 || u == 0x202F || u == 0x205F || u
        == 0x3000
}

/// The index of the first `c` in `s` at or after `from`, or the length of `s`.
pub fn find_char(s: &str, from: usize, c: char) -> (r: usize)
    requires
        from <= s@.len(),
    ensures
        r == from + span_until(s@.subrange(from as int, s@.len() as int), c),
{
    let n = s.unicode_len();
    let mut i: usize = from;
    while i < n && s.get_char(i) != c
        invariant
            from <= i <= n,
            n == s@.len(),
            from + span_until(s@.subrange(from as int, n as int), c) == i + span_until(
                s@.subrange(i as int, n as int),
                c,
            ),
        decreases n - i,
    {
        assert(s@.subrange(i as int, n as int).drop_first() =~= s@.subrange(
            i + 1,
            n as int,
        ));
        i = i + 1;
    }
    if i < n {
        assert(s@.subrange(i as int, n as int)[0] == c);
    }
    i
}

/// The first line of `s`.
pub fn line_one<'a>(s: &'a str) -> (r: &'a str)
    ensures
        r@ == first_line(s@),
{
    let k = find_char(s, 0, '\n');
    assert(s@.subrange(0, s@.len() as int) =~= s@);
    proof {
        lemma_span_until_bound(s@, '\n');
    }
    s.substring_char(0, k)
}

/// `s` without its leading run of `#` characters.
pub fn strip_leading_hashes<'a>(s: &'a str) -> (r: &'a str)
    ensures
        r@ == strip_hashes(s@),
{
    let n = s.unicode_len();
    let mut i: usize = 0;
    assert(s@.subrange(0, n as int) =~= s@);
    while i < n && s.get_char(i) == '#'
        invariant
            i <= n,
            n == s@.len(),
            strip_hashes(s@.subrange(i as int, n as int)) == strip_hashes(s@),
        decreases n - i,
    {
        assert(s@.subrange(i as int, n as int).drop_first() =~= s@.subrange(
            i + 1,
            n as int,
        ));
        i = i + 1;
    }
    if i == 0 {
        assert(s@.subrange(0, n as int) =~= s@);
    }
    s.substring_char(i, n)
}

/// `s` without leading or trailing whitespace.
pub fn trim_ws<'a>(s: &'a str) -> (r: &'a str)
    ensures
        r@ == trim(s@),
{
    let n = s.unicode_len();
    let mut i: usize = 0;
    assert(s@.subrange(0, n as int) =~= s@);
    while i < n && is_whitespace(s.get_char(i))
        invariant
            i <= n,
            n == s@.len(),
            trim_start(s@.subrange(i as int, n as int)) == trim_start(s@),
        decreases n - i,
    {
        assert(s@.subrange(i as int, n as int).drop_first() =~= s@.subrange(
            i + 1,
            n as int,
        ));
        i = i + 1;
    }
    if i == 0 {
        assert(s@.subrange(0, n as int) =~= s@);
    }
    let ghost start = s@.subrange(i as int, n as int);
    assert(trim_start(s@) == start);
    let mut j: usize = n;
    while j > i && is_whitespace(s.get_char(j - 1))
        invariant
            i <= j <= n,
            n == s@.len(),
            start == s@.subrange(i as int, n as int),
            trim_end(s@.subrange(i as int, j as int)) == trim_end(start),
        decreases j,
    {
        assert(s@.subrange(i as int, j as int).drop_last() =~= s@.subrange(
            i as int,
            j - 1,
        ));
        j = j - 1;
    }
    s.substring_char(i, j)
}

/// The pieces of `s` between commas, in order; a string without a comma is
/// one piece.
pub open spec fn split_commas(s: Seq<char>) -> Seq<Seq<char>>
    decreases s.len(),
{
    let k = span_until(s, ',');
    if k < s.len() {
        seq![s.take(k as int)].add(split_commas(s.skip(k + 1 as int)))
    } else {
        seq![s]
    }
}

/// Each piece of `s` between commas, trimmed of whitespace.
pub open spec fn comma_list(s: Seq<char>) -> Seq<Seq<char>> {
    split_commas(s).map_values(|p: Seq<char>| trim(p))
}

/// `s` with at most one leading and one trailing double quote removed.
pub open spec fn unquote(s: Seq<char>) -> Seq<char> {
    let a = if s.len() > 0 && s[0] == '"' {
        s.drop_first()
    } else {
        s
    };
    if a.len() > 0 && a.last() == '"' {
        a.drop_last()
    } else {
        a
    }
}

/// The character sequences of a sequence of strings.
pub open spec fn views(v: Seq<String>) -> Seq<Seq<char>> {
    v.map_values(|t: String| t@)
}

/// Splits `s` on commas and trims each piece.
pub fn split_trimmed(s: &str) -> (r: Vec<String>)
    ensures
        views(r@) == comma_list(s@),
{
    let n = s.unicode_len();
    let mut out: Vec<String> = Vec::new();
    let mut start: usize = 0;
    assert(s@.subrange(0, n as int) =~= s@);
    loop
        invariant
            start <= n,
            n == s@.len(),
            views(out@) + comma_list(s@.subrange(start as int, n as int)) =~= comma_list(s@),
        decreases n - start,
    {
        let k = find_char(s, start, ',');
        let ghost sub = s@.subrange(start as int, n as int);
        proof {
            lemma_span_until_bound(sub, ',');
        }
        let piece = trim_ws(s.substring_char(start, k));
        let t = String::from_str(piece);
        let ghost before = out@;
        out.push(t);
        assert(views(out@) =~= views(before).push(t@));
        if k == n {
            assert(sub.take((k - start) as int) =~= s@.subrange(start as int, k as int));
            assert(comma_list(sub) =~= seq![trim(s@.subrange(start as int, k as int))]);
            assert(views(out@) =~= comma_list(s@));
            return out;
        }
        assert(sub.take((k - start) as int) =~= s@.subrange(start as int, k as int));
        assert(sub.skip((k - start) + 1) =~= s@.subrange(k + 1, n as int));
        assert(comma_list(sub) =~= seq![trim(s@.subrange(start as int, k as int))] + comma_list(
            s@.subrange(k + 1, n as int),
        ));
        start = k + 1;
    }
}

/// `s` with at most one leading and one trailing double quote removed.
pub fn strip_quotes<'a>(s: &'a str) -> (r: &'a str)
    ensures
        r@ == unquote(s@),
{
    let n = s.unicode_len();
    let mut i: usize = 0;
    if n > 0 && s.get_char(0) == '"' {
        i = 1;
    }
    let mut j: usize = n;
    if j > i && s.get_char(j - 1) == '"' {
        j = j - 1;
    }
    let r = s.substring_char(i, j);
    assert(r@ =~= unquote(s@));
    r
}

/// `a` orders strictly before `b`, character by character (the order of
/// Rust's `str`).
pub open spec fn text_lt(a: Seq<char>, b: Seq<char>) -> bool
    decreases a.len(),
{
    if a.len() == 0 {
        b.len() > 0
    } else if b.len() == 0 {
        false
    } else if a[0] != b[0] {
        (a[0] as u32) < (b[0] as u32)
    } else {
        text_lt(a.drop_first(), b.drop_first())
    }
}

/// No text orders before itself.
pub proof fn lemma_text_lt_irreflexive(a: Seq<char>)
    ensures
        !text_lt(a, a),
    decreases a.len(),
{
    if a.len() > 0 {
        lemma_text_lt_irreflexive(a.drop_first());
    }
}

/// The order of texts is transitive.
pub proof fn lemma_text_lt_transitive(a: Seq<char>, b: Seq<char>, c: Seq<char>)
    requires
        text_lt(a, b),
        text_lt(b, c),
    ensures
        text_lt(a, c),
    decreases a.len(),
{
    if a.len() > 0 && b.len() > 0 && c.len() > 0 && a[0] == b[0] && b[0] == c[0] {
        lemma_text_lt_transitive(a.drop_first(), b.drop_first(), c.drop_first());
    }
    if a.len() > 0 && b.len() > 0 && c.len() > 0 && a[0] == c[0] && (a[0] != b[0]) {
        assert((a[0] as u32) < (b[0] as u32));
        assert(!((b[0] as u32) < (c[0] as u32)));
        assert(false);
    }
}

/// Of two different texts, one orders before the other.
pub proof fn lemma_text_lt_total(a: Seq<char>, b: Seq<char>)
    ensures
        text_lt(a, b) || text_lt(b, a) || a == b,
    decreases a.len(),
{
    if a.len() > 0 && b.len() > 0 && a[0] == b[0] {
        lemma_text_lt_total(a.drop_first(), b.drop_first());
        if a.drop_first() == b.drop_first() {
            assert(a =~= seq![a[0]] + a.drop_first());
            assert(b =~= seq![b[0]] + b.drop_first());
        }
    }
    if a.len() == 0 && b.len() == 0 {
        assert(a =~= b);
    }
    if a.len() > 0 && b.len() > 0 && a[0] != b[0] {
        vstd::utf8::char_u32_cast(a[0], a[0] as u32);
        vstd::utf8::char_u32_cast(b[0], b[0] as u32);
    }
}

/// Whether `a` orders strictly before `b`.
pub fn text_less(a: &str, b: &str) -> (r: bool)
    ensures
        r == text_lt(a@, b@),
{
    let n = a.unicode_len();
    let m = b.unicode_len();
    let mut i: usize = 0;
    assert(a@.subrange(0, n as int) =~= a@);
    assert(b@.subrange(0, m as int) =~= b@);
    while i < n && i < m && a.get_char(i) == b.get_char(i)
        invariant
            i <= n,
            i <= m,
            n == a@.len(),
            m == b@.len(),
            text_lt(a@.subrange(i as int, n as int), b@.subrange(i as int, m as int)) == text_lt(
                a@,
                b@,
            ),
        decreases n - i,
    {
        assert(a@.subrange(i as int, n as int).drop_first() =~= a@.subrange(i + 1, n as int));
        assert(b@.subrange(i as int, m as int).drop_first() =~= b@.subrange(i + 1, m as int));
        i = i + 1;
    }
    if i == n {
        i < m
    } else if i == m {
        false
    } else {
        (a.get_char(i) as u32) < (b.get_char(i) as u32)
    }
}

} // verus!

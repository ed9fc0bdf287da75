//! Text helpers: characters of a string, prefixes, and the order in which
//! commit identifiers are kept.

use vstd::prelude::*;

verus! {

/// Whether `a` and `b` agree on their first `k` characters.
pub open spec fn same_prefix(a: Seq<char>, b: Seq<char>, k: int) -> bool {
    &&& 0 <= k <= a.len()
    &&& k <= b.len()
    &&& forall|j: int| 0 <= j < k ==> a[j] == b[j]
}

/// Whether `a` comes before `b` at position `k`, the first place where they
/// differ: there `a` has ended and `b` has not, or `a` holds the smaller
/// code point.
pub open spec fn precedes_at(a: Seq<char>, b: Seq<char>, k: int) -> bool {
    &&& same_prefix(a, b, k)
    &&& k < b.len()
    &&& (k == a.len() || (a[k] as int) < (b[k] as int))
}

/// Lexicographic order by code point, the order of `str` itself.
pub open spec fn lex_lt(a: Seq<char>, b: Seq<char>) -> bool {
    exists|k: int| precedes_at(a, b, k)
}

/// Nothing comes before itself.
pub proof fn lemma_lex_lt_irreflexive(a: Seq<char>)
    ensures
        !lex_lt(a, a),
{
    if lex_lt(a, a) {
        let k = choose|k: int| precedes_at(a, a, k);
        assert(precedes_at(a, a, k));
    }
}

/// Two texts that differ are ordered one way or the other.
pub proof fn lemma_lex_lt_total(a: Seq<char>, b: Seq<char>)
    ensures
        a == b || lex_lt(a, b) || lex_lt(b, a),
{
    lemma_first_difference(a, b, 0);
}

/// Walking from an agreed prefix of length `k` reaches the end of both texts
/// or a place where one comes before the other.
proof fn lemma_first_difference(a: Seq<char>, b: Seq<char>, k: int)
    requires
        same_prefix(a, b, k),
    ensures
        a == b || lex_lt(a, b) || lex_lt(b, a),
    decreases a.len() - k,
{
    if k == a.len() {
        if k == b.len() {
            assert(a =~= b);
        } else {
            assert(precedes_at(a, b, k));
        }
    } else if k == b.len() {
        assert(same_prefix(b, a, k));
        assert(precedes_at(b, a, k));
    } else if a[k] == b[k] {
        lemma_first_difference(a, b, k + 1);
    } else if (a[k] as int) < (b[k] as int) {
        assert(precedes_at(a, b, k));
    } else {
        assert(same_prefix(b, a, k));
        assert(precedes_at(b, a, k));
    }
}

/// The order is transitive.
pub proof fn lemma_lex_lt_transitive(a: Seq<char>, b: Seq<char>, c: Seq<char>)
    requires
        lex_lt(a, b),
        lex_lt(b, c),
    ensures
        lex_lt(a, c),
{
    let i = choose|k: int| precedes_at(a, b, k);
    let j = choose|k: int| precedes_at(b, c, k);
    assert(precedes_at(a, b, i));
    assert(precedes_at(b, c, j));
    if i <= j {
        assert(same_prefix(a, c, i));
        assert(precedes_at(a, c, i));
    } else {
        assert(same_prefix(a, c, j));
        assert(precedes_at(a, c, j));
    }
}

/// No two texts are ordered both ways.
pub proof fn lemma_lex_lt_asymmetric(a: Seq<char>, b: Seq<char>)
    requires
        lex_lt(a, b),
    ensures
        !lex_lt(b, a),
{
    if lex_lt(b, a) {
        lemma_lex_lt_transitive(a, b, a);
        lemma_lex_lt_irreflexive(a);
    }
}

/// The characters of `s`, in order.
pub fn chars_of(s: &str) -> (out: Vec<char>)
    ensures
        out@ == s@,
{
    let n: usize = s.unicode_len();
    let mut out: Vec<char> = Vec::new();
    let mut i: usize = 0;
    while i < n
        invariant
            n == s@.len(),
            i <= n,
            out@ == s@.take(i as int),
        decreases n - i,
    {
        out.push(s.get_char(i));
        assert(s@.take(i as int + 1) =~= s@.take(i as int).push(s@[i as int]));
        i = i + 1;
    }
    assert(s@.take(n as int) =~= s@);
    out
}

/// Whether `a` comes before `b` in the order of identifiers.
pub fn str_lt(a: &str, b: &str) -> (less: bool)
    ensures
        less == lex_lt(a@, b@),
{
    let x = chars_of(a);
    let y = chars_of(b);
    let mut k: usize = 0;
    while k < x.len() && k < y.len()
        invariant
            x@ == a@,
            y@ == b@,
            same_prefix(a@, b@, k as int),
        decreases x.len() - k,
    {
        let p: char = x[k];
        let q: char = y[k];
        if p != q {
            proof {
                if p < q {
                    assert(precedes_at(a@, b@, k as int));
                } else {
                    assert(same_prefix(b@, a@, k as int));
                    assert(precedes_at(b@, a@, k as int));
                    lemma_lex_lt_asymmetric(b@, a@);
                }
            }
            return p < q;
        }
        k = k + 1;
    }
    proof {
        if k < y.len() {
            assert(precedes_at(a@, b@, k as int));
        } else {
            if k < x.len() {
                assert(same_prefix(b@, a@, k as int));
                assert(precedes_at(b@, a@, k as int));
                lemma_lex_lt_asymmetric(b@, a@);
            } else {
                assert(a@ =~= b@);
                lemma_lex_lt_irreflexive(a@);
            }
        }
    }
    k < y.len()
}

/// Whether `c` is white space: the characters that Unicode gives the
/// property White_Space.
pub open spec fn is_space(c: char) -> bool {
    let n = c as int;
    ||| 0x9 <= n <= 0xD
    ||| n == 0x20
    ||| n == 0x85
    ||| n == 0xA0
    ||| n == 0x1680
    ||| 0x2000 <= n <= 0x200A
    ||| n == 0x2028
    ||| n == 0x2029
    ||| n == 0x202F
    ||| n == 0x205F
    ||| n == 0x3000
}

/// Whether `c` is white space.
pub fn is_whitespace(c: char) -> (space: bool)
    ensures
        space == is_space(c),
{
    ('\u{9}' <= c && c <= '\u{D}') || c == ' ' || c == '\u{85}' || c == '\u{A0}' || c == '\u{1680}'
        || ('\u{2000}' <= c && c <= '\u{200A}') || c == '\u{2028}' || c == '\u{2029}' || c
        == '\u{202F}' || c == '\u{205F}' || c == '\u{3000}'
}

/// `s` without the white space it starts with.
pub open spec fn trim_start(s: Seq<char>) -> Seq<char>
    decreases s.len(),
{
    if s.len() > 0 && is_space(s.first()) {
        trim_start(s.drop_first())
    } else {
        s
    }
}

/// `s` without the white space it ends with.
pub open spec fn trim_end(s: Seq<char>) -> Seq<char>
    decreases s.len(),
{
    if s.len() > 0 && is_space(s.last()) {
        trim_end(s.drop_last())
    } else {
        s
    }
}

/// `s` without the white space at either end.
pub open spec fn trimmed(s: Seq<char>) -> Seq<char> {
    trim_end(trim_start(s))
}

/// The bounds of what is left of `chars[from..to]` once the white space at
/// either end is taken away.
pub fn trim_range(chars: &Vec<char>, from: usize, to: usize) -> (bounds: (usize, usize))
    requires
        from <= to <= chars.len(),
    ensures
        from <= bounds.0 <= bounds.1 <= to,
        chars@.subrange(bounds.0 as int, bounds.1 as int) == trimmed(
            chars@.subrange(from as int, to as int),
        ),
{
    let mut a: usize = from;
    while a < to && is_whitespace(chars[a])
        invariant
            from <= a <= to <= chars.len(),
            trim_start(chars@.subrange(from as int, to as int)) == trim_start(
                chars@.subrange(a as int, to as int),
            ),
        decreases to - a,
    {
        assert(chars@.subrange(a as int, to as int).drop_first() =~= chars@.subrange(
            a as int + 1,
            to as int,
        ));
        a = a + 1;
    }
    let mut b: usize = to;
    while b > a && is_whitespace(chars[b - 1])
        invariant
            a <= b <= to <= chars.len(),
            trim_end(chars@.subrange(a as int, to as int)) == trim_end(
                chars@.subrange(a as int, b as int),
            ),
        decreases b - a,
    {
        assert(chars@.subrange(a as int, b as int).drop_last() =~= chars@.subrange(
            a as int,
            b as int - 1,
        ));
        b = b - 1;
    }
    (a, b)
}

/// Whether `chars[from..to]` reads `wanted`.
pub fn range_reads(chars: &Vec<char>, from: usize, to: usize, wanted: &Vec<char>) -> (same: bool)
    requires
        from <= to <= chars.len(),
    ensures
        same == (chars@.subrange(from as int, to as int) == wanted@),
{
    if to - from != wanted.len() {
        return false;
    }
    let n: usize = wanted.len();
    let mut k: usize = 0;
    while k < n
        invariant
            from <= to <= chars.len(),
            n == wanted.len(),
            n == to - from,
            k <= n,
            forall|j: int| 0 <= j < k ==> chars@[from + j] == wanted@[j],
        decreases n - k,
    {
        if chars[from + k] != wanted[k] {
            assert(chars@.subrange(from as int, to as int)[k as int] != wanted@[k as int]);
            return false;
        }
        k = k + 1;
    }
    assert(chars@.subrange(from as int, to as int) =~= wanted@);
    true
}

/// `s` without the white space at either end.
pub fn trim_text(s: &str) -> (out: String)
    ensures
        out@ == trimmed(s@),
{
    let chars = chars_of(s);
    let (a, b) = trim_range(&chars, 0, chars.len());
    assert(chars@.subrange(0, chars.len() as int) =~= chars@);
    String::from_str(s.substring_char(a, b))
}

/// Whether `s[from..to]` is a line of `s`: it starts at the start of `s` or
/// behind a line feed, ends at the end of `s` or before a line feed, and holds
/// none.
pub open spec fn is_line(s: Seq<char>, from: int, to: int) -> bool {
    &&& 0 <= from <= to <= s.len()
    &&& (from == 0 || s[from - 1] == '\n')
    &&& (to == s.len() || s[to] == '\n')
    &&& forall|k: int| from <= k < to ==> s[k] != '\n'
}

/// Whether some line of `s` reads `wanted` once the white space at its ends
/// is taken away.
pub open spec fn has_line(s: Seq<char>, wanted: Seq<char>) -> bool {
    exists|from: int, to: int| #[trigger]
        is_line(s, from, to) && trimmed(s.subrange(from, to)) == wanted
}

/// Whether some line of `text` reads `wanted`, white space at its ends
/// aside.
pub fn holds_line(text: &str, wanted: &str) -> (found: bool)
    ensures
        found == has_line(text@, wanted@),
{
    let chars = chars_of(text);
    let goal = chars_of(wanted);
    let n: usize = chars.len();
    let mut start: usize = 0;
    loop
        invariant
            chars@ == text@,
            goal@ == wanted@,
            n == chars.len(),
            start <= n,
            start == 0 || chars@[start - 1] == '\n',
            forall|from: int, to: int| #[trigger]
                is_line(chars@, from, to) && from < start ==> trimmed(chars@.subrange(from, to))
                    != wanted@,
        decreases n - start,
    {
        let mut end: usize = start;
        while end < n && chars[end] != '\n'
            invariant
                start <= end <= n,
                n == chars.len(),
                forall|k: int| start <= k < end ==> chars@[k] != '\n',
            decreases n - end,
        {
            end = end + 1;
        }
        assert(is_line(chars@, start as int, end as int));
        let (a, b) = trim_range(&chars, start, end);
        if range_reads(&chars, a, b, &goal) {
            return true;
        }
        proof {
            assert forall|from: int, to: int| #[trigger]
                is_line(chars@, from, to) && from < end + 1 implies trimmed(
                chars@.subrange(from, to),
            ) != wanted@ by {
                if from >= start {
                    if from > start {
                        assert(chars@[from - 1] == '\n');
                    }
                    assert(from == start);
                    if to < end {
                        assert(chars@[to] == '\n');
                    }
                    if to > end {
                        assert(chars@[end as int] == '\n');
                    }
                    assert(to == end);
                }
            }
        }
        if end == n {
            proof {
                assert forall|from: int, to: int| #[trigger]
                    is_line(chars@, from, to) implies trimmed(chars@.subrange(from, to))
                    != wanted@ by {}
            }
            return false;
        }
        start = end + 1;
    }
}

} // verus!

//! Character-level string handling shared by the parsers and lookups.

use vstd::prelude::*;

verus! {

// ---------------------------------------------------------------------------
// Outside behaviour: whitespace and case mapping of the standard library
// ---------------------------------------------------------------------------

/// Whether `c` has the Unicode `White_Space` property, as
/// `char::is_whitespace` decides: tab to carriage return, space, next line,
/// no-break space, ogham space mark, en quad to hair space, line and
/// paragraph separators, narrow no-break space, medium mathematical space
/// and ideographic space.
pub open spec fn spec_is_whitespace(c: char) -> bool {
    let u = c as u32;
    ||| 0x09 <= u <= 0x0d
    ||| u == 0x20
    ||| u == 0x85
    ||| u == 0xa0
    ||| u == 0x1680
    ||| 0x2000 <= u <= 0x200a
    ||| u == 0x2028
    ||| u == 0x2029
    ||| u == 0x202f
    ||| u == 0x205f
    ||| u == 0x3000
}

/// The upper-case mapping of a string (`str::to_uppercase`).
pub uninterp spec fn spec_to_uppercase(s: Seq<char>) -> Seq<char>;

/// The lower-case mapping of a string (`str::to_lowercase`).
pub uninterp spec fn spec_to_lowercase(s: Seq<char>) -> Seq<char>;

/// Every character of `s` is ASCII.
pub open spec fn all_ascii(s: Seq<char>) -> bool {
    forall|i: int| 0 <= i < s.len() ==> (s[i] as u32) < 0x80
}

/// `c` with `a`..`z` replaced by `A`..`Z`.
pub open spec fn ascii_upper(c: char) -> char {
    if 'a' <= c && c <= 'z' {
        ((c as u32) - 32) as char
    } else {
        c
    }
}

/// `c` with `A`..`Z` replaced by `a`..`z`.
pub open spec fn ascii_lower(c: char) -> char {
    if 'A' <= c && c <= 'Z' {
        ((c as u32) + 32) as char
    } else {
        c
    }
}

/// Whether `c` is whitespace, by the list of `spec_is_whitespace`.
fn is_whitespace(c: char) -> (b: bool)
    ensures
        b == spec_is_whitespace(c),
{
    let u = c as u32;
    (0x09 <= u && u <= 0x0d) || u == 0x20 || u == 0x85 || u == 0xa0 || u == 0x1680 || (0x2000
        <= u && u <= 0x200a) || u == 0x2028 || u == 0x2029 || u == 0x202f || u == 0x205f || u
        == 0x3000
}

/// `str::to_uppercase`: the result is named by `spec_to_uppercase`, a function
/// of the input characters alone; on ASCII text it maps `a`..`z` to
/// `A`..`Z` and keeps every other character. The Unicode case tables
/// beyond ASCII are not stated.
#[verifier::external_body]
pub(crate) fn to_uppercase(s: &str) -> (r: String)
    ensures
        r@ == spec_to_uppercase(s@),
        all_ascii(s@) ==> r@ == s@.map_values(|c: char| ascii_upper(c)),
{
    s.to_uppercase()
}

/// `str::to_lowercase`: the result is named by `spec_to_lowercase`, a function
/// of the input characters alone; on ASCII text it maps `A`..`Z` to
/// `a`..`z` and keeps every other character. The Unicode case tables
/// beyond ASCII are not stated.
#[verifier::external_body]
pub(crate) fn to_lowercase(s: &str) -> (r: String)
    ensures
        r@ == spec_to_lowercase(s@),
        all_ascii(s@) ==> r@ == s@.map_values(|c: char| ascii_lower(c)),
{
    s.to_lowercase()
}

/// `String::push`: appends one character.
#[verifier::external_body]
fn push_char(s: &mut String, c: char)
    ensures
        final(s)@ == old(s)@.push(c),
{
    s.push(c);
}

// ---------------------------------------------------------------------------
// Conversions between strings and character vectors
// ---------------------------------------------------------------------------

/// The characters of `s`, in order.
pub fn chars_of(s: &str) -> (v: Vec<char>)
    ensures
        v@ == s@,
{
    let n = s.unicode_len();
    let mut v: Vec<char> = Vec::new();
    let mut i: usize = 0;
    while i < n
        invariant
            i <= n,
            n == s@.len(),
            v@ == s@.subrange(0, i as int),
        decreases n - i,
    {
        v.push(s.get_char(i));
        i += 1;
    }
    v
}

/// A `String` holding exactly the characters of `v[from..to]`.
pub fn string_from_chars(v: &[char], from: usize, to: usize) -> (s: String)
    requires
        from <= to <= v@.len(),
    ensures
        s@ == v@.subrange(from as int, to as int),
{
    let mut s = String::new();
    let mut i: usize = from;
    while i < to
        invariant
            from <= i <= to,
            to <= v@.len(),
            s@ == v@.subrange(from as int, i as int),
        decreases to - i,
    {
        push_char(&mut s, v[i]);
        i += 1;
    }
    s
}

/// Whether two character sequences are equal.
pub fn chars_eq(a: &[char], b: &[char]) -> (r: bool)
    ensures
        r == (a@ == b@),
{
    if a.len() != b.len() {
        return false;
    }
    let mut i: usize = 0;
    while i < a.len()
        invariant
            i <= a@.len(),
            a@.len() == b@.len(),
            forall|j: int| 0 <= j < i ==> a@[j] == b@[j],
        decreases a@.len() - i,
    {
        if a[i] != b[i] {
            return false;
        }
        i += 1;
    }
    assert(a@ =~= b@);
    true
}

/// Whether two strings hold the same characters.
pub fn str_eq(a: &str, b: &str) -> (r: bool)
    ensures
        r == (a@ == b@),
{
    let va = chars_of(a);
    let vb = chars_of(b);
    chars_eq(va.as_slice(), vb.as_slice())
}


// ---------------------------------------------------------------------------
// Trimming
// ---------------------------------------------------------------------------

/// `s` without its leading whitespace.
pub open spec fn trim_start(s: Seq<char>) -> Seq<char>
    decreases s.len(),
{
    if s.len() > 0 && spec_is_whitespace(s[0]) {
        trim_start(s.drop_first())
    } else {
        s
    }
}

/// `s` without its trailing whitespace.
pub open spec fn trim_end(s: Seq<char>) -> Seq<char>
    decreases s.len(),
{
    if s.len() > 0 && spec_is_whitespace(s.last()) {
        trim_end(s.drop_last())
    } else {
        s
    }
}

/// `s` without leading and trailing whitespace, as `str::trim` gives it.
pub open spec fn spec_trim(s: Seq<char>) -> Seq<char> {
    trim_end(trim_start(s))
}

/// `trim_start` leaves a string that is empty or starts with a
/// non-whitespace character, and is a suffix of its argument.
pub proof fn lemma_trim_start_shape(s: Seq<char>)
    ensures
        trim_start(s).len() == 0 || !spec_is_whitespace(trim_start(s)[0]),
        trim_start(s).len() <= s.len(),
        trim_start(s) == s.subrange(s.len() - trim_start(s).len(), s.len() as int),
    decreases s.len(),
{
    if s.len() > 0 && spec_is_whitespace(s[0]) {
        lemma_trim_start_shape(s.drop_first());
        let t = trim_start(s.drop_first());
        assert(s.drop_first().subrange(s.drop_first().len() - t.len(), s.drop_first().len() as int)
            =~= s.subrange(s.len() - t.len(), s.len() as int));
    } else {
        assert(s.subrange(0, s.len() as int) =~= s);
    }
}

/// `trim_end` leaves a string that is empty or ends with a non-whitespace
/// character, and is a prefix of its argument.
pub proof fn lemma_trim_end_shape(s: Seq<char>)
    ensures
        trim_end(s).len() == 0 || !spec_is_whitespace(trim_end(s).last()),
        trim_end(s).len() <= s.len(),
        trim_end(s) == s.subrange(0, trim_end(s).len() as int),
    decreases s.len(),
{
    if s.len() > 0 && spec_is_whitespace(s.last()) {
        lemma_trim_end_shape(s.drop_last());
        let t = trim_end(s.drop_last());
        assert(s.drop_last().subrange(0, t.len() as int) =~= s.subrange(0, t.len() as int));
    } else {
        assert(s.subrange(0, s.len() as int) =~= s);
    }
}

/// Trimming twice trims no more than trimming once.
pub proof fn lemma_trim_idempotent(s: Seq<char>)
    ensures
        spec_trim(spec_trim(s)) == spec_trim(s),
{
    let t = trim_start(s);
    let u = trim_end(t);
    lemma_trim_start_shape(s);
    lemma_trim_end_shape(t);
    // `u` is a prefix of `t`, so it starts as `t` does.
    if u.len() > 0 {
        assert(u[0] == t[0]);
    }
    assert(trim_start(u) == u);
    assert(trim_end(u) == u);
}

/// The bounds `(a, b)` of the trimmed part of `v`: `v[a..b]` is `spec_trim(v)`.
pub fn trim_bounds(v: &[char]) -> (r: (usize, usize))
    ensures
        r.0 <= r.1 <= v@.len(),
        v@.subrange(r.0 as int, r.1 as int) == spec_trim(v@),
{
    let n = v.len();
    let mut a: usize = 0;
    assert(v@.subrange(0, n as int) =~= v@);
    while a < n && is_whitespace(v[a])
        invariant
            a <= n,
            n == v@.len(),
            trim_start(v@) == trim_start(v@.subrange(a as int, n as int)),
        decreases n - a,
    {
        assert(v@.subrange(a as int, n as int).drop_first() =~= v@.subrange(a + 1, n as int));
        a += 1;
    }
    assert(trim_start(v@) == v@.subrange(a as int, n as int));
    let mut b: usize = n;
    while b > a && is_whitespace(v[b - 1])
        invariant
            a <= b <= n,
            n == v@.len(),
            trim_end(v@.subrange(a as int, n as int)) == trim_end(v@.subrange(a as int, b as int)),
        decreases b,
    {
        assert(v@.subrange(a as int, b as int).drop_last() =~= v@.subrange(a as int, b - 1));
        b -= 1;
    }
    (a, b)
}

// ---------------------------------------------------------------------------
// Splitting at a separator
// ---------------------------------------------------------------------------

/// The pieces of `s` between occurrences of `sep`, as `str::split` yields
/// them for a one-character pattern: always at least one piece.
pub open spec fn spec_split(s: Seq<char>, sep: char) -> Seq<Seq<char>>
    decreases s.len(),
{
    if s.len() == 0 {
        seq![Seq::<char>::empty()]
    } else {
        let p = spec_split(s.drop_last(), sep);
        if s.last() == sep {
            p.push(Seq::<char>::empty())
        } else {
            p.update(p.len() - 1, p.last().push(s.last()))
        }
    }
}

/// `spec_split` always yields at least one piece.
pub proof fn lemma_split_nonempty(s: Seq<char>, sep: char)
    ensures
        spec_split(s, sep).len() >= 1,
    decreases s.len(),
{
    if s.len() > 0 {
        lemma_split_nonempty(s.drop_last(), sep);
    }
}

/// The pieces `f` joined back with `sep` between consecutive pieces.
pub open spec fn spec_join(f: Seq<Seq<char>>, sep: char) -> Seq<char>
    decreases f.len(),
{
    if f.len() == 0 {
        Seq::empty()
    } else if f.len() == 1 {
        f[0]
    } else {
        spec_join(f.drop_last(), sep) + seq![sep] + f.last()
    }
}

/// Splitting loses nothing: the pieces hold no separator, and joining them
/// back with the separator gives the text that was split.
pub proof fn lemma_split_join(s: Seq<char>, sep: char)
    ensures
        spec_join(spec_split(s, sep), sep) == s,
        forall|i: int, j: int|
            0 <= i < spec_split(s, sep).len() && 0 <= j < spec_split(s, sep)[i].len()
                ==> spec_split(s, sep)[i][j] != sep,
    decreases s.len(),
{
    if s.len() > 0 {
        let t = s.drop_last();
        let c = s.last();
        lemma_split_join(t, sep);
        lemma_split_nonempty(t, sep);
        let p = spec_split(t, sep);
        let q = spec_split(s, sep);
        if c == sep {
            assert(q.drop_last() =~= p);
            assert(spec_join(q, sep) =~= s);
        } else {
            assert(q.last() == p.last().push(c));
            if p.len() >= 2 {
                assert(q.drop_last() =~= p.drop_last());
                assert(spec_join(q, sep) =~= spec_join(p, sep).push(c));
            } else {
                assert(spec_join(q, sep) =~= spec_join(p, sep).push(c));
            }
            assert(s =~= t.push(c));
            assert forall|i: int, j: int| 0 <= i < q.len() && 0 <= j < q[i].len() implies q[i][j]
                != sep by {
                if i < q.len() - 1 {
                    assert(q[i] == p[i]);
                } else if j < p.last().len() {
                    assert(q[i][j] == p[p.len() - 1][j]);
                }
            }
        }
    }
}

/// Joined pieces start with the first piece, the separator and the second
/// piece.
pub proof fn lemma_join_starts_with_two(f: Seq<Seq<char>>, sep: char)
    requires
        f.len() >= 2,
    ensures
        (f[0] + seq![sep] + f[1]).len() <= spec_join(f, sep).len(),
        spec_join(f, sep).subrange(0, (f[0] + seq![sep] + f[1]).len() as int) == f[0] + seq![sep]
            + f[1],
    decreases f.len(),
{
    let head = f[0] + seq![sep] + f[1];
    if f.len() == 2 {
        assert(f.drop_last().len() == 1);
        assert(spec_join(f.drop_last(), sep) == f[0]);
        assert(spec_join(f, sep) =~= head);
    } else {
        lemma_join_starts_with_two(f.drop_last(), sep);
        let j = spec_join(f.drop_last(), sep);
        assert(spec_join(f, sep).subrange(0, head.len() as int) =~= j.subrange(0, head.len() as int));
    }
}

/// The pieces of `v[lo..hi]` between occurrences of `sep`.
pub fn split_chars(v: &[char], lo: usize, hi: usize, sep: char) -> (r: Vec<Vec<char>>)
    requires
        lo <= hi <= v@.len(),
    ensures
        r.deep_view() == spec_split(v@.subrange(lo as int, hi as int), sep),
        r@.len() >= 1,
{
    let ghost s = v@.subrange(lo as int, hi as int);
    let mut done: Vec<Vec<char>> = Vec::new();
    let mut cur: Vec<char> = Vec::new();
    let mut i: usize = lo;
    assert(s.subrange(0, 0) =~= Seq::<char>::empty());
    assert(done.deep_view().push(cur@) =~= spec_split(s.subrange(0, 0), sep));
    while i < hi
        invariant
            lo <= i <= hi,
            hi <= v@.len(),
            s == v@.subrange(lo as int, hi as int),
            done.deep_view().push(cur@) == spec_split(s.subrange(0, i - lo), sep),
        decreases hi - i,
    {
        let ghost before = s.subrange(0, i - lo);
        let ghost after = s.subrange(0, i - lo + 1);
        assert(after.drop_last() =~= before);
        assert(after.last() == v@[i as int]);
        proof {
            lemma_split_nonempty(before, sep);
        }
        let c = v[i];
        if c == sep {
            let ghost old_done = done.deep_view();
            let ghost old_cur = cur@;
            assert(cur.deep_view() =~= cur@);
            done.push(cur);
            cur = Vec::new();
            assert(done.deep_view() =~= old_done.push(old_cur));
            assert(done.deep_view().push(cur@) =~= spec_split(after, sep));
        } else {
            let ghost old_done = done.deep_view();
            cur.push(c);
            assert(done.deep_view() == old_done);
            assert(done.deep_view().push(cur@) =~= spec_split(after, sep));
        }
        i += 1;
    }
    assert(s.subrange(0, hi - lo) =~= s);
    let ghost old_done = done.deep_view();
    let ghost old_cur = cur@;
    assert(cur.deep_view() =~= cur@);
    done.push(cur);
    assert(done.deep_view() =~= old_done.push(old_cur));
    done
}


// ---------------------------------------------------------------------------
// Unsigned decimal numbers
// ---------------------------------------------------------------------------

/// An ASCII decimal digit.
pub open spec fn is_digit(c: char) -> bool {
    '0' <= c && c <= '9'
}

/// The value of an ASCII decimal digit.
pub open spec fn digit_value(c: char) -> nat {
    (c as int - '0' as int) as nat
}

/// Every character of `s` is an ASCII decimal digit.
pub open spec fn all_digits(s: Seq<char>) -> bool {
    forall|i: int| 0 <= i < s.len() ==> is_digit(#[trigger] s[i])
}

/// The value of a string of decimal digits, most significant first.
pub open spec fn digits_value(s: Seq<char>) -> nat
    decreases s.len(),
{
    if s.len() == 0 {
        0
    } else {
        digits_value(s.drop_last()) * 10 + digit_value(s.last())
    }
}

/// What the standard library's `FromStr` for an unsigned integer type whose
/// largest value is `max` accepts: an optional `+`, then one or more ASCII
/// digits whose value is at most `max`.
pub open spec fn spec_parse_unsigned(s: Seq<char>, max: nat) -> Option<nat> {
    let body = if s.len() > 0 && s[0] == '+' {
        s.drop_first()
    } else {
        s
    };
    if body.len() > 0 && all_digits(body) && digits_value(body) <= max {
        Some(digits_value(body))
    } else {
        None
    }
}

/// A prefix of a digit string is worth no more than the whole.
pub proof fn lemma_digits_prefix_le(s: Seq<char>, k: int)
    requires
        all_digits(s),
        0 <= k <= s.len(),
    ensures
        digits_value(s.subrange(0, k)) <= digits_value(s),
    decreases s.len(),
{
    if k < s.len() {
        assert(s.drop_last().subrange(0, k) =~= s.subrange(0, k));
        assert(all_digits(s.drop_last()));
        lemma_digits_prefix_le(s.drop_last(), k);
    } else {
        assert(s.subrange(0, k) =~= s);
    }
}

/// Parses `v[lo..hi]` as an unsigned decimal number no larger than `max`,
/// the way `str::parse` does for the unsigned integer types.
pub fn parse_unsigned(v: &[char], lo: usize, hi: usize, max: u64) -> (r: Option<u64>)
    requires
        lo <= hi <= v@.len(),
    ensures
        match r {
            Some(x) => spec_parse_unsigned(v@.subrange(lo as int, hi as int), max as nat) == Some(
                x as nat,
            ),
            None => spec_parse_unsigned(v@.subrange(lo as int, hi as int), max as nat) is None,
        },
{
    let ghost s = v@.subrange(lo as int, hi as int);
    let start: usize = if lo < hi && v[lo] == '+' {
        lo + 1
    } else {
        lo
    };
    let ghost body = v@.subrange(start as int, hi as int);
    assert(body =~= (if s.len() > 0 && s[0] == '+' {
        s.drop_first()
    } else {
        s
    }));
    if start == hi {
        return None;
    }
    let mut acc: u64 = 0;
    let mut i: usize = start;
    assert(body.subrange(0, 0) =~= Seq::<char>::empty());
    while i < hi
        invariant
            start <= i <= hi,
            hi <= v@.len(),
            body == v@.subrange(start as int, hi as int),
            body.len() > 0,
            spec_parse_unsigned(v@.subrange(lo as int, hi as int), max as nat) == (if all_digits(
                body,
            ) && digits_value(body) <= max {
                Some(digits_value(body))
            } else {
                None
            }),
            all_digits(body.subrange(0, i - start)),
            acc as nat == digits_value(body.subrange(0, i - start)),
            acc <= max,
        decreases hi - i,
    {
        let c = v[i];
        let ghost pre = body.subrange(0, i - start);
        let ghost next = body.subrange(0, i - start + 1);
        assert(next.drop_last() =~= pre);
        if !('0' <= c && c <= '9') {
            assert(!is_digit(body[i - start]));
            return None;
        }
        let d: u64 = (c as u32 - '0' as u32) as u64;
        assert(all_digits(next));
        assert(digits_value(next) == acc * 10 + d);
        if acc > max / 10 || (acc == max / 10 && d > max % 10) {
            proof {
                assert(acc * 10 + d > max) by (nonlinear_arith)
                    requires
                        acc > max / 10 || (acc == max / 10 && d > max % 10),
                        d <= 9,
                ;
                if all_digits(body) {
                    lemma_digits_prefix_le(body, i - start + 1);
                }
            }
            return None;
        }
        assert(acc * 10 + d <= max) by (nonlinear_arith)
            requires
                !(acc > max / 10 || (acc == max / 10 && d > max % 10)),
                d <= 9,
        ;
        acc = acc * 10 + d;
        i += 1;
    }
    assert(body.subrange(0, hi - start) =~= body);
    Some(acc)
}

/// The decimal digit character for `d < 10`.
pub open spec fn digit_char(d: nat) -> char {
    (d + '0' as int) as char
}

/// The decimal rendering of `n` without leading zeros, as `to_string` gives
/// it for the unsigned integer types.
pub open spec fn spec_decimal(n: nat) -> Seq<char>
    decreases n,
{
    if n < 10 {
        seq![digit_char(n)]
    } else {
        spec_decimal(n / 10).push(digit_char(n % 10))
    }
}

/// The character of the decimal digit `d`.
fn digit_to_char(d: u64) -> (c: char)
    requires
        d < 10,
    ensures
        c == digit_char(d as nat),
{
    match d {
        0 => '0',
        1 => '1',
        2 => '2',
        3 => '3',
        4 => '4',
        5 => '5',
        6 => '6',
        7 => '7',
        8 => '8',
        _ => '9',
    }
}

/// A decimal rendering is never empty.
pub proof fn lemma_decimal_nonempty(n: nat)
    ensures
        spec_decimal(n).len() >= 1,
        n >= 10 ==> spec_decimal(n).len() >= 2,
    decreases n,
{
    if n >= 10 {
        lemma_decimal_nonempty(n / 10);
    }
}

/// Distinct numbers have distinct decimal renderings.
pub proof fn lemma_decimal_injective(a: nat, b: nat)
    requires
        spec_decimal(a) == spec_decimal(b),
    ensures
        a == b,
    decreases a,
{
    lemma_decimal_nonempty(a);
    lemma_decimal_nonempty(b);
    if a < 10 && b < 10 {
        assert(spec_decimal(a)[0] == digit_char(a));
        assert(spec_decimal(b)[0] == digit_char(b));
    } else if a >= 10 && b >= 10 {
        let da = spec_decimal(a);
        let db = spec_decimal(b);
        assert(da.last() == digit_char(a % 10));
        assert(db.last() == digit_char(b % 10));
        assert(da.drop_last() =~= spec_decimal(a / 10));
        assert(db.drop_last() =~= spec_decimal(b / 10));
        lemma_decimal_injective(a / 10, b / 10);
    }
}

/// The decimal rendering of `n`, as characters.
pub fn decimal_chars(n: u64) -> (r: Vec<char>)
    ensures
        r@ == spec_decimal(n as nat),
    decreases n,
{
    let c = digit_to_char(n % 10);
    if n < 10 {
        let mut r: Vec<char> = Vec::new();
        r.push(c);
        assert(r@ =~= seq![digit_char(n as nat)]);
        r
    } else {
        let mut r = decimal_chars(n / 10);
        r.push(c);
        r
    }
}

// ---------------------------------------------------------------------------
// Substrings
// ---------------------------------------------------------------------------

/// `needle` occurs in `hay` at position `i`.
pub open spec fn occurs_at(hay: Seq<char>, needle: Seq<char>, i: int) -> bool {
    0 <= i && i + needle.len() <= hay.len() && hay.subrange(i, i + needle.len()) == needle
}

/// `needle` occurs somewhere in `hay`, as `str::contains` tests it.
pub open spec fn spec_contains(hay: Seq<char>, needle: Seq<char>) -> bool {
    exists|i: int| occurs_at(hay, needle, i)
}

/// Whether `needle` occurs in `hay`.
pub fn contains_chars(hay: &[char], needle: &[char]) -> (r: bool)
    ensures
        r == spec_contains(hay@, needle@),
{
    let n = hay.len();
    let m = needle.len();
    if m > n {
        assert forall|i: int| !occurs_at(hay@, needle@, i) by {}
        return false;
    }
    let mut i: usize = 0;
    while i <= n - m
        invariant
            m <= n,
            n == hay@.len(),
            m == needle@.len(),
            i <= n - m + 1,
            forall|k: int| 0 <= k < i ==> !occurs_at(hay@, needle@, k),
        decreases n - m + 1 - i,
    {
        let mut j: usize = 0;
        let mut same = true;
        while j < m
            invariant
                j <= m,
                i + m <= n,
                n == hay@.len(),
                m == needle@.len(),
                same == (forall|t: int| 0 <= t < j ==> hay@[i + t] == needle@[t]),
            decreases m - j,
        {
            if hay[i + j] != needle[j] {
                same = false;
            }
            j += 1;
        }
        if same {
            assert(hay@.subrange(i as int, i + m) =~= needle@);
            assert(occurs_at(hay@, needle@, i as int));
            return true;
        }
        assert(!occurs_at(hay@, needle@, i as int)) by {
            if occurs_at(hay@, needle@, i as int) {
                let t = choose|t: int| 0 <= t < m && hay@[i + t] != needle@[t];
                assert(hay@.subrange(i as int, i + m)[t] == hay@[i + t]);
            }
        }
        i += 1;
    }
    assert forall|k: int| !occurs_at(hay@, needle@, k) by {
        if 0 <= k && k < i {
        }
    }
    false
}

/// Whether `needle` occurs in `hay`.
pub fn str_contains(hay: &str, needle: &str) -> (r: bool)
    ensures
        r == spec_contains(hay@, needle@),
{
    let h = chars_of(hay);
    let n = chars_of(needle);
    contains_chars(h.as_slice(), n.as_slice())
}

} // verus!

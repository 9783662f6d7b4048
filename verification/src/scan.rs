//! Reading text: lines, words, prefixes and numbers. Each reader works on the
//! characters of a text and is stated by a spec function over them.

use vstd::prelude::*;

use crate::config;
use crate::text;

verus! {

/// Unicode white space.
pub open spec fn blank(c: char) -> bool {
    ||| '\u{9}' <= c <= '\u{d}'
    ||| c == ' '
    ||| c == '\u{85}'
    ||| c == '\u{a0}'
    ||| c == '\u{1680}'
    ||| '\u{2000}' <= c <= '\u{200a}'
    ||| c == '\u{2028}'
    ||| c == '\u{2029}'
    ||| c == '\u{202f}'
    ||| c == '\u{205f}'
    ||| c == '\u{3000}'
}

pub fn is_blank(c: char) -> (r: bool)
    ensures
        r == blank(c),
{
    ('\u{9}' <= c && c <= '\u{d}') || c == ' ' || c == '\u{85}' || c == '\u{a0}' || c == '\u{1680}'
        || ('\u{2000}' <= c && c <= '\u{200a}') || c == '\u{2028}' || c == '\u{2029}' || c
        == '\u{202f}' || c == '\u{205f}' || c == '\u{3000}'
}

/// The first position from `i` on that holds `c`; the length if there is none.
pub open spec fn find_char(s: Seq<char>, c: char, i: int) -> int
    decreases s.len() - i,
{
    if i >= s.len() {
        s.len() as int
    } else if s[i] == c {
        i
    } else {
        find_char(s, c, i + 1)
    }
}

pub proof fn lemma_find_char(s: Seq<char>, c: char, i: int)
    requires
        0 <= i <= s.len(),
    ensures
        i <= find_char(s, c, i) <= s.len(),
        find_char(s, c, i) < s.len() ==> s[find_char(s, c, i)] == c,
        forall|j: int| i <= j < find_char(s, c, i) ==> s[j] != c,
    decreases s.len() - i,
{
    if i < s.len() && s[i] != c {
        lemma_find_char(s, c, i + 1);
    }
}

/// The first position from `i` on that holds `c`; the length if there is none.
pub fn position(v: &Vec<char>, c: char, i: usize) -> (r: usize)
    requires
        i <= v@.len(),
    ensures
        r == find_char(v@, c, i as int),
        i <= r <= v@.len(),
{
    let mut k: usize = i;
    while k < v.len() && v[k] != c
        invariant
            i <= k <= v@.len(),
            find_char(v@, c, i as int) == find_char(v@, c, k as int),
        decreases v@.len() - k,
    {
        k = k + 1;
    }
    k
}

/// Whether `p` stands at position `i`.
pub open spec fn stands_at(s: Seq<char>, p: Seq<char>, i: int) -> bool {
    i + p.len() <= s.len() && s.subrange(i, i + p.len()) == p
}

/// The first position from `i` on at which `p` stands.
pub open spec fn find(s: Seq<char>, p: Seq<char>, i: int) -> Option<int>
    decreases s.len() - i,
{
    if i + p.len() > s.len() || i >= s.len() {
        None
    } else if stands_at(s, p, i) {
        Some(i)
    } else {
        find(s, p, i + 1)
    }
}

/// The first position from `i` on at which `p` stands.
pub fn find_text(v: &Vec<char>, p: &Vec<char>, i: usize) -> (r: Option<usize>)
    requires
        i <= v@.len(),
    ensures
        match r {
            Some(k) => find(v@, p@, i as int) == Some(k as int) && i <= k && k + p@.len()
                <= v@.len(),
            None => find(v@, p@, i as int) is None,
        },
{
    let mut k: usize = i;
    let n: usize = v.len();
    let m: usize = p.len();
    while k < n && m <= n - k
        invariant
            n == v@.len(),
            m == p@.len(),
            i <= k <= n,
            find(v@, p@, i as int) == find(v@, p@, k as int),
        decreases n - k,
    {
        if crate::text::matches_at(v, k, p) {
            return Some(k);
        }
        k = k + 1;
    }
    None
}

/// The second of the parts that `p` splits `s` into.
pub open spec fn second_part(s: Seq<char>, p: Seq<char>) -> Option<Seq<char>> {
    match find(s, p, 0) {
        None => None,
        Some(a) => {
            let rest = s.subrange(a + p.len(), s.len() as int);
            match find(rest, p, 0) {
                Some(b) => Some(rest.take(b)),
                None => Some(rest),
            }
        },
    }
}

/// A copy of the characters from `from` up to `to`.
pub fn part(v: &Vec<char>, from: usize, to: usize) -> (r: Vec<char>)
    requires
        from <= to <= v@.len(),
    ensures
        r@ == v@.subrange(from as int, to as int),
{
    let mut out: Vec<char> = Vec::new();
    let mut i: usize = from;
    while i < to
        invariant
            from <= i <= to <= v@.len(),
            out@ =~= v@.subrange(from as int, i as int),
        decreases to - i,
    {
        out.push(v[i]);
        i = i + 1;
    }
    out
}

/// What the characters are, if there are any.
pub open spec fn opt_chars(v: Option<Vec<char>>) -> Option<Seq<char>> {
    match v {
        Some(v) => Some(v@),
        None => None,
    }
}

/// The second of the parts that `p` splits `v` into.
pub fn split_second(v: &Vec<char>, p: &Vec<char>) -> (r: Option<Vec<char>>)
    ensures
        opt_chars(r) == second_part(v@, p@),
{
    let n: usize = v.len();
    match find_text(v, p, 0) {
        None => None,
        Some(a) => {
            let rest: Vec<char> = part(v, a + p.len(), n);
            match find_text(&rest, p, 0) {
                Some(b) => {
                    let out: Vec<char> = part(&rest, 0, b);
                    assert(out@ =~= rest@.take(b as int));
                    Some(out)
                },
                None => Some(rest),
            }
        },
    }
}

/// The first position from `i` on that is not blank; the length if none.
pub open spec fn skip_blank(s: Seq<char>, i: int) -> int
    decreases s.len() - i,
{
    if i < s.len() && blank(s[i]) {
        skip_blank(s, i + 1)
    } else {
        i
    }
}

/// The first position from `i` on that is blank; the length if none.
pub open spec fn skip_word(s: Seq<char>, i: int) -> int
    decreases s.len() - i,
{
    if i < s.len() && !blank(s[i]) {
        skip_word(s, i + 1)
    } else {
        i
    }
}

/// The first word: what stands between the blanks.
pub open spec fn first_word(s: Seq<char>) -> Option<Seq<char>> {
    let a = skip_blank(s, 0);
    if a >= s.len() {
        None
    } else {
        Some(s.subrange(a, skip_word(s, a)))
    }
}

/// The first word.
pub fn word(v: &Vec<char>) -> (r: Option<Vec<char>>)
    ensures
        opt_chars(r) == first_word(v@),
        r is Some ==> r->0@.len() > 0,
{
    let mut a: usize = 0;
    while a < v.len() && is_blank(v[a])
        invariant
            a <= v@.len(),
            skip_blank(v@, 0) == skip_blank(v@, a as int),
        decreases v@.len() - a,
    {
        a = a + 1;
    }
    if a >= v.len() {
        return None;
    }
    let mut b: usize = a;
    while b < v.len() && !is_blank(v[b])
        invariant
            a <= b <= v@.len(),
            a < v@.len(),
            b == a ==> !blank(v@[a as int]),
            skip_word(v@, a as int) == skip_word(v@, b as int),
        decreases v@.len() - b,
    {
        b = b + 1;
    }
    Some(part(v, a, b))
}

/// Without the blanks in front.
pub open spec fn trim_start(s: Seq<char>) -> Seq<char>
    decreases s.len(),
{
    if s.len() > 0 && blank(s[0]) {
        trim_start(s.subrange(1, s.len() as int))
    } else {
        s
    }
}

/// Without the characters behind that are blank.
pub open spec fn trim_end(s: Seq<char>) -> Seq<char>
    decreases s.len(),
{
    if s.len() > 0 && blank(s.last()) {
        trim_end(s.drop_last())
    } else {
        s
    }
}

/// Without blanks in front and behind.
pub open spec fn trim(s: Seq<char>) -> Seq<char> {
    trim_end(trim_start(s))
}

/// Without the trailing occurrences of `c`.
pub open spec fn trim_end_char(s: Seq<char>, c: char) -> Seq<char>
    decreases s.len(),
{
    if s.len() > 0 && s.last() == c {
        trim_end_char(s.drop_last(), c)
    } else {
        s
    }
}

/// Without blanks in front and behind.
pub fn trimmed(v: &Vec<char>) -> (r: Vec<char>)
    ensures
        r@ == trim(v@),
{
    let mut a: usize = 0;
    let n: usize = v.len();
    assert(v@.subrange(0, n as int) =~= v@);
    while a < n && is_blank(v[a])
        invariant
            n == v@.len(),
            a <= n,
            trim_start(v@) == trim_start(v@.subrange(a as int, n as int)),
        decreases n - a,
    {
        assert(v@.subrange(a as int, n as int).subrange(1, n - a) =~= v@.subrange(
            a + 1,
            n as int,
        ));
        a = a + 1;
    }
    let mut b: usize = n;
    while b > a && is_blank(v[b - 1])
        invariant
            n == v@.len(),
            a <= b <= n,
            trim(v@) == trim_end(v@.subrange(a as int, b as int)),
        decreases b,
    {
        assert(v@.subrange(a as int, b as int).drop_last() =~= v@.subrange(a as int, b - 1));
        b = b - 1;
    }
    part(v, a, b)
}

/// Without the trailing occurrences of `c`.
pub fn without_trailing(v: &Vec<char>, c: char) -> (r: Vec<char>)
    ensures
        r@ == trim_end_char(v@, c),
{
    let mut b: usize = v.len();
    assert(v@.subrange(0, b as int) =~= v@);
    while b > 0 && v[b - 1] == c
        invariant
            b <= v@.len(),
            trim_end_char(v@, c) == trim_end_char(v@.subrange(0, b as int), c),
        decreases b,
    {
        assert(v@.subrange(0, b as int).drop_last() =~= v@.subrange(0, b - 1));
        b = b - 1;
    }
    part(v, 0, b)
}

/// The line that starts at `i` and ends before the line feed at `j`, or at
/// the end of the text: without a carriage return before that line feed.
pub open spec fn line(s: Seq<char>, i: int, j: int) -> Seq<char> {
    if j < s.len() && i < j && s[j - 1] == '\r' {
        s.subrange(i, j - 1)
    } else {
        s.subrange(i, j)
    }
}

/// The lines from position `i` on.
pub open spec fn lines_from(s: Seq<char>, i: int) -> Seq<Seq<char>>
    decreases s.len() + 1 - i,
    via lines_from_decreases
{
    if i < 0 || i >= s.len() {
        Seq::empty()
    } else {
        let j = find_char(s, '\n', i);
        seq![line(s, i, j)] + lines_from(s, j + 1)
    }
}

#[via_fn]
proof fn lines_from_decreases(s: Seq<char>, i: int) {
    if 0 <= i < s.len() {
        lemma_find_char(s, '\n', i);
    }
}

/// The lines of a text.
pub open spec fn lines(s: Seq<char>) -> Seq<Seq<char>> {
    lines_from(s, 0)
}

/// What the lines hold.
pub open spec fn texts(v: Seq<Vec<char>>) -> Seq<Seq<char>> {
    Seq::new(v.len(), |i: int| v[i]@)
}

/// The lines of a text.
pub fn split_lines(v: &Vec<char>) -> (r: Vec<Vec<char>>)
    ensures
        texts(r@) == lines(v@),
{
    let mut out: Vec<Vec<char>> = Vec::new();
    let mut i: usize = 0;
    let n: usize = v.len();
    let mut done: bool = n == 0;
    assert(texts(out@) + lines_from(v@, 0) =~= lines(v@));
    while !done
        invariant
            n == v@.len(),
            !done ==> i < n,
            done ==> texts(out@) == lines(v@),
            !done ==> texts(out@) + lines_from(v@, i as int) == lines(v@),
        decreases n - i + (if done {
            0int
        } else {
            1
        }),
    {
        proof {
            lemma_find_char(v@, '\n', i as int);
        }
        let j: usize = position(v, '\n', i);
        let end: usize = if j < n && i < j && v[j - 1] == '\r' {
            j - 1
        } else {
            j
        };
        let ghost before = texts(out@);
        let l: Vec<char> = part(v, i, end);
        out.push(l);
        proof {
            assert(l@ == line(v@, i as int, j as int));
            assert(texts(out@) =~= before.push(l@));
            assert(texts(out@) + lines_from(v@, j + 1) =~= before + (seq![l@] + lines_from(
                v@,
                j + 1,
            )));
        }
        if n - j <= 1 {
            assert(lines_from(v@, j + 1) =~= Seq::empty());
            assert(texts(out@) + lines_from(v@, j + 1) =~= texts(out@));
            done = true;
        } else {
            i = j + 1;
        }
    }
    out
}

/// The rest of the first line, from `i` on, that starts with `p`.
pub open spec fn field_line(ls: Seq<Seq<char>>, p: Seq<char>, i: int) -> Option<Seq<char>>
    decreases ls.len() - i,
{
    if i >= ls.len() {
        None
    } else if stands_at(ls[i], p, 0) {
        Some(ls[i].subrange(p.len() as int, ls[i].len() as int))
    } else {
        field_line(ls, p, i + 1)
    }
}

/// The rest of the first line that starts with `p`.
pub fn line_after(ls: &Vec<Vec<char>>, p: &Vec<char>) -> (r: Option<Vec<char>>)
    ensures
        opt_chars(r) == field_line(texts(ls@), p@, 0),
{
    let mut i: usize = 0;
    while i < ls.len()
        invariant
            i <= ls@.len(),
            field_line(texts(ls@), p@, 0) == field_line(texts(ls@), p@, i as int),
        decreases ls@.len() - i,
    {
        if crate::text::matches_at(&ls[i], 0, p) {
            return Some(part(&ls[i], p.len(), ls[i].len()));
        }
        i = i + 1;
    }
    None
}

pub open spec fn digit(c: char) -> bool {
    '0' <= c <= '9'
}

pub open spec fn digit_value(c: char) -> int {
    c as int - '0' as int
}

pub open spec fn all_digits(s: Seq<char>) -> bool {
    forall|i: int| 0 <= i < s.len() ==> digit(#[trigger] s[i])
}

/// The number a row of digits stands for.
pub open spec fn value_of(s: Seq<char>) -> int
    decreases s.len(),
{
    if s.len() == 0 {
        0
    } else {
        value_of(s.drop_last()) * 10 + digit_value(s.last())
    }
}

/// Without a plus sign in front.
pub open spec fn unsigned_part(s: Seq<char>) -> Seq<char> {
    if s.len() > 0 && s[0] == '+' {
        s.subrange(1, s.len() as int)
    } else {
        s
    }
}

/// The number a text denotes, if it is an unsigned decimal number that fits
/// the given limit: digits only, at least one, with an optional plus sign.
pub open spec fn number(s: Seq<char>, limit: int) -> Option<int> {
    let d = unsigned_part(s);
    if d.len() > 0 && all_digits(d) && value_of(d) <= limit {
        Some(value_of(d))
    } else {
        None
    }
}

pub proof fn lemma_value_of_prefix(s: Seq<char>, n: int)
    requires
        0 <= n <= s.len(),
        all_digits(s),
    ensures
        0 <= value_of(s.take(n)) <= value_of(s),
    decreases s.len(),
{
    if n < s.len() {
        assert(s.drop_last().take(n) =~= s.take(n));
        lemma_value_of_prefix(s.drop_last(), n);
    } else {
        assert(s.take(n) =~= s);
        if s.len() > 0 {
            lemma_value_of_prefix(s.drop_last(), n - 1);
        }
    }
}

pub fn is_digit(c: char) -> (r: bool)
    ensures
        r == digit(c),
{
    '0' <= c && c <= '9'
}

/// The number the characters denote, if it fits 64 bits.
pub fn parse_u64(v: &Vec<char>) -> (r: Option<u64>)
    ensures
        match r {
            Some(n) => number(v@, u64::MAX as int) == Some(n as int),
            None => number(v@, u64::MAX as int) is None,
        },
{
    let start: usize = if v.len() > 0 && v[0] == '+' {
        1
    } else {
        0
    };
    let ghost d = unsigned_part(v@);
    assert(d =~= v@.subrange(start as int, v@.len() as int));
    if start >= v.len() {
        return None;
    }
    let mut n: u64 = 0;
    let mut i: usize = start;
    assert(d.take(0) =~= Seq::empty());
    while i < v.len()
        invariant
            start <= i <= v@.len(),
            d == v@.subrange(start as int, v@.len() as int),
            n == value_of(d.take(i - start)),
            forall|j: int| 0 <= j < i - start ==> digit(#[trigger] d[j]),
            d == unsigned_part(v@),
        decreases v@.len() - i,
    {
        let c: char = v[i];
        let ghost k = i - start;
        assert(d[k] == c);
        if !is_digit(c) {
            assert(!digit(d[k]));
            return None;
        }
        let x: u64 = c as u64 - '0' as u64;
        proof {
            assert(d.take(k + 1).drop_last() =~= d.take(k));
            assert(value_of(d.take(k + 1)) == n * 10 + x);
        }
        if n > (u64::MAX - x) / 10 {
            proof {
                assert(n * 10 + x > u64::MAX);
                if all_digits(d) {
                    lemma_value_of_prefix(d, k + 1);
                }
            }
            return None;
        }
        n = n * 10 + x;
        i = i + 1;
    }
    assert(d.take(i - start) =~= d);
    Some(n)
}

/// 10 to the power of `n`.
pub open spec fn pow10(n: nat) -> int
    decreases n,
{
    if n == 0 {
        1
    } else {
        10 * pow10((n - 1) as nat)
    }
}

pub proof fn lemma_pow10_pos(n: nat)
    ensures
        pow10(n) > 0,
    decreases n,
{
    if n > 0 {
        lemma_pow10_pos((n - 1) as nat);
    }
}

/// The first digit of a number counts for its place.
proof fn lemma_value_of_front(s: Seq<char>)
    requires
        s.len() > 0,
    ensures
        value_of(s) == digit_value(s[0]) * pow10((s.len() - 1) as nat) + value_of(
            s.subrange(1, s.len() as int),
        ),
    decreases s.len(),
{
    let t = s.subrange(1, s.len() as int);
    if s.len() == 1 {
        assert(s.drop_last() =~= Seq::empty());
        assert(value_of(s.drop_last()) == 0);
    } else {
        lemma_value_of_front(s.drop_last());
        assert(s.drop_last().subrange(1, s.len() - 1) =~= t.drop_last());
        let p = pow10((s.len() - 2) as nat);
        let d = digit_value(s[0]);
        assert((d * p) * 10 == d * (10 * p)) by (nonlinear_arith);
    }
}

/// What the digits behind a decimal point contribute, times `scale`, rounded
/// down.
pub open spec fn fraction_floor(s: Seq<char>, scale: int) -> int {
    (value_of(s) * scale) / pow10(s.len())
}

/// Rounding down digit by digit, from the last one, gives the same.
proof fn lemma_fraction_front(s: Seq<char>, scale: int)
    requires
        s.len() > 0,
        scale >= 0,
        all_digits(s),
    ensures
        fraction_floor(s, scale) == (digit_value(s[0]) * scale + fraction_floor(
            s.subrange(1, s.len() as int),
            scale,
        )) / 10,
{
    let t = s.subrange(1, s.len() as int);
    let d = digit_value(s[0]);
    let p = pow10(t.len());
    let a = value_of(t) * scale;
    lemma_value_of_front(s);
    lemma_pow10_pos(t.len());
    lemma_value_of_prefix(t, 0);
    assert(t.take(0) =~= Seq::empty());
    assert(value_of(s) * scale == (d * scale) * p + a) by (nonlinear_arith)
        requires
            value_of(s) == d * p + value_of(t),
            a == value_of(t) * scale,
    ;
    assert((d * scale) * p + a >= 0) by (nonlinear_arith)
        requires
            d >= 0,
            scale >= 0,
            p > 0,
            a == value_of(t) * scale,
            value_of(t) >= 0,
    ;
    vstd::arithmetic::div_mod::lemma_div_denominator((d * scale) * p + a, p, 10);
    vstd::arithmetic::div_mod::lemma_hoist_over_denominator(a, d * scale, p as nat);
    assert(p * (d * scale) == (d * scale) * p) by (nonlinear_arith);
    assert(p * 10 == pow10(s.len()));
}

/// A decimal number without an exponent: an optional sign, digits, and
/// optionally a point with digits behind it; at least one digit.
pub open spec fn decimal_body(s: Seq<char>) -> Seq<char> {
    if s.len() > 0 && (s[0] == '+' || s[0] == '-') {
        s.subrange(1, s.len() as int)
    } else {
        s
    }
}

pub open spec fn whole_digits(s: Seq<char>) -> Seq<char> {
    s.take(find_char(s, '.', 0))
}

pub open spec fn fraction_digits(s: Seq<char>) -> Seq<char> {
    if find_char(s, '.', 0) < s.len() {
        s.subrange(find_char(s, '.', 0) + 1, s.len() as int)
    } else {
        Seq::empty()
    }
}

/// Where the exponent of a number begins: at its first `e`, of either case, or
/// nowhere, behind its end.
pub open spec fn exponent_at(s: Seq<char>) -> int {
    if find_char(s, 'e', 0) <= find_char(s, 'E', 0) {
        find_char(s, 'e', 0)
    } else {
        find_char(s, 'E', 0)
    }
}

/// The exponent that a text denotes: an optional sign and digits.
pub open spec fn exponent_value(s: Seq<char>) -> Option<int> {
    let d = decimal_body(s);
    if d.len() > 0 && all_digits(d) {
        if s[0] == '-' {
            Some(-value_of(d))
        } else {
            Some(value_of(d))
        }
    } else {
        None
    }
}

/// The digits of a number without its sign, and the power of ten that their last
/// counts for: digits, optionally with a point among them or around them, and
/// optionally an exponent.
pub open spec fn number_parts(b: Seq<char>) -> Option<(Seq<char>, int)> {
    let m = b.take(exponent_at(b));
    let w = whole_digits(m);
    let f = fraction_digits(m);
    if !all_digits(w) || !all_digits(f) || w.len() + f.len() == 0 {
        None
    } else if exponent_at(b) == b.len() {
        Some((w + f, -f.len()))
    } else {
        match exponent_value(b.subrange(exponent_at(b) + 1, b.len() as int)) {
            Some(e) => Some((w + f, e - f.len())),
            None => None,
        }
    }
}

/// `n` times `scale` times 10 to the power of `e`, rounded down.
pub open spec fn shifted(n: int, scale: int, e: int) -> int {
    if e >= 0 {
        n * scale * pow10(e as nat)
    } else {
        (n * scale) / pow10((-e) as nat)
    }
}

/// A number in the range of 64 bits: 0 where it is negative, the maximum where it
/// is larger.
pub open spec fn clipped(negative: bool, x: int) -> int {
    if negative {
        0
    } else if x > u64::MAX {
        u64::MAX as int
    } else {
        x
    }
}

/// The text is the word, whatever the case of its letters.
pub open spec fn is_word(s: Seq<char>, word: Seq<char>) -> bool {
    s.len() == word.len() && forall|i: int|
        0 <= i < s.len() ==> config::lower(#[trigger] s[i]) == word[i]
}

/// The floating-point number that a text denotes, times `scale`, rounded down
/// into the range of 64 bits; what is no number is 0.
pub open spec fn scaled_floor(s: Seq<char>, scale: int) -> Option<int> {
    let b = decimal_body(s);
    if is_word(b, "nan"@) {
        Some(0)
    } else if is_word(b, "inf"@) || is_word(b, "infinity"@) {
        Some(clipped(s[0] == '-', u64::MAX as int))
    } else {
        match number_parts(b) {
            Some((d, e)) => Some(clipped(s[0] == '-', shifted(value_of(d), scale, e))),
            None => None,
        }
    }
}

fn digits_only(v: &Vec<char>, from: usize, to: usize) -> (r: bool)
    requires
        from <= to <= v@.len(),
    ensures
        r == all_digits(v@.subrange(from as int, to as int)),
{
    let mut i: usize = from;
    while i < to
        invariant
            from <= i <= to <= v@.len(),
            forall|j: int| from <= j < i ==> digit(#[trigger] v@[j]),
        decreases to - i,
    {
        if !is_digit(v[i]) {
            assert(!digit(v@.subrange(from as int, to as int)[i - from]));
            return false;
        }
        i = i + 1;
    }
    true
}

/// The number the digits stand for, or `None` where it does not fit.
fn whole_value(v: &Vec<char>, from: usize, to: usize) -> (r: Option<u64>)
    requires
        from <= to <= v@.len(),
        all_digits(v@.subrange(from as int, to as int)),
    ensures
        match r {
            Some(n) => n == value_of(v@.subrange(from as int, to as int)),
            None => value_of(v@.subrange(from as int, to as int)) > u64::MAX,
        },
{
    let ghost d = v@.subrange(from as int, to as int);
    let mut n: u64 = 0;
    let mut i: usize = from;
    assert(d.take(0) =~= Seq::empty());
    while i < to
        invariant
            from <= i <= to <= v@.len(),
            d == v@.subrange(from as int, to as int),
            all_digits(d),
            n == value_of(d.take(i - from)),
        decreases to - i,
    {
        let ghost k = i - from;
        assert(digit(d[k]));
        let x: u64 = v[i] as u64 - '0' as u64;
        proof {
            assert(d.take(k + 1).drop_last() =~= d.take(k));
        }
        if n > (u64::MAX - x) / 10 {
            proof {
                lemma_value_of_prefix(d, k + 1);
            }
            return None;
        }
        n = n * 10 + x;
        i = i + 1;
    }
    assert(d.take(i - from) =~= d);
    Some(n)
}

/// What the digits contribute behind a decimal point, times `scale`.
fn fraction_value(v: &Vec<char>, from: usize, to: usize, scale: u64) -> (r: u64)
    requires
        from <= to <= v@.len(),
        all_digits(v@.subrange(from as int, to as int)),
        scale <= 0x100_0000_0000,
    ensures
        r == fraction_floor(v@.subrange(from as int, to as int), scale as int),
        r <= scale,
{
    let ghost d = v@.subrange(from as int, to as int);
    let mut c: u64 = 0;
    let mut i: usize = to;
    assert(fraction_floor(v@.subrange(to as int, to as int), scale as int) == 0) by {
        assert(v@.subrange(to as int, to as int) =~= Seq::empty());
    }
    while i > from
        invariant
            from <= i <= to <= v@.len(),
            d == v@.subrange(from as int, to as int),
            all_digits(d),
            c <= scale <= 0x100_0000_0000,
            c == fraction_floor(v@.subrange(i as int, to as int), scale as int),
        decreases i,
    {
        i = i - 1;
        assert(digit(d[i - from]));
        let x: u64 = v[i] as u64 - '0' as u64;
        proof {
            let t = v@.subrange(i as int, to as int);
            assert(all_digits(t)) by {
                assert forall|j: int| 0 <= j < t.len() implies digit(#[trigger] t[j]) by {
                    assert(t[j] == d[i - from + j]);
                }
            }
            lemma_fraction_front(t, scale as int);
            assert(t.subrange(1, t.len() as int) =~= v@.subrange(i + 1, to as int));
            assert(x * scale <= 9 * scale) by (nonlinear_arith)
                requires
                    x <= 9,
            ;
        }
        c = (x * scale + c) / 10;
    }
    c
}

proof fn lemma_pow10_sum(a: nat, b: nat)
    ensures
        pow10(a + b) == pow10(a) * pow10(b),
    decreases b,
{
    if b > 0 {
        lemma_pow10_sum(a, (b - 1) as nat);
        let p = pow10(a);
        let q = pow10((b - 1) as nat);
        assert(10 * (p * q) == p * (10 * q)) by (nonlinear_arith);
    } else {
        assert(pow10(a) * 1 == pow10(a));
    }
}

proof fn lemma_pow10_grows(a: nat, b: nat)
    requires
        a <= b,
    ensures
        pow10(a) <= pow10(b),
{
    lemma_pow10_sum(a, (b - a) as nat);
    lemma_pow10_pos(a);
    lemma_pow10_pos((b - a) as nat);
    let p = pow10(a);
    let q = pow10((b - a) as nat);
    assert(p <= p * q) by (nonlinear_arith)
        requires
            p > 0,
            q > 0,
    ;
}

/// Digits stand for less than the power of ten of their number.
proof fn lemma_value_bound(s: Seq<char>)
    requires
        all_digits(s),
    ensures
        0 <= value_of(s) < pow10(s.len()),
    decreases s.len(),
{
    if s.len() > 0 {
        assert forall|i: int| 0 <= i < s.drop_last().len() implies digit(
            #[trigger] s.drop_last()[i],
        ) by {
            assert(s.drop_last()[i] == s[i]);
        }
        lemma_value_bound(s.drop_last());
        assert(digit(s[s.len() - 1]));
    }
}

/// The digits in front count for their place.
proof fn lemma_value_of_sum(a: Seq<char>, b: Seq<char>)
    ensures
        value_of(a + b) == value_of(a) * pow10(b.len()) + value_of(b),
    decreases b.len(),
{
    if b.len() == 0 {
        assert(a + b =~= a);
        assert(value_of(a) * 1 == value_of(a));
    } else {
        lemma_value_of_sum(a, b.drop_last());
        assert((a + b).drop_last() =~= a + b.drop_last());
        let p = pow10((b.len() - 1) as nat);
        let x = value_of(a);
        assert((x * p) * 10 == x * (10 * p)) by (nonlinear_arith);
    }
}

/// Moving the point to the left of some digits rounds what is behind it.
proof fn lemma_shift_within(a: Seq<char>, b: Seq<char>, scale: int)
    requires
        all_digits(b),
        scale >= 0,
    ensures
        (value_of(a + b) * scale) / pow10(b.len()) == value_of(a) * scale + fraction_floor(
            b,
            scale,
        ),
{
    lemma_value_of_sum(a, b);
    lemma_pow10_pos(b.len());
    let p = pow10(b.len());
    let x = value_of(a);
    let y = value_of(b);
    assert((x * p + y) * scale == y * scale + p * (x * scale)) by (nonlinear_arith);
    vstd::arithmetic::div_mod::lemma_hoist_over_denominator(y * scale, x * scale, p as nat);
    assert(p * (x * scale) == (x * scale) * p) by (nonlinear_arith);
}

/// Where the point of a number stands so far to the left that nothing is left.
proof fn lemma_shift_to_nothing(d: Seq<char>, scale: int, k: nat)
    requires
        all_digits(d),
        0 <= scale <= 0x100_0000_0000,
        k >= d.len() + 13,
    ensures
        (value_of(d) * scale) / pow10(k) == 0,
{
    lemma_value_bound(d);
    lemma_pow10_sum(d.len(), 13);
    lemma_pow10_grows(d.len() + 13, k);
    reveal_with_fuel(pow10, 14);
    let x = value_of(d);
    let p = pow10(d.len());
    assert(pow10(13) == 10_000_000_000_000);
    assert(0 <= x * scale < p * 10_000_000_000_000) by (nonlinear_arith)
        requires
            0 <= x < p,
            0 <= scale <= 0x100_0000_0000,
    ;
    vstd::arithmetic::div_mod::lemma_basic_div(x * scale, pow10(k));
}

/// Where the point of a number stands so far to the right that it does not fit.
proof fn lemma_shift_too_far(n: int, scale: int, e: nat)
    requires
        n >= 1,
        scale >= 1,
        e >= 20,
    ensures
        n * scale * pow10(e) > u64::MAX,
{
    lemma_pow10_grows(20, e);
    reveal_with_fuel(pow10, 21);
    assert(pow10(20) == 100_000_000_000_000_000_000);
    let p = pow10(e);
    assert(n * scale * p >= p) by (nonlinear_arith)
        requires
            n >= 1,
            scale >= 1,
            p > 0,
    ;
}

/// Exponents beyond this are read as this.
pub const EXPONENT_CAP: u128 = 0x10_0000_0000_0000_0000_0000_0000;

/// The number the digits stand for, up to the cap.
fn capped_value(v: &Vec<char>, from: usize, to: usize) -> (r: u128)
    requires
        from <= to <= v@.len(),
        all_digits(v@.subrange(from as int, to as int)),
    ensures
        r <= EXPONENT_CAP,
        r <= value_of(v@.subrange(from as int, to as int)),
        r < EXPONENT_CAP ==> r == value_of(v@.subrange(from as int, to as int)),
{
    let ghost d = v@.subrange(from as int, to as int);
    let mut n: u128 = 0;
    let mut i: usize = from;
    assert(d.take(0) =~= Seq::empty());
    while i < to
        invariant
            from <= i <= to <= v@.len(),
            d == v@.subrange(from as int, to as int),
            all_digits(d),
            n == value_of(d.take(i - from)),
            n < EXPONENT_CAP,
        decreases to - i,
    {
        let ghost k = i - from;
        assert(digit(d[k]));
        let x: u128 = v[i] as u128 - '0' as u128;
        proof {
            assert(d.take(k + 1).drop_last() =~= d.take(k));
            lemma_value_of_prefix(d, k + 1);
        }
        n = n * 10 + x;
        if n >= EXPONENT_CAP {
            return EXPONENT_CAP;
        }
        i = i + 1;
    }
    assert(d.take(i - from) =~= d);
    n
}

/// The digits' number times `scale` times ten to the power of `e`, up to the
/// maximum.
fn shift_up(d: &Vec<char>, scale: u64, e: u64) -> (r: u64)
    requires
        all_digits(d@),
        1 <= scale <= 0x100_0000_0000,
    ensures
        r == clipped(false, shifted(value_of(d@), scale as int, e as int)),
{
    let ghost all = value_of(d@);
    assert(d@.subrange(0, d@.len() as int) =~= d@);
    proof {
        lemma_pow10_pos(e as nat);
        lemma_value_bound(d@);
    }
    let n: u64 = match whole_value(d, 0, d.len()) {
        Some(n) => n,
        None => {
            let ghost p = pow10(e as nat);
            assert(all * scale * p > u64::MAX) by (nonlinear_arith)
                requires
                    all > u64::MAX,
                    scale >= 1,
                    p >= 1,
            ;
            return u64::MAX;
        },
    };
    assert(n * scale <= 0xffff_ffff_ffff_ffff * 0x100_0000_0000) by (nonlinear_arith)
        requires
            n <= 0xffff_ffff_ffff_ffff,
            scale <= 0x100_0000_0000,
    ;
    let mut x: u128 = n as u128 * scale as u128;
    let ghost base = n * scale;
    let mut i: u64 = 0;
    assert(base * pow10(0) == base);
    while i < e
        invariant
            i <= e,
            0 <= base,
            base == value_of(d@) * scale,
            x == base * pow10(i as nat),
            x <= 0xffff_ffff_ffff_ffff * 0x100_0000_0000,
        decreases e - i,
    {
        if x > u64::MAX as u128 {
            proof {
                lemma_pow10_grows(i as nat, e as nat);
                let p = pow10(i as nat);
                let q = pow10(e as nat);
                assert(base * p <= base * q) by (nonlinear_arith)
                    requires
                        0 <= base,
                        p <= q,
                ;
            }
            return u64::MAX;
        }
        proof {
            let p = pow10(i as nat);
            assert(10 * (base * p) == base * (10 * p)) by (nonlinear_arith);
        }
        x = x * 10;
        i = i + 1;
    }
    if x > u64::MAX as u128 {
        u64::MAX
    } else {
        x as u64
    }
}

/// The digits' number times `scale` divided by ten to the power of `k`, rounded
/// down, up to the maximum.
fn shift_down(d: &Vec<char>, scale: u64, k: u128) -> (r: u64)
    requires
        all_digits(d@),
        1 <= scale <= 0x100_0000_0000,
        0 < k < d@.len() + 13,
    ensures
        r == clipped(false, shifted(value_of(d@), scale as int, -k)),
{
    let len: usize = d.len();
    if k <= len as u128 {
        let at: usize = len - k as usize;
        let ghost a = d@.subrange(0, at as int);
        let ghost b = d@.subrange(at as int, len as int);
        assert(a + b =~= d@);
        assert(all_digits(a) && all_digits(b)) by {
            assert forall|i: int| 0 <= i < a.len() implies digit(#[trigger] a[i]) by {
                assert(a[i] == d@[i]);
            }
            assert forall|i: int| 0 <= i < b.len() implies digit(#[trigger] b[i]) by {
                assert(b[i] == d@[at + i]);
            }
        }
        let fraction: u64 = fraction_value(d, at, len, scale);
        proof {
            lemma_shift_within(a, b, scale as int);
        }
        match whole_value(d, 0, at) {
            None => {
                let ghost w = value_of(a);
                assert(w * scale > u64::MAX) by (nonlinear_arith)
                    requires
                        w > u64::MAX,
                        scale >= 1,
                ;
                u64::MAX
            },
            Some(w) => {
                assert(w * scale <= 0xffff_ffff_ffff_ffff * 0x100_0000_0000) by (nonlinear_arith)
                    requires
                        w <= 0xffff_ffff_ffff_ffff,
                        scale <= 0x100_0000_0000,
                ;
                let x: u128 = w as u128 * scale as u128 + fraction as u128;
                if x > u64::MAX as u128 {
                    u64::MAX
                } else {
                    x as u64
                }
            },
        }
    } else {
        let more: u64 = (k - len as u128) as u64;
        assert(d@.subrange(0, len as int) =~= d@);
        let mut c: u64 = fraction_value(d, 0, len, scale);
        let ghost all = value_of(d@) * scale;
        let ghost p = pow10(d@.len());
        let mut i: u64 = 0;
        proof {
            lemma_pow10_pos(d@.len());
            lemma_value_bound(d@);
            assert(all >= 0) by (nonlinear_arith)
                requires
                    all == value_of(d@) * scale,
                    value_of(d@) >= 0,
                    scale >= 1,
            ;
            assert(d@.len() + 0 == d@.len());
        }
        while i < more
            invariant
                i <= more,
                all >= 0,
                c == all / pow10(d@.len() + i as nat),
            decreases more - i,
        {
            proof {
                let q = pow10(d@.len() + i as nat);
                lemma_pow10_pos(d@.len() + i as nat);
                vstd::arithmetic::div_mod::lemma_div_denominator(all, q, 10);
                assert(q * 10 == pow10(d@.len() + (i + 1) as nat));
            }
            c = c / 10;
            i = i + 1;
        }
        c
    }
}

/// The text is the word, in lower case, whatever the case of its own letters.
fn word_is(v: &Vec<char>, word: &str) -> (r: bool)
    ensures
        r == is_word(v@, word@),
{
    let w: Vec<char> = text::chars_of(word);
    if v.len() != w.len() {
        return false;
    }
    let mut i: usize = 0;
    while i < v.len()
        invariant
            i <= v@.len(),
            v@.len() == w@.len(),
            w@ == word@,
            forall|j: int| 0 <= j < i ==> config::lower(#[trigger] v@[j]) == w@[j],
        decreases v@.len() - i,
    {
        if config::lower_char(v[i]) != w[i] {
            return false;
        }
        i = i + 1;
    }
    true
}

/// The exponent, as its sign and its magnitude up to the cap.
fn parse_exponent(v: &Vec<char>) -> (r: Option<(bool, u128)>)
    ensures
        match r {
            None => exponent_value(v@) is None,
            Some((down, n)) => {
                &&& exponent_value(v@) is Some
                &&& n <= EXPONENT_CAP
                &&& down == (v@[0] == '-')
                &&& down ==> exponent_value(v@)->0 <= -n
                &&& !down ==> exponent_value(v@)->0 >= n
                &&& n < EXPONENT_CAP ==> exponent_value(v@)->0 == (if down {
                    -n
                } else {
                    n as int
                })
            },
        },
{
    let from: usize = if v.len() > 0 && (v[0] == '+' || v[0] == '-') {
        1
    } else {
        0
    };
    assert(v@.subrange(from as int, v@.len() as int) =~= decimal_body(v@));
    if from == v.len() || !digits_only(v, from, v.len()) {
        return None;
    }
    Some((v[0] == '-', capped_value(v, from, v.len())))
}

/// The digits in two ranges, one behind the other.
fn joined_digits(v: &Vec<char>, dot: usize, from: usize) -> (r: Vec<char>)
    requires
        dot <= from <= v@.len(),
    ensures
        r@ == v@.subrange(0, dot as int) + v@.subrange(from as int, v@.len() as int),
{
    let mut out: Vec<char> = part(v, 0, dot);
    let mut rest: Vec<char> = part(v, from, v.len());
    out.append(&mut rest);
    out
}

/// The digits' number times `scale` times ten to the power of `e`, rounded down,
/// up to the maximum; the power is the exponent less the number of digits behind
/// the point.
fn scaled_digits(
    d: &Vec<char>,
    scale: u64,
    down: bool,
    n: u128,
    behind: usize,
    Ghost(e): Ghost<int>,
) -> (r: u64)
    requires
        all_digits(d@),
        1 <= scale <= 0x100_0000_0000,
        behind <= d@.len(),
        n <= EXPONENT_CAP,
        down ==> e <= -n - behind,
        !down ==> e >= n - behind,
        n < EXPONENT_CAP ==> e == (if down {
            -n
        } else {
            n as int
        }) - behind,
    ensures
        r == clipped(false, shifted(value_of(d@), scale as int, e)),
{
    proof {
        lemma_value_bound(d@);
        assert(d@.subrange(0, d@.len() as int) =~= d@);
    }
    if let Some(0) = whole_value(d, 0, d.len()) {
        proof {
            if e >= 0 {
                let p = pow10(e as nat);
                assert(0 * scale * p == 0) by (nonlinear_arith);
            } else {
                lemma_pow10_pos((-e) as nat);
                assert(0 * scale == 0);
                vstd::arithmetic::div_mod::lemma_basic_div(0, pow10((-e) as nat));
            }
        }
        return 0;
    }
    let back: u128 = behind as u128;
    if !down && n >= back {
        if n - back >= 20 {
            proof {
                lemma_shift_too_far(value_of(d@), scale as int, e as nat);
            }
            return u64::MAX;
        }
        return shift_up(d, scale, (n - back) as u64);
    }
    let k: u128 = if down {
        n + back
    } else {
        back - n
    };
    if k == 0 {
        shift_up(d, scale, 0)
    } else if k >= d.len() as u128 + 13 {
        proof {
            lemma_shift_to_nothing(d@, scale as int, (-e) as nat);
        }
        0
    } else {
        shift_down(d, scale, k)
    }
}

/// The floating-point number the characters denote, times `scale`, rounded down
/// into the range of 64 bits.
pub fn parse_scaled(v: &Vec<char>, scale: u64) -> (r: Option<u64>)
    requires
        1 <= scale <= 0x100_0000_0000,
    ensures
        match r {
            Some(n) => scaled_floor(v@, scale as int) == Some(n as int),
            None => scaled_floor(v@, scale as int) is None,
        },
{
    let signed: bool = v.len() > 0 && (v[0] == '+' || v[0] == '-');
    let b: Vec<char> = if signed {
        part(v, 1, v.len())
    } else {
        part(v, 0, v.len())
    };
    assert(b@ =~= decimal_body(v@));
    if word_is(&b, "nan") {
        return Some(0);
    }
    let negative: bool = v.len() > 0 && v[0] == '-';
    if word_is(&b, "inf") || word_is(&b, "infinity") {
        assert(b@.len() > 0) by {
            reveal_strlit("inf");
            reveal_strlit("infinity");
        }
        return Some(
            if negative {
                0
            } else {
                u64::MAX
            },
        );
    }
    let small: usize = position(&b, 'e', 0);
    let large: usize = position(&b, 'E', 0);
    let at: usize = if small <= large {
        small
    } else {
        large
    };
    let m: Vec<char> = part(&b, 0, at);
    assert(m@ =~= b@.take(exponent_at(b@)));
    let dot: usize = position(&m, '.', 0);
    let from: usize = if dot < m.len() {
        dot + 1
    } else {
        dot
    };
    assert(m@.subrange(0, dot as int) =~= whole_digits(m@));
    assert(m@.subrange(from as int, m@.len() as int) =~= fraction_digits(m@));
    if !digits_only(&m, 0, dot) || !digits_only(&m, from, m.len()) {
        return None;
    }
    if dot == 0 && from == m.len() {
        return None;
    }
    let d: Vec<char> = joined_digits(&m, dot, from);
    let ghost w = whole_digits(m@);
    let ghost f = fraction_digits(m@);
    proof {
        assert(d@ == w + f);
        assert forall|i: int| 0 <= i < d@.len() implies digit(#[trigger] d@[i]) by {
            if i < w.len() {
                assert(d@[i] == w[i]);
            } else {
                assert(d@[i] == f[i - w.len()]);
            }
        }
        lemma_value_bound(d@);
    }
    let behind: usize = m.len() - from;
    let (down, n): (bool, u128) = if at == b.len() {
        (false, 0)
    } else {
        let x: Vec<char> = part(&b, at + 1, b.len());
        match parse_exponent(&x) {
            Some(e) => e,
            None => return None,
        }
    };
    let ghost e = match number_parts(b@) {
        Some((_, e)) => e,
        None => 0,
    };
    assert(number_parts(b@) == Some((d@, e)));
    let value: u64 = scaled_digits(&d, scale, down, n, behind, Ghost(e));
    if negative {
        Some(0)
    } else {
        Some(value)
    }
}

/// Without the trailing occurrences of a text.
pub open spec fn trim_end_text(s: Seq<char>, p: Seq<char>) -> Seq<char>
    decreases s.len(),
{
    if p.len() > 0 && s.len() >= p.len() && stands_at(s, p, s.len() - p.len()) {
        trim_end_text(s.take(s.len() - p.len()), p)
    } else {
        s
    }
}

/// Without the trailing occurrences of a text.
pub fn without_suffixes(v: &Vec<char>, p: &Vec<char>) -> (r: Vec<char>)
    requires
        p@.len() > 0,
    ensures
        r@ == trim_end_text(v@, p@),
    decreases v@.len(),
{
    if v.len() >= p.len() && crate::text::matches_at(v, v.len() - p.len(), p) {
        let t: Vec<char> = part(v, 0, v.len() - p.len());
        assert(t@ =~= v@.take(v@.len() - p@.len()));
        without_suffixes(&t, p)
    } else {
        part(v, 0, v.len())
    }
}

/// The characters other than `c`, in order.
pub open spec fn without(s: Seq<char>, c: char) -> Seq<char>
    decreases s.len(),
{
    if s.len() == 0 {
        Seq::empty()
    } else if s.last() == c {
        without(s.drop_last(), c)
    } else {
        without(s.drop_last(), c).push(s.last())
    }
}

/// The characters other than `c`, in order.
pub fn strip_char(v: &Vec<char>, c: char) -> (r: Vec<char>)
    ensures
        r@ == without(v@, c),
{
    let mut out: Vec<char> = Vec::new();
    let mut i: usize = 0;
    assert(v@.take(0) =~= Seq::empty());
    while i < v.len()
        invariant
            i <= v@.len(),
            out@ == without(v@.take(i as int), c),
        decreases v@.len() - i,
    {
        assert(v@.take(i + 1).drop_last() =~= v@.take(i as int));
        if v[i] != c {
            out.push(v[i]);
        }
        i = i + 1;
    }
    assert(v@.take(i as int) =~= v@);
    out
}

/// What is left without a character holds it nowhere, and every other character of the
/// text in order: one more character behind the text adds itself unless it is that one.
pub proof fn law_without_drops_one_character(s: Seq<char>, c: char, d: char, i: int)
    ensures
        0 <= i < without(s, c).len() ==> without(s, c)[i] != c,
        d != c ==> without(s.push(d), c) == without(s, c).push(d),
        without(s.push(c), c) == without(s, c),
        without(Seq::empty(), c).len() == 0,
    decreases s.len(),
{
    assert(s.push(d).drop_last() =~= s);
    assert(s.push(c).drop_last() =~= s);
    if s.len() > 0 {
        law_without_drops_one_character(s.drop_last(), c, d, i);
    }
}

/// A number written in decimal reads as that number.
pub proof fn law_decimals_read_back(n: nat)
    ensures
        all_digits(crate::text::decimal(n)),
        crate::text::decimal(n).len() > 0,
        value_of(crate::text::decimal(n)) == n,
        n > 0 ==> crate::text::decimal(n)[0] != '0',
    decreases n,
{
    let s = crate::text::decimal(n);
    if n < 10 {
        assert(s.drop_last() =~= Seq::empty());
        assert(value_of(s.drop_last()) == 0);
    } else {
        law_decimals_read_back(n / 10);
        assert(s.drop_last() =~= crate::text::decimal(n / 10));
    }
}

/// The blanks are white space: space, tab and line ends, and no printable ASCII character
/// but the space.
pub proof fn law_blanks_are_white_space(c: char)
    ensures
        blank(' ') && blank('\t') && blank('\n') && blank('\r'),
        '!' <= c <= '~' ==> !blank(c),
        digit(c) ==> !blank(c),
{
}

/// A text stands at a position where its characters do.
pub proof fn law_texts_stand_where_their_characters_do(s: Seq<char>, p: Seq<char>, i: int)
    requires
        0 <= i,
    ensures
        stands_at(s, p, i) <==> i + p.len() <= s.len() && forall|k: int|
            0 <= k < p.len() ==> s[i + k] == #[trigger] p[k],
{
    if i + p.len() <= s.len() {
        let part = s.subrange(i, i + p.len());
        if forall|k: int| 0 <= k < p.len() ==> s[i + k] == #[trigger] p[k] {
            assert(part =~= p);
        }
        if part == p {
            assert forall|k: int| 0 <= k < p.len() implies s[i + k] == #[trigger] p[k] by {
                assert(part[k] == p[k]);
            }
        }
    }
}

/// What is found is the first place where the text stands, and nothing is found where it
/// stands nowhere.
pub proof fn law_the_first_place_is_found(s: Seq<char>, p: Seq<char>, i: int, j: int)
    requires
        0 <= i,
        p.len() > 0,
    ensures
        find(s, p, i) is Some ==> i <= find(s, p, i)->0 && stands_at(s, p, find(s, p, i)->0),
        i <= j && stands_at(s, p, j) ==> find(s, p, i) is Some && find(s, p, i)->0 <= j,
    decreases s.len() - i,
{
    if i + p.len() <= s.len() && i < s.len() && !stands_at(s, p, i) {
        law_the_first_place_is_found(s, p, i + 1, j);
    }
}

/// The part behind the first place of a separator ends at the next one, or with the text.
pub proof fn law_parts_stand_between_separators(s: Seq<char>, p: Seq<char>)
    requires
        p.len() > 0,
    ensures
        second_part(s, p) is None <==> find(s, p, 0) is None,
        find(s, p, 0) is Some ==> {
            let from = find(s, p, 0)->0 + p.len();
            let t = second_part(s, p)->0;
            &&& from + t.len() <= s.len()
            &&& t == s.subrange(from, from + t.len())
            &&& from + t.len() < s.len() ==> stands_at(s, p, from + t.len())
        },
{
    if find(s, p, 0) is Some {
        law_the_first_place_is_found(s, p, 0, 0);
        let from = find(s, p, 0)->0 + p.len();
        let rest = s.subrange(from, s.len() as int);
        let t = second_part(s, p)->0;
        law_the_first_place_is_found(rest, p, 0, 0);
        assert(t =~= s.subrange(from, from + t.len()));
        if find(rest, p, 0) is Some {
            let b = find(rest, p, 0)->0;
            assert(s.subrange(from + b, from + b + p.len()) =~= rest.subrange(b, b + p.len()));
        }
    }
}

proof fn lemma_skips(s: Seq<char>, i: int)
    requires
        0 <= i <= s.len(),
    ensures
        i <= skip_blank(s, i) <= s.len(),
        forall|k: int| i <= k < skip_blank(s, i) ==> blank(#[trigger] s[k]),
        skip_blank(s, i) < s.len() ==> !blank(s[skip_blank(s, i)]),
        i <= skip_word(s, i) <= s.len(),
        forall|k: int| i <= k < skip_word(s, i) ==> !blank(#[trigger] s[k]),
        skip_word(s, i) < s.len() ==> blank(s[skip_word(s, i)]),
    decreases s.len() - i,
{
    if i < s.len() {
        lemma_skips(s, i + 1);
    }
}

/// The first word is all that stands between the first blanks and the next: it holds no
/// blank, and only a text of blanks has none.
pub proof fn law_words_stand_between_blanks(s: Seq<char>, k: int)
    ensures
        first_word(s) is None && 0 <= k < s.len() ==> blank(s[k]),
        first_word(s) is Some ==> {
            let w = first_word(s)->0;
            let a = skip_blank(s, 0);
            &&& w.len() > 0
            &&& 0 <= a && a + w.len() <= s.len()
            &&& s.subrange(a, a + w.len()) == w
            &&& 0 <= k < a ==> blank(s[k])
            &&& 0 <= k < w.len() ==> !blank(w[k])
            &&& a + w.len() < s.len() ==> blank(s[a + w.len()])
        },
{
    lemma_skips(s, 0);
    let a = skip_blank(s, 0);
    lemma_skips(s, a);
    if a < s.len() {
        assert(skip_word(s, a) > a) by {
            lemma_skips(s, a + 1);
        }
    }
}

proof fn lemma_trim_start(s: Seq<char>) -> (n: int)
    ensures
        0 <= n <= s.len(),
        trim_start(s) == s.skip(n),
        n < s.len() ==> !blank(s[n]),
        forall|k: int| 0 <= k < n ==> blank(#[trigger] s[k]),
    decreases s.len(),
{
    if s.len() > 0 && blank(s[0]) {
        let t = s.subrange(1, s.len() as int);
        let m = lemma_trim_start(t);
        assert(t.skip(m) =~= s.skip(m + 1));
        assert forall|k: int| 0 <= k < m + 1 implies blank(#[trigger] s[k]) by {
            if k > 0 {
                assert(t[k - 1] == s[k]);
            }
        }
        if m + 1 < s.len() {
            assert(t[m] == s[m + 1]);
        }
        m + 1
    } else {
        assert(s.skip(0) =~= s);
        0
    }
}

proof fn lemma_trim_end(s: Seq<char>) -> (n: int)
    ensures
        0 <= n <= s.len(),
        trim_end(s) == s.take(n),
        n > 0 ==> !blank(s[n - 1]),
        forall|k: int| n <= k < s.len() ==> blank(#[trigger] s[k]),
    decreases s.len(),
{
    if s.len() > 0 && blank(s.last()) {
        let m = lemma_trim_end(s.drop_last());
        assert(s.drop_last().take(m) =~= s.take(m));
        assert forall|k: int| m <= k < s.len() implies blank(#[trigger] s[k]) by {
            if k < s.len() - 1 {
                assert(s.drop_last()[k] == s[k]);
            }
        }
        m
    } else {
        assert(s.take(s.len() as int) =~= s);
        s.len() as int
    }
}

/// Trimming leaves out the blanks in front and behind and nothing else: what is left is a
/// stretch of the text that neither begins nor ends with a blank.
pub proof fn law_trimming_drops_blanks_alone(s: Seq<char>) -> (at: (int, int))
    ensures
        0 <= at.0 <= at.1 <= s.len(),
        trim(s) == s.subrange(at.0, at.1),
        trim(s).len() > 0 ==> !blank(trim(s)[0]) && !blank(trim(s).last()),
        forall|k: int| 0 <= k < at.0 || at.1 <= k < s.len() ==> blank(#[trigger] s[k]),
{
    let a = lemma_trim_start(s);
    let t = s.skip(a);
    let n = lemma_trim_end(t);
    assert(t.take(n) =~= s.subrange(a, a + n));
    if n > 0 {
        assert(t[n - 1] == s[a + n - 1]);
        assert(t[0] == s[a]);
    }
    assert forall|k: int| 0 <= k < a || a + n <= k < s.len() implies blank(#[trigger] s[k]) by {
        if k >= a + n {
            assert(t[k - a] == s[k]);
        }
    }
    (a, a + n)
}

/// A character is dropped from the end as often as it stands there, and no other is.
pub proof fn law_trailing_characters_are_dropped(s: Seq<char>, c: char, k: int)
    ensures
        ({
            let t = trim_end_char(s, c);
            &&& t.len() <= s.len()
            &&& s.take(t.len() as int) == t
            &&& t.len() > 0 ==> t.last() != c
            &&& t.len() <= k < s.len() ==> s[k] == c
        }),
    decreases s.len(),
{
    let t = trim_end_char(s, c);
    if s.len() > 0 && s.last() == c {
        law_trailing_characters_are_dropped(s.drop_last(), c, k);
        assert(s.drop_last().take(t.len() as int) =~= s.take(t.len() as int));
        if t.len() <= k < s.len() - 1 {
            assert(s.drop_last()[k] == s[k]);
        }
    } else {
        assert(s.take(t.len() as int) =~= s);
    }
}

/// A text is dropped from the end as often as it stands there: what is left begins the text
/// and does not end with it.
pub proof fn law_trailing_texts_are_dropped(s: Seq<char>, p: Seq<char>)
    requires
        p.len() > 0,
    ensures
        ({
            let t = trim_end_text(s, p);
            &&& t.len() <= s.len()
            &&& s.take(t.len() as int) == t
            &&& t.len() >= p.len() ==> !stands_at(t, p, t.len() - p.len())
        }),
        trim_end_text(s + p, p) == trim_end_text(s, p),
    decreases s.len(),
{
    let t = trim_end_text(s, p);
    let whole = s + p;
    assert(whole.subrange(whole.len() - p.len(), whole.len() as int) =~= p);
    assert(whole.take(whole.len() - p.len()) =~= s);
    if s.len() >= p.len() && stands_at(s, p, s.len() - p.len()) {
        let r = s.take(s.len() - p.len());
        law_trailing_texts_are_dropped(r, p);
        assert(r.take(t.len() as int) =~= s.take(t.len() as int));
    } else {
        assert(s.take(t.len() as int) =~= s);
    }
}

/// A line goes up to the next line feed, which it does not hold, or to the end of the text;
/// a carriage return right before the line feed belongs to neither, and the next line begins
/// behind the line feed.
pub proof fn law_lines_end_at_line_feeds(s: Seq<char>, i: int, j: int, k: int)
    requires
        0 <= i <= j <= s.len(),
        i < s.len(),
        forall|x: int| i <= x < j ==> #[trigger] s[x] != '\n',
        j < s.len() ==> s[j] == '\n',
    ensures
        lines_from(s, i).len() > 0,
        j < s.len() && j > i && s[j - 1] == '\r' ==> lines_from(s, i)[0] == s.subrange(i, j - 1),
        j == s.len() || j == i || s[j - 1] != '\r' ==> lines_from(s, i)[0] == s.subrange(i, j),
        lines_from(s, i).skip(1) == lines_from(s, j + 1),
        lines_from(s, s.len() as int).len() == 0,
        lines(s) == lines_from(s, 0),
{
    lemma_find_char(s, '\n', i);
    let f = find_char(s, '\n', i);
    if f < j {
        assert(s[f] != '\n');
    }
    assert(f == j);
    assert(lines_from(s, i).skip(1) =~= lines_from(s, j + 1));
}

/// The field is on the first line that begins with its name, and is all that stands behind
/// the name.
pub proof fn law_fields_are_on_the_first_line_of_their_name(
    ls: Seq<Seq<char>>,
    p: Seq<char>,
    i: int,
    j: int,
)
    requires
        0 <= i <= j <= ls.len(),
        forall|k: int| i <= k < j ==> !stands_at(#[trigger] ls[k], p, 0),
    ensures
        j == ls.len() ==> field_line(ls, p, i) is None,
        j < ls.len() && stands_at(ls[j], p, 0) ==> field_line(ls, p, i) == Some(
            ls[j].skip(p.len() as int),
        ),
    decreases j - i,
{
    if i < j {
        assert(!stands_at(ls[i], p, 0));
        law_fields_are_on_the_first_line_of_their_name(ls, p, i + 1, j);
    } else if j < ls.len() && stands_at(ls[j], p, 0) {
        assert(ls[j].subrange(p.len() as int, ls[j].len() as int) =~= ls[j].skip(p.len() as int));
    }
}

/// A number is read back from its decimal form, with or without a plus sign, up to the
/// limit; a text with another character in it, or with none, is no number.
pub proof fn law_numbers_are_read_back(n: nat, limit: int, s: Seq<char>, i: int)
    ensures
        number(text::decimal(n), limit) == (if n <= limit {
            Some(n as int)
        } else {
            None
        }),
        number(seq!['+'] + text::decimal(n), limit) == number(text::decimal(n), limit),
        number(Seq::empty(), limit) is None,
        0 <= i < s.len() && !digit(s[i]) && !(i == 0 && s[i] == '+') ==> number(s, limit) is None,
{
    law_decimals_read_back(n);
    let d = text::decimal(n);
    assert(digit(d[0]));
    let signed = seq!['+'] + d;
    assert(signed.subrange(1, signed.len() as int) =~= d);
    if 0 <= i < s.len() && !digit(s[i]) && !(i == 0 && s[i] == '+') {
        let u = unsigned_part(s);
        if s[0] == '+' {
            assert(u[i - 1] == s[i]);
        }
    }
}

/// Each place counts ten times the next.
pub proof fn law_places_count_tenfold(n: nat, s: Seq<char>, c: char)
    ensures
        pow10(0) == 1,
        pow10(n + 1) == 10 * pow10(n),
        value_of(Seq::empty()) == 0,
        value_of(s.push(c)) == 10 * value_of(s) + (c as int - 48),
{
    assert(s.push(c).drop_last() =~= s);
}

proof fn lemma_no_exponent(s: Seq<char>)
    requires
        forall|k: int| 0 <= k < s.len() ==> digit(#[trigger] s[k]) || s[k] == '.',
    ensures
        exponent_at(s) == s.len(),
{
    lemma_find_char(s, 'e', 0);
    lemma_find_char(s, 'E', 0);
}

/// A number with digits behind its point is scaled exactly and rounded down; without a point
/// it is multiplied; what is larger than 64 bits can hold is the maximum; and a minus sign
/// makes it nothing.
pub proof fn law_decimal_numbers_are_scaled(w: Seq<char>, f: Seq<char>, scale: int)
    requires
        w.len() > 0,
        all_digits(w),
        all_digits(f),
        scale >= 0,
    ensures
        ({
            let x = (value_of(w + f) * scale) / pow10(f.len());
            scaled_floor(w + seq!['.'] + f, scale) == Some(if x > u64::MAX {
                u64::MAX as int
            } else {
                x
            })
        }),
        ({
            let x = value_of(w) * scale;
            scaled_floor(w, scale) == Some(if x > u64::MAX {
                u64::MAX as int
            } else {
                x
            })
        }),
        scaled_floor(seq!['-'] + w, scale) == Some(0int),
        scaled_floor(seq!['+'] + w, scale) == scaled_floor(w, scale),
{
    let s = w + seq!['.'] + f;
    assert(digit(w[0]));
    assert(s[0] == w[0]);
    reveal_strlit("nan");
    reveal_strlit("inf");
    reveal_strlit("infinity");
    assert(!is_word(s, "nan"@) && !is_word(s, "inf"@) && !is_word(s, "infinity"@)) by {
        assert(config::lower(s[0]) == s[0]);
    }
    assert(!is_word(w, "nan"@) && !is_word(w, "inf"@) && !is_word(w, "infinity"@)) by {
        assert(config::lower(w[0]) == w[0]);
    }
    assert forall|k: int| 0 <= k < s.len() implies digit(#[trigger] s[k]) || s[k] == '.' by {
        if k < w.len() {
            assert(s[k] == w[k]);
        } else if k > w.len() {
            assert(s[k] == f[k - w.len() - 1]);
        }
    }
    lemma_no_exponent(s);
    assert(s.take(s.len() as int) =~= s);
    lemma_find_char(s, '.', 0);
    let dot = find_char(s, '.', 0);
    assert(s[w.len() as int] == '.');
    if dot < w.len() {
        assert(s[dot] == w[dot]);
        assert(digit(w[dot]));
    }
    assert(dot == w.len());
    assert(whole_digits(s) =~= w);
    assert(fraction_digits(s) =~= f);
    assert(number_parts(s) == Some((w + f, -f.len())));
    lemma_value_bound(w);
    assert forall|k: int| 0 <= k < (w + f).len() implies digit(#[trigger] (w + f)[k]) by {
        if k < w.len() {
            assert((w + f)[k] == w[k]);
        } else {
            assert((w + f)[k] == f[k - w.len()]);
        }
    }
    lemma_value_bound(w + f);
    lemma_pow10_pos(f.len());
    let v = value_of(w + f);
    if f.len() == 0 {
        assert(w + f =~= w);
        assert(v * scale * 1 == v * scale) by (nonlinear_arith);
        assert(pow10(0) == 1);
        assert((v * scale) / 1 == v * scale) by (nonlinear_arith);
    }
    let e = Seq::<char>::empty();
    lemma_no_exponent(w);
    assert(w.take(w.len() as int) =~= w);
    lemma_find_char(w, '.', 0);
    let wdot = find_char(w, '.', 0);
    if wdot < w.len() {
        assert(digit(w[wdot]));
    }
    assert(whole_digits(w) =~= w);
    assert(fraction_digits(w) =~= e);
    assert(w + e =~= w);
    assert(number_parts(w) == Some((w, 0int)));
    let n = value_of(w);
    assert(n * scale * 1 == n * scale) by (nonlinear_arith);
    assert(pow10(0) == 1);
    assert(shifted(n, scale, 0) == n * scale);
    let minus = seq!['-'] + w;
    let plus = seq!['+'] + w;
    assert(minus.subrange(1, minus.len() as int) =~= w);
    assert(plus.subrange(1, plus.len() as int) =~= w);
}

/// An exponent moves the point: up by so many places where it is positive, and down by so
/// many where it is negative, rounding down.
pub proof fn law_exponents_move_the_point(n: int, scale: int, e: nat)
    ensures
        shifted(n, scale, e as int) == n * scale * pow10(e),
        e > 0 ==> shifted(n, scale, -(e as int)) == (n * scale) / pow10(e),
{
}

} // verus!

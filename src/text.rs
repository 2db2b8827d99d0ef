use vstd::prelude::*;
use vstd::std_specs::iter::IteratorSpec;

verus! {

/// An exact non-negative rational `num / den`; every numeric observation is carried this way.
#[derive(Clone, Copy, Debug, PartialEq, Eq, Structural)]
pub struct Ratio {
    pub num: u64,
    pub den: u64,
}

/// True when `c` is one of the ASCII digits `0` to `9`.
pub open spec fn is_digit(c: char) -> bool {
    '0' <= c && c <= '9'
}

/// The numeric value of an ASCII digit.
pub open spec fn digit_value(c: char) -> int {
    c as int - '0' as int
}

/// True for the characters of Unicode's White_Space property.
pub open spec fn is_space(c: char) -> bool {
    ('\t' <= c && c <= '\r') || c == ' ' || c == '\u{85}' || c == '\u{a0}' || c == '\u{1680}'
        || ('\u{2000}' <= c && c <= '\u{200a}') || c == '\u{2028}' || c == '\u{2029}' || c
        == '\u{202f}' || c == '\u{205f}' || c == '\u{3000}'
}

/// End of the maximal run of digits that starts at `i`.
pub open spec fn digit_run_end(s: Seq<char>, i: int) -> int
    decreases s.len() - i,
{
    if 0 <= i < s.len() && is_digit(s[i]) {
        digit_run_end(s, i + 1)
    } else {
        i
    }
}

/// End of the maximal run of whitespace that starts at `i`.
pub open spec fn space_run_end(s: Seq<char>, i: int) -> int
    decreases s.len() - i,
{
    if 0 <= i < s.len() && is_space(s[i]) {
        space_run_end(s, i + 1)
    } else {
        i
    }
}

/// End of the longest number `digits [. digits]` that starts at `i`, or `i` when no digit
/// stands there.
pub open spec fn number_end(s: Seq<char>, i: int) -> int {
    let e = digit_run_end(s, i);
    if e == i {
        i
    } else if e < s.len() && s[e] == '.' {
        digit_run_end(s, e + 1)
    } else {
        e
    }
}

/// `pat` occurs in `s` starting at position `i`.
pub open spec fn occurs_at(s: Seq<char>, pat: Seq<char>, i: int) -> bool {
    0 <= i && i + pat.len() <= s.len() && s.subrange(i, i + pat.len()) == pat
}

/// `pat` occurs somewhere in `s`.
pub open spec fn contains(s: Seq<char>, pat: Seq<char>) -> bool {
    exists|i: int| occurs_at(s, pat, i)
}

/// The least position in `[from, end)` where `p` holds.
pub open spec fn first_where(p: spec_fn(int) -> bool, from: int, end: int) -> Option<int>
    decreases end - from,
{
    if from >= end {
        None
    } else if p(from) {
        Some(from)
    } else {
        first_where(p, from + 1, end)
    }
}

/// The least position at or after `from` where `pat` occurs in `s`.
pub open spec fn find_from(s: Seq<char>, pat: Seq<char>, from: int) -> Option<int> {
    first_where(|i: int| occurs_at(s, pat, i), from, s.len() as int + 1)
}

/// Reads a number left to right: the value of its digits with the dot left out, how many
/// digits stand after the dot, and whether a dot has been seen.
pub open spec fn decimal_fold(t: Seq<char>) -> (int, nat, bool)
    decreases t.len(),
{
    if t.len() == 0 {
        (0, 0, false)
    } else {
        let (n, k, dot) = decimal_fold(t.drop_last());
        let c = t.last();
        if c == '.' {
            (n, k, true)
        } else {
            (n * 10 + digit_value(c), if dot { k + 1 } else { k }, dot)
        }
    }
}

pub open spec fn pow10(k: nat) -> int
    decreases k,
{
    if k == 0 {
        1
    } else {
        10 * pow10((k - 1) as nat)
    }
}

/// The exact value of a number written `digits [. digits]`, when numerator and denominator
/// fit in 64 bits.
pub open spec fn decimal_ratio(t: Seq<char>) -> Option<Ratio> {
    let (n, k, _) = decimal_fold(t);
    if n <= u64::MAX && pow10(k) <= u64::MAX {
        Some(Ratio { num: n as u64, den: pow10(k) as u64 })
    } else {
        None
    }
}

/// Characters of `t` are all digits or dots.
pub open spec fn numeric_chars(t: Seq<char>) -> bool {
    forall|i: int| 0 <= i < t.len() ==> is_digit(#[trigger] t[i]) || t[i] == '.'
}

pub proof fn lemma_pow10_positive(k: nat)
    ensures
        pow10(k) >= 1,
    decreases k,
{
    if k > 0 {
        lemma_pow10_positive((k - 1) as nat);
    }
}

proof fn lemma_pow10_monotone(a: nat, b: nat)
    requires
        a <= b,
    ensures
        pow10(a) <= pow10(b),
    decreases b,
{
    if a < b {
        lemma_pow10_monotone(a, (b - 1) as nat);
        lemma_pow10_positive((b - 1) as nat);
    }
}

/// The fold only grows as characters are read.
proof fn lemma_decimal_fold_grows(t: Seq<char>, i: int)
    requires
        0 <= i <= t.len(),
        numeric_chars(t),
    ensures
        decimal_fold(t.subrange(0, i)).0 <= decimal_fold(t).0,
        decimal_fold(t.subrange(0, i)).1 <= decimal_fold(t).1,
        0 <= decimal_fold(t.subrange(0, i)).0,
    decreases t.len() - i,
{
    if i < t.len() {
        lemma_decimal_fold_grows(t, i + 1);
        let p = t.subrange(0, i + 1);
        assert(p.drop_last() =~= t.subrange(0, i));
        assert(is_digit(p.last()) || p.last() == '.');
    } else {
        assert(t.subrange(0, i) =~= t);
        lemma_decimal_fold_nonneg(t);
    }
}

proof fn lemma_decimal_fold_nonneg(t: Seq<char>)
    requires
        numeric_chars(t),
    ensures
        0 <= decimal_fold(t).0,
    decreases t.len(),
{
    if t.len() > 0 {
        let d = t.drop_last();
        assert(numeric_chars(d)) by {
            assert forall|i: int| 0 <= i < d.len() implies is_digit(#[trigger] d[i]) || d[i]
                == '.' by {
                assert(d[i] == t[i]);
            }
        }
        lemma_decimal_fold_nonneg(d);
        assert(is_digit(t[t.len() - 1]) || t[t.len() - 1] == '.');
    }
}

/// The fields of `s` between commas, as start and end positions.
pub open spec fn field_bounds(s: Seq<char>) -> Seq<(int, int)>
    decreases s.len(),
{
    if s.len() == 0 {
        seq![(0, 0)]
    } else {
        let b = field_bounds(s.drop_last());
        if s.last() == ',' {
            b.push((s.len() as int, s.len() as int))
        } else {
            b.update(b.len() - 1, (b.last().0, s.len() as int))
        }
    }
}

/// The fields of `s` between commas.
pub open spec fn fields(s: Seq<char>) -> Seq<Seq<char>> {
    field_bounds(s).map_values(|b: (int, int)| s.subrange(b.0, b.1))
}

/// The whole of `t` is one number `digits [. digits]`, and its value fits.
pub open spec fn number_value(t: Seq<char>) -> Option<Ratio> {
    if t.len() > 0 && number_end(t, 0) == t.len() {
        decimal_ratio(t)
    } else {
        None
    }
}

pub proof fn lemma_field_bounds(s: Seq<char>)
    ensures
        field_bounds(s).len() >= 1,
        forall|k: int|
            0 <= k < field_bounds(s).len() ==> 0 <= (#[trigger] field_bounds(s)[k]).0
                <= field_bounds(s)[k].1 <= s.len(),
    decreases s.len(),
{
    if s.len() > 0 {
        lemma_field_bounds(s.drop_last());
    }
}

pub proof fn lemma_digit_run(s: Seq<char>, i: int)
    requires
        0 <= i <= s.len(),
    ensures
        i <= digit_run_end(s, i) <= s.len(),
        forall|k: int| i <= k < digit_run_end(s, i) ==> is_digit(#[trigger] s[k]),
    decreases s.len() - i,
{
    if i < s.len() && is_digit(s[i]) {
        lemma_digit_run(s, i + 1);
    }
}

pub proof fn lemma_number_chars(s: Seq<char>, i: int)
    requires
        0 <= i <= s.len(),
    ensures
        i <= number_end(s, i) <= s.len(),
        numeric_chars(s.subrange(i, number_end(s, i))),
{
    lemma_digit_run(s, i);
    let e = digit_run_end(s, i);
    if e != i && e < s.len() && s[e] == '.' {
        lemma_digit_run(s, e + 1);
    }
    let t = s.subrange(i, number_end(s, i));
    assert forall|k: int| 0 <= k < t.len() implies is_digit(#[trigger] t[k]) || t[k] == '.' by {
        assert(t[k] == s[i + k]);
    }
}

pub proof fn lemma_decimal_ratio_den(t: Seq<char>)
    ensures
        decimal_ratio(t) matches Some(q) ==> q.den >= 1,
{
    lemma_pow10_positive(decimal_fold(t).1);
}

/// What `first_where` finds: a position where `p` holds, with none before it; or none at all.
pub proof fn lemma_first_where(p: spec_fn(int) -> bool, from: int, end: int)
    ensures
        match first_where(p, from, end) {
            Some(i) => from <= i < end && p(i) && forall|j: int| from <= j < i ==> !#[trigger] p(j),
            None => forall|j: int| from <= j < end ==> !#[trigger] p(j),
        },
    decreases end - from,
{
    if from < end && !p(from) {
        lemma_first_where(p, from + 1, end);
    }
}

/// `first_where` finds the first position where `p` holds.
pub proof fn lemma_first_where_at(p: spec_fn(int) -> bool, from: int, end: int, i: int)
    requires
        from <= i < end,
        p(i),
        forall|j: int| from <= j < i ==> !#[trigger] p(j),
    ensures
        first_where(p, from, end) == Some(i),
    decreases i - from,
{
    if from < i {
        lemma_first_where_at(p, from + 1, end, i);
    }
}

/// At position `i`: `key`, then whitespace when `spaces` is set, then a number (with a
/// fraction when `frac` is set), then `suffix`. The number's span when they match.
pub open spec fn keyed_at(
    s: Seq<char>,
    key: Seq<char>,
    spaces: bool,
    frac: bool,
    suffix: Seq<char>,
    i: int,
) -> Option<(int, int)> {
    if occurs_at(s, key, i) {
        let v = if spaces {
            space_run_end(s, i + key.len())
        } else {
            i + key.len()
        };
        let e = if frac {
            number_end(s, v)
        } else {
            digit_run_end(s, v)
        };
        if e > v && occurs_at(s, suffix, e) {
            Some((v, e))
        } else {
            None
        }
    } else {
        None
    }
}

pub open spec fn keyed_here(
    s: Seq<char>,
    key: Seq<char>,
    spaces: bool,
    frac: bool,
    suffix: Seq<char>,
) -> spec_fn(int) -> bool {
    |i: int| keyed_at(s, key, spaces, frac, suffix, i) is Some
}

/// The number's span in the leftmost match of the keyed pattern.
pub open spec fn keyed_match(
    s: Seq<char>,
    key: Seq<char>,
    spaces: bool,
    frac: bool,
    suffix: Seq<char>,
) -> Option<(int, int)> {
    match first_where(keyed_here(s, key, spaces, frac, suffix), 0, s.len() as int + 1) {
        Some(i) => keyed_at(s, key, spaces, frac, suffix, i),
        None => None,
    }
}

/// The value of the number in the leftmost match of the keyed pattern, when it fits.
pub open spec fn keyed_value(
    s: Seq<char>,
    key: Seq<char>,
    spaces: bool,
    frac: bool,
    suffix: Seq<char>,
) -> Option<Ratio> {
    match keyed_match(s, key, spaces, frac, suffix) {
        Some((v, e)) => decimal_ratio(s.subrange(v, e)),
        None => None,
    }
}

/// The last position in `[from, end)` where `p` holds.
pub open spec fn last_where(p: spec_fn(int) -> bool, from: int, end: int) -> Option<int>
    decreases end - from,
{
    if end <= from {
        None
    } else if p(end - 1) {
        Some(end - 1)
    } else {
        last_where(p, from, end - 1)
    }
}

/// Tests whether `c` is an ASCII digit.
pub fn char_is_digit(c: char) -> (r: bool)
    ensures
        r == is_digit(c),
{
    '0' <= c && c <= '9'
}

/// Tests whether `c` is whitespace in Unicode's sense.
pub fn char_is_space(c: char) -> (r: bool)
    ensures
        r == is_space(c),
{
    ('\t' <= c && c <= '\r') || c == ' ' || c == '\u{85}' || c == '\u{a0}' || c == '\u{1680}'
        || ('\u{2000}' <= c && c <= '\u{200a}') || c == '\u{2028}' || c == '\u{2029}' || c
        == '\u{202f}' || c == '\u{205f}' || c == '\u{3000}'
}

/// The characters of `s`, in order.
pub fn chars_of(s: &str) -> (r: Vec<char>)
    ensures
        r@ == s@,
{
    broadcast use vstd::string::group_string_axioms;

    let mut it = s.chars();
    let mut out: Vec<char> = Vec::new();
    loop
        invariant
            out@ + it.remaining() == s@,
            it.obeys_prophetic_iter_laws(),
            IteratorSpec::decrease(&it) is Some,
        ensures
            out@ == s@,
        decreases IteratorSpec::decrease(&it)->0,
    {
        let ghost before = it.remaining();
        match it.next() {
            Some(c) => {
                out.push(c);
            },
            None => {
                assert(before.len() == 0);
                assert(out@ =~= s@);
                break;
            },
        }
    }
    out
}

/// The characters `s[from..to]` as a string.
pub fn slice_string(s: &str, from: usize, to: usize) -> (r: String)
    requires
        from <= to <= s@.len(),
    ensures
        r@ == s@.subrange(from as int, to as int),
{
    s.substring_char(from, to).to_string()
}

pub fn run_of_digits(s: &Vec<char>, i: usize) -> (r: usize)
    requires
        i <= s@.len(),
    ensures
        r == digit_run_end(s@, i as int),
        i <= r <= s@.len(),
{
    let mut j = i;
    while j < s.len() && char_is_digit(s[j])
        invariant
            i <= j <= s@.len(),
            digit_run_end(s@, i as int) == digit_run_end(s@, j as int),
        decreases s@.len() - j,
    {
        j = j + 1;
    }
    j
}

pub fn run_of_spaces(s: &Vec<char>, i: usize) -> (r: usize)
    requires
        i <= s@.len(),
    ensures
        r == space_run_end(s@, i as int),
        i <= r <= s@.len(),
{
    let mut j = i;
    while j < s.len() && char_is_space(s[j])
        invariant
            i <= j <= s@.len(),
            space_run_end(s@, i as int) == space_run_end(s@, j as int),
        decreases s@.len() - j,
    {
        j = j + 1;
    }
    j
}

pub fn end_of_number(s: &Vec<char>, i: usize) -> (r: usize)
    requires
        i <= s@.len(),
    ensures
        r == number_end(s@, i as int),
        i <= r <= s@.len(),
{
    let e = run_of_digits(s, i);
    if e == i {
        i
    } else if e < s.len() && s[e] == '.' {
        run_of_digits(s, e + 1)
    } else {
        e
    }
}

/// Tests whether `pat` occurs in `s` at position `i`.
pub fn occurs_at_exec(s: &Vec<char>, pat: &Vec<char>, i: usize) -> (r: bool)
    ensures
        r == occurs_at(s@, pat@, i as int),
{
    if i > s.len() || pat.len() > s.len() - i {
        return false;
    }
    let n = s.len();
    let mut k: usize = 0;
    while k < pat.len()
        invariant
            n == s@.len(),
            i + pat@.len() <= s@.len(),
            k <= pat@.len(),
            forall|m: int| 0 <= m < k ==> s@[i + m] == pat@[m],
        decreases pat@.len() - k,
    {
        if s[i + k] != pat[k] {
            assert(s@.subrange(i as int, i + pat@.len())[k as int] != pat@[k as int]);
            return false;
        }
        k = k + 1;
    }
    assert(s@.subrange(i as int, i + pat@.len()) =~= pat@);
    true
}

/// The least position at or after `from` where `pat` occurs in `s`.
pub fn find_from_exec(s: &Vec<char>, pat: &Vec<char>, from: usize) -> (r: Option<usize>)
    ensures
        match r {
            Some(i) => find_from(s@, pat@, from as int) == Some(i as int) && from <= i <= s@.len()
                && occurs_at(s@, pat@, i as int),
            None => find_from(s@, pat@, from as int) is None,
        },
{
    let ghost p = |i: int| occurs_at(s@, pat@, i);
    if from > s.len() {
        return None;
    }
    let mut i = from;
    while i < s.len()
        invariant
            from <= i <= s@.len(),
            p == (|i: int| occurs_at(s@, pat@, i)),
            first_where(p, from as int, s@.len() as int + 1) == first_where(p, i as int, s@.len() as int + 1),
        decreases s@.len() - i,
    {
        if occurs_at_exec(s, pat, i) {
            return Some(i);
        }
        i = i + 1;
    }
    if occurs_at_exec(s, pat, i) {
        Some(i)
    } else {
        assert(first_where(p, i as int + 1, s@.len() as int + 1) is None);
        None
    }
}

/// Tests whether `pat` occurs in `s`.
pub fn has_text(s: &Vec<char>, pat: &Vec<char>) -> (r: bool)
    ensures
        r == contains(s@, pat@),
{
    let f = find_from_exec(s, pat, 0);
    proof {
        lemma_first_where(|i: int| occurs_at(s@, pat@, i), 0, s@.len() as int + 1);
        if f is None {
            assert forall|i: int| !occurs_at(s@, pat@, i) by {
                if 0 <= i <= s@.len() {
                    assert(!(|i: int| occurs_at(s@, pat@, i))(i));
                }
            }
        }
    }
    f.is_some()
}

pub fn keyed_at_exec(
    s: &Vec<char>,
    key: &Vec<char>,
    spaces: bool,
    frac: bool,
    suffix: &Vec<char>,
    i: usize,
) -> (r: Option<(usize, usize)>)
    ensures
        match r {
            Some((v, e)) => keyed_at(s@, key@, spaces, frac, suffix@, i as int) == Some(
                (v as int, e as int),
            ) && v <= e <= s@.len() && numeric_chars(s@.subrange(v as int, e as int)),
            None => keyed_at(s@, key@, spaces, frac, suffix@, i as int) is None,
        },
{
    let n = s.len();
    if !occurs_at_exec(s, key, i) {
        return None;
    }
    assert(i + key@.len() <= n);
    let k = i + key.len();
    let v = if spaces {
        run_of_spaces(s, k)
    } else {
        k
    };
    let e = if frac {
        end_of_number(s, v)
    } else {
        run_of_digits(s, v)
    };
    proof {
        lemma_number_chars(s@, v as int);
        lemma_digit_run(s@, v as int);
        if !frac {
            let t = s@.subrange(v as int, e as int);
            assert forall|m: int| 0 <= m < t.len() implies is_digit(#[trigger] t[m]) || t[m]
                == '.' by {
                assert(t[m] == s@[v + m]);
            }
        }
    }
    if e > v && occurs_at_exec(s, suffix, e) {
        Some((v, e))
    } else {
        None
    }
}

/// The number's span in the leftmost match of the keyed pattern.
pub fn keyed_match_exec(
    s: &Vec<char>,
    key: &Vec<char>,
    spaces: bool,
    frac: bool,
    suffix: &Vec<char>,
) -> (r: Option<(usize, usize)>)
    ensures
        match r {
            Some((v, e)) => keyed_match(s@, key@, spaces, frac, suffix@) == Some(
                (v as int, e as int),
            ) && v <= e <= s@.len() && numeric_chars(s@.subrange(v as int, e as int)),
            None => keyed_match(s@, key@, spaces, frac, suffix@) is None,
        },
{
    let ghost p = keyed_here(s@, key@, spaces, frac, suffix@);
    let mut i: usize = 0;
    while i < s.len()
        invariant
            i <= s@.len(),
            p == keyed_here(s@, key@, spaces, frac, suffix@),
            first_where(p, 0, s@.len() as int + 1) == first_where(p, i as int, s@.len() as int + 1),
        decreases s@.len() - i,
    {
        let r = keyed_at_exec(s, key, spaces, frac, suffix, i);
        if r.is_some() {
            return r;
        }
        i = i + 1;
    }
    let r = keyed_at_exec(s, key, spaces, frac, suffix, i);
    if r.is_none() {
        assert(first_where(p, i as int + 1, s@.len() as int + 1) is None);
    }
    r
}

/// The value of the number in the leftmost match of the keyed pattern, when it fits.
pub fn keyed_value_exec(
    s: &Vec<char>,
    key: &Vec<char>,
    spaces: bool,
    frac: bool,
    suffix: &Vec<char>,
) -> (r: Option<Ratio>)
    ensures
        r == keyed_value(s@, key@, spaces, frac, suffix@),
{
    match keyed_match_exec(s, key, spaces, frac, suffix) {
        Some((v, e)) => parse_decimal(s, v, e),
        None => None,
    }
}

/// The positions of the fields of `s` between commas.
pub fn split_commas(s: &Vec<char>) -> (r: Vec<(usize, usize)>)
    ensures
        r@.len() == field_bounds(s@).len(),
        forall|k: int|
            0 <= k < r@.len() ==> (#[trigger] r@[k]).0 as int == field_bounds(s@)[k].0 && r@[k].1
                as int == field_bounds(s@)[k].1,
        forall|k: int| 0 <= k < r@.len() ==> (#[trigger] r@[k]).0 <= r@[k].1 <= s@.len(),
{
    let mut r: Vec<(usize, usize)> = Vec::new();
    r.push((0, 0));
    let mut i: usize = 0;
    while i < s.len()
        invariant
            i <= s@.len(),
            r@.len() == field_bounds(s@.subrange(0, i as int)).len(),
            r@.len() >= 1,
            forall|k: int|
                0 <= k < r@.len() ==> (#[trigger] r@[k]).0 as int == field_bounds(
                    s@.subrange(0, i as int),
                )[k].0 && r@[k].1 as int == field_bounds(s@.subrange(0, i as int))[k].1,
            forall|k: int| 0 <= k < r@.len() ==> (#[trigger] r@[k]).0 <= r@[k].1 <= i,
        decreases s@.len() - i,
    {
        let ghost before = s@.subrange(0, i as int);
        let ghost after = s@.subrange(0, i as int + 1);
        proof {
            assert(after.drop_last() =~= before);
            assert(after.last() == s@[i as int]);
        }
        if s[i] == ',' {
            r.push((i + 1, i + 1));
        } else {
            let last = r.len() - 1;
            let start = r[last].0;
            r.set(last, (start, i + 1));
        }
        i = i + 1;
    }
    assert(s@.subrange(0, s@.len() as int) =~= s@);
    r
}

/// The value of `t` when the whole of it is one number that fits.
pub fn number_value_exec(t: &Vec<char>) -> (r: Option<Ratio>)
    ensures
        r == number_value(t@),
{
    if t.len() == 0 {
        return None;
    }
    let e = end_of_number(t, 0);
    if e != t.len() {
        return None;
    }
    proof {
        lemma_number_chars(t@, 0);
    }
    assert(t@.subrange(0, t@.len() as int) =~= t@);
    parse_decimal(t, 0, e)
}

/// The characters of `t` from position `from` on.
pub fn tail_chars(t: &Vec<char>, from: usize) -> (r: Vec<char>)
    requires
        from <= t@.len(),
    ensures
        r@ == t@.subrange(from as int, t@.len() as int),
{
    let mut r: Vec<char> = Vec::new();
    let mut i = from;
    while i < t.len()
        invariant
            from <= i <= t@.len(),
            r@ == t@.subrange(from as int, i as int),
        decreases t@.len() - i,
    {
        r.push(t[i]);
        i = i + 1;
    }
    r
}

/// The exact value of the number `s[from..to]`, written `digits [. digits]`, when it fits.
pub fn parse_decimal(s: &Vec<char>, from: usize, to: usize) -> (r: Option<Ratio>)
    requires
        from <= to <= s@.len(),
        numeric_chars(s@.subrange(from as int, to as int)),
    ensures
        r == decimal_ratio(s@.subrange(from as int, to as int)),
{
    let ghost t = s@.subrange(from as int, to as int);
    let mut num: u64 = 0;
    let mut den: u64 = 1;
    let mut dot = false;
    let ghost mut k: nat = 0;
    let mut i = from;
    while i < to
        invariant
            from <= i <= to <= s@.len(),
            t == s@.subrange(from as int, to as int),
            numeric_chars(t),
            decimal_fold(t.subrange(0, i - from)) == (num as int, k, dot),
            pow10(k) == den as int,
        decreases to - i,
    {
        let ghost before = t.subrange(0, i - from);
        let ghost after = t.subrange(0, i - from + 1);
        proof {
            assert(after.drop_last() =~= before);
            assert(after.last() == s@[i as int]);
            lemma_decimal_fold_grows(t, i - from + 1);
        }
        let c = s[i];
        if c == '.' {
            dot = true;
        } else {
            let d = (c as u32 - '0' as u32) as u64;
            if num > (u64::MAX - d) / 10 {
                proof {
                    assert(decimal_fold(after).0 > u64::MAX);
                }
                return None;
            }
            num = num * 10 + d;
            if dot {
                if den > u64::MAX / 10 {
                    proof {
                        assert(pow10(decimal_fold(after).1) > u64::MAX);
                        lemma_pow10_monotone(decimal_fold(after).1, decimal_fold(t).1);
                    }
                    return None;
                }
                den = den * 10;
                proof {
                    k = k + 1;
                }
            }
        }
        i = i + 1;
    }
    proof {
        assert(t.subrange(0, to - from) =~= t);
    }
    Some(Ratio { num, den })
}

} // verus!

//! Character-level text handling: whitespace trimming, comma splitting and
//! unsigned decimal numbers, each stated over `Seq<char>` and implemented on
//! a `Vec<char>` with index ranges.
use vstd::prelude::*;

verus! {

broadcast use vstd::string::group_string_axioms;

/// A character with the Unicode `White_Space` property (the set that
/// `char::is_whitespace` and `str::trim` use).
pub open spec fn is_white_space(c: char) -> bool {
    let u = c as u32;
    (0x9 <= u && u <= 0xd) || u == 0x20 || u == 0x85 || u == 0xa0 || u == 0x1680 || (0x2000 <= u
        && u <= 0x200a) || u == 0x2028 || u == 0x2029 || u == 0x202f || u == 0x205f || u == 0x3000
}

/// `s` without its leading white space.
pub open spec fn trim_start(s: Seq<char>) -> Seq<char>
    decreases s.len(),
{
    if s.len() > 0 && is_white_space(s[0]) {
        trim_start(s.drop_first())
    } else {
        s
    }
}

/// `s` without its trailing white space.
pub open spec fn trim_end(s: Seq<char>) -> Seq<char>
    decreases s.len(),
{
    if s.len() > 0 && is_white_space(s.last()) {
        trim_end(s.drop_last())
    } else {
        s
    }
}

/// `s` without white space at either end.
pub open spec fn trim(s: Seq<char>) -> Seq<char> {
    trim_end(trim_start(s))
}

/// `s` without the closing parentheses at its end.
pub open spec fn strip_close_parens(s: Seq<char>) -> Seq<char>
    decreases s.len(),
{
    if s.len() > 0 && s.last() == ')' {
        strip_close_parens(s.drop_last())
    } else {
        s
    }
}

/// The pieces of `s` between commas, empty pieces included; there is always
/// at least one piece.
pub open spec fn split_commas(s: Seq<char>) -> Seq<Seq<char>>
    decreases s.len(),
{
    if s.len() == 0 {
        seq![Seq::empty()]
    } else {
        let parts = split_commas(s.drop_last());
        if s.last() == ',' {
            parts.push(Seq::empty())
        } else {
            parts.update(parts.len() - 1, parts.last().push(s.last()))
        }
    }
}

/// An ASCII decimal digit.
pub open spec fn is_digit(c: char) -> bool {
    48 <= (c as u32) && (c as u32) <= 57
}

pub open spec fn digit_value(c: char) -> int {
    (c as u32) - 48
}

pub open spec fn all_digits(s: Seq<char>) -> bool {
    forall|i: int| 0 <= i < s.len() ==> is_digit(#[trigger] s[i])
}

/// The number that the decimal digits `s` write.
pub open spec fn decimal_value(s: Seq<char>) -> int
    decreases s.len(),
{
    if s.len() == 0 {
        0
    } else {
        10 * decimal_value(s.drop_last()) + digit_value(s.last())
    }
}

/// The digits of an unsigned number: `s` without one leading `+`.
pub open spec fn unsigned_digits(s: Seq<char>) -> Seq<char> {
    if s.len() > 0 && s[0] == '+' {
        s.drop_first()
    } else {
        s
    }
}

/// The value of `s` read as an unsigned decimal number no greater than
/// `max`: an optional `+` followed by at least one ASCII digit, nothing else.
pub open spec fn parse_unsigned(s: Seq<char>, max: int) -> Option<int> {
    let d = unsigned_digits(s);
    if d.len() > 0 && all_digits(d) && decimal_value(d) <= max {
        Some(decimal_value(d))
    } else {
        None
    }
}

/// The character of the decimal digit `d`.
pub open spec fn digit_char(d: int) -> char {
    if d == 0 {
        '0'
    } else if d == 1 {
        '1'
    } else if d == 2 {
        '2'
    } else if d == 3 {
        '3'
    } else if d == 4 {
        '4'
    } else if d == 5 {
        '5'
    } else if d == 6 {
        '6'
    } else if d == 7 {
        '7'
    } else if d == 8 {
        '8'
    } else {
        '9'
    }
}

/// The shortest decimal text of `n`.
pub open spec fn decimal_text(n: nat) -> Seq<char>
    decreases n,
{
    if n < 10 {
        seq![digit_char(n as int)]
    } else {
        decimal_text(n / 10).push(digit_char((n % 10) as int))
    }
}

pub proof fn lemma_decimal_value_nonneg(s: Seq<char>)
    requires
        all_digits(s),
    ensures
        decimal_value(s) >= 0,
    decreases s.len(),
{
    if s.len() > 0 {
        lemma_decimal_value_nonneg(s.drop_last());
    }
}

/// A prefix of a string of digits never writes a larger number.
pub proof fn lemma_decimal_prefix_le(s: Seq<char>, k: int)
    requires
        all_digits(s),
        0 <= k <= s.len(),
    ensures
        decimal_value(s.take(k)) <= decimal_value(s),
    decreases s.len(),
{
    if k < s.len() {
        let t = s.drop_last();
        assert(t.take(k) =~= s.take(k));
        lemma_decimal_prefix_le(t, k);
        lemma_decimal_value_nonneg(t);
    } else {
        assert(s.take(k) =~= s);
    }
}

pub proof fn lemma_digit_char(d: int)
    requires
        0 <= d < 10,
    ensures
        is_digit(digit_char(d)),
        digit_value(digit_char(d)) == d,
        digit_char(d) != ',',
        digit_char(d) != ')',
        digit_char(d) != '+',
        !is_white_space(digit_char(d)),
{
}

/// The decimal text of a number is a string of digits that writes it.
pub proof fn lemma_decimal_text(n: nat)
    ensures
        decimal_text(n).len() > 0,
        all_digits(decimal_text(n)),
        decimal_value(decimal_text(n)) == n,
    decreases n,
{
    if n < 10 {
        let s = decimal_text(n);
        lemma_digit_char(n as int);
        assert(decimal_value(s) == 10 * decimal_value(s.drop_last()) + digit_value(s.last()));
    } else {
        lemma_decimal_text(n / 10);
        lemma_digit_char((n % 10) as int);
        let s = decimal_text(n);
        assert(s.drop_last() =~= decimal_text(n / 10));
        assert(n == 10 * (n / 10) + n % 10) by (nonlinear_arith);
    }
}

/// Appending a piece that holds no comma extends the last piece.
pub proof fn lemma_split_extend(p: Seq<char>, q: Seq<char>)
    requires
        forall|i: int| 0 <= i < q.len() ==> q[i] != ',',
    ensures
        split_commas(p).len() >= 1,
        split_commas(p + q) == split_commas(p).update(
            split_commas(p).len() - 1,
            split_commas(p).last() + q,
        ),
    decreases q.len(),
{
    lemma_split_len(p);
    if q.len() == 0 {
        assert(split_commas(p).update(split_commas(p).len() - 1, split_commas(p).last())
            =~= split_commas(p));
    } else {
        let q0 = q.drop_last();
        lemma_split_extend(p, q0);
        let last = split_commas(p).last();
        assert((p + q).drop_last() =~= p + q0);
        assert((last + q0).push(q.last()) =~= last + q);
    }
}

/// There is always at least one piece.
pub proof fn lemma_split_len(s: Seq<char>)
    ensures
        split_commas(s).len() >= 1,
    decreases s.len(),
{
    if s.len() > 0 {
        lemma_split_len(s.drop_last());
    }
}

/// Appending a comma starts a new, empty piece.
pub proof fn lemma_split_comma(p: Seq<char>)
    ensures
        split_commas(p + seq![',']) == split_commas(p).push(Seq::empty()),
{
    assert((p + seq![',']).drop_last() =~= p);
}

/// One leading `+` does not change the number a text writes.
pub proof fn lemma_plus_sign_ignored(d: Seq<char>, max: int)
    requires
        d.len() > 0,
        d[0] != '+',
    ensures
        parse_unsigned(seq!['+'] + d, max) == parse_unsigned(d, max),
{
    assert((seq!['+'] + d).drop_first() =~= d);
}

/// Every number no greater than `max` is read back from its decimal text,
/// and no larger one is.
pub proof fn lemma_decimal_text_parses(n: nat, max: int)
    ensures
        parse_unsigned(decimal_text(n), max) == (if n <= max {
            Some(n as int)
        } else {
            None
        }),
{
    lemma_decimal_text(n);
    let d = decimal_text(n);
    assert(is_digit(d[0]));
}

/// How many commas `s` holds.
pub open spec fn comma_count(s: Seq<char>) -> nat
    decreases s.len(),
{
    if s.len() == 0 {
        0
    } else if s.last() == ',' {
        comma_count(s.drop_last()) + 1
    } else {
        comma_count(s.drop_last())
    }
}

/// A text splits into one piece more than it has commas.
pub proof fn lemma_split_count(s: Seq<char>)
    ensures
        split_commas(s).len() == comma_count(s) + 1,
    decreases s.len(),
{
    if s.len() > 0 {
        lemma_split_count(s.drop_last());
    }
}

/// Stripping closing parentheses keeps every comma.
pub proof fn lemma_strip_keeps_commas(s: Seq<char>)
    ensures
        comma_count(strip_close_parens(s)) == comma_count(s),
    decreases s.len(),
{
    if s.len() > 0 && s.last() == ')' {
        lemma_strip_keeps_commas(s.drop_last());
    }
}

/// Every character of `w` is white space.
pub open spec fn all_white(w: Seq<char>) -> bool {
    forall|i: int| 0 <= i < w.len() ==> is_white_space(#[trigger] w[i])
}

/// Trimming removes exactly the white space around a text that neither
/// begins nor ends with white space.
pub proof fn lemma_trim_padding(w1: Seq<char>, x: Seq<char>, w2: Seq<char>)
    requires
        all_white(w1),
        all_white(w2),
        x.len() > 0,
        !is_white_space(x[0]),
        !is_white_space(x.last()),
    ensures
        trim(w1 + x + w2) == x,
{
    lemma_trim_start_white(w1, x + w2);
    assert(w1 + x + w2 =~= w1 + (x + w2));
    lemma_trim_end_white(x, w2);
}

proof fn lemma_trim_start_white(w: Seq<char>, y: Seq<char>)
    requires
        all_white(w),
        y.len() > 0,
        !is_white_space(y[0]),
    ensures
        trim_start(w + y) == y,
    decreases w.len(),
{
    if w.len() == 0 {
        assert(w + y =~= y);
    } else {
        assert((w + y).drop_first() =~= w.drop_first() + y);
        assert(is_white_space(w[0]));
        lemma_trim_start_white(w.drop_first(), y);
    }
}

proof fn lemma_trim_end_white(y: Seq<char>, w: Seq<char>)
    requires
        all_white(w),
        y.len() > 0,
        !is_white_space(y.last()),
    ensures
        trim_end(y + w) == y,
    decreases w.len(),
{
    if w.len() == 0 {
        assert(y + w =~= y);
    } else {
        assert((y + w).drop_last() =~= y + w.drop_last());
        assert(is_white_space(w[w.len() - 1]));
        lemma_trim_end_white(y, w.drop_last());
    }
}

/// The characters of `s`, in order.
pub fn chars_of(s: &str) -> (v: Vec<char>)
    ensures
        v@ == s@,
{
    let mut v: Vec<char> = Vec::new();
    for c in it: s.chars()
        invariant
            it.seq() == s@,
            v@ == it.seq().take(it.index()),
    {
        v.push(c);
    }
    v
}

/// Whether `a` holds exactly the characters `b` holds.
pub fn same_chars(a: &Vec<char>, b: &Vec<char>) -> (res: bool)
    ensures
        res == (a@ == b@),
{
    if a.len() != b.len() {
        return false;
    }
    let n = a.len();
    for i in 0..n
        invariant
            n == a.len(),
            n == b.len(),
            forall|j: int| 0 <= j < i ==> a@[j] == b@[j],
    {
        if a[i] != b[i] {
            return false;
        }
    }
    assert(a@ =~= b@);
    true
}

/// Whether `a` spells the literal `lit`.
pub fn is_text(a: &Vec<char>, lit: &str) -> (res: bool)
    ensures
        res == (a@ == lit@),
{
    let b = chars_of(lit);
    same_chars(a, &b)
}

/// Whether `a` begins with the literal `lit`.
pub fn begins_with(a: &Vec<char>, lit: &str) -> (res: bool)
    ensures
        res == lit@.is_prefix_of(a@),
{
    let b = chars_of(lit);
    if b.len() > a.len() {
        return false;
    }
    let n = b.len();
    for i in 0..n
        invariant
            n == b.len(),
            n <= a.len(),
            b@ == lit@,
            forall|j: int| 0 <= j < i ==> a@[j] == b@[j],
    {
        if a[i] != b[i] {
            return false;
        }
    }
    true
}

/// Whether `c` is white space.
pub fn is_white_space_char(c: char) -> (res: bool)
    ensures
        res == is_white_space(c),
{
    let u = c as u32;
    (0x9 <= u && u <= 0xd) || u == 0x20 || u == 0x85 || u == 0xa0 || u == 0x1680 || (0x2000 <= u
        && u <= 0x200a) || u == 0x2028 || u == 0x2029 || u == 0x202f || u == 0x205f || u == 0x3000
}

/// The bounds of `v[lo..hi]` with the white space at both ends left out.
pub fn trim_range(v: &Vec<char>, lo: usize, hi: usize) -> (res: (usize, usize))
    requires
        lo <= hi <= v.len(),
    ensures
        lo <= res.0 <= res.1 <= hi,
        v@.subrange(res.0 as int, res.1 as int) == trim(v@.subrange(lo as int, hi as int)),
{
    let mut i = lo;
    while i < hi && is_white_space_char(v[i])
        invariant
            lo <= i <= hi <= v.len(),
            trim_start(v@.subrange(lo as int, hi as int)) == trim_start(
                v@.subrange(i as int, hi as int),
            ),
        decreases hi - i,
    {
        assert(v@.subrange(i as int, hi as int).drop_first() =~= v@.subrange(
            i + 1,
            hi as int,
        ));
        i = i + 1;
    }
    let mut j = hi;
    while j > i && is_white_space_char(v[j - 1])
        invariant
            lo <= i <= j <= hi <= v.len(),
            trim_start(v@.subrange(lo as int, hi as int)) == v@.subrange(i as int, hi as int),
            trim_end(v@.subrange(i as int, hi as int)) == trim_end(
                v@.subrange(i as int, j as int),
            ),
        decreases j - i,
    {
        assert(v@.subrange(i as int, j as int).drop_last() =~= v@.subrange(
            i as int,
            j - 1,
        ));
        j = j - 1;
    }
    (i, j)
}

/// The length of `v[..end]` without the closing parentheses at its end.
pub fn strip_close_parens_len(v: &Vec<char>) -> (end: usize)
    ensures
        end <= v.len(),
        v@.take(end as int) == strip_close_parens(v@),
{
    let mut end = v.len();
    assert(v@.take(end as int) =~= v@);
    while end > 0 && v[end - 1] == ')'
        invariant
            end <= v.len(),
            strip_close_parens(v@) == strip_close_parens(v@.take(end as int)),
        decreases end,
    {
        assert(v@.take(end as int).drop_last() =~= v@.take(end - 1));
        end = end - 1;
    }
    end
}

/// Each span `spans[k]` bounds, within `v[..bound]`, the characters of `parts[k]`.
pub open spec fn spans_hold(
    v: Seq<char>,
    spans: Seq<(usize, usize)>,
    parts: Seq<Seq<char>>,
    bound: int,
) -> bool {
    &&& spans.len() <= parts.len()
    &&& forall|k: int|
        #![trigger spans[k]]
        0 <= k < spans.len() ==> spans[k].0 <= spans[k].1 <= bound && v.subrange(
            spans[k].0 as int,
            spans[k].1 as int,
        ) == parts[k]
}

/// Splitting one more character: a comma starts a new piece, any other
/// character extends the last one.
pub proof fn lemma_split_push(s: Seq<char>, c: char)
    ensures
        split_commas(s).len() >= 1,
        split_commas(s.push(c)) == (if c == ',' {
            split_commas(s).push(Seq::empty())
        } else {
            split_commas(s).update(
                split_commas(s).len() - 1,
                split_commas(s).last().push(c),
            )
        }),
{
    lemma_split_len(s);
    assert(s.push(c).drop_last() =~= s);
}

/// The bounds of the comma-separated pieces of `v[..end]`.
pub fn comma_ranges(v: &Vec<char>, end: usize) -> (res: Vec<(usize, usize)>)
    requires
        end <= v.len(),
    ensures
        res.len() == split_commas(v@.take(end as int)).len(),
        spans_hold(v@, res@, split_commas(v@.take(end as int)), end as int),
{
    let mut res: Vec<(usize, usize)> = Vec::new();
    let mut start: usize = 0;
    for i in 0..end
        invariant
            end <= v.len(),
            start <= i,
            split_commas(v@.take(i as int)).len() == res.len() + 1,
            spans_hold(v@, res@, split_commas(v@.take(i as int)), i as int),
            split_commas(v@.take(i as int)).last() == v@.subrange(start as int, i as int),
    {
        let ghost parts = split_commas(v@.take(i as int));
        proof {
            lemma_split_push(v@.take(i as int), v@[i as int]);
            assert(v@.take(i as int).push(v@[i as int]) =~= v@.take(i + 1));
        }
        let ghost next_parts = split_commas(v@.take(i + 1));
        if v[i] == ',' {
            res.push((start, i));
            start = i + 1;
        } else {
            assert(next_parts == parts.update(
                parts.len() - 1,
                parts.last().push(v@[i as int]),
            ));
            assert(v@.subrange(start as int, i + 1) =~= v@.subrange(start as int, i as int).push(
                v@[i as int],
            ));
        }
    }
    res.push((start, end));
    res
}

/// The unsigned decimal number written by `v[lo..hi]`, if it is one no
/// greater than `max`.
pub fn parse_unsigned_range(v: &Vec<char>, lo: usize, hi: usize, max: usize) -> (res: Option<
    usize,
>)
    requires
        lo <= hi <= v.len(),
    ensures
        match res {
            Some(n) => parse_unsigned(v@.subrange(lo as int, hi as int), max as int) == Some(
                n as int,
            ),
            None => parse_unsigned(v@.subrange(lo as int, hi as int), max as int) is None,
        },
{
    let ghost s = v@.subrange(lo as int, hi as int);
    let mut start = lo;
    if start < hi && v[start] == '+' {
        start = start + 1;
    }
    let ghost d = v@.subrange(start as int, hi as int);
    if start == hi {
        return None;
    }
    let mut acc: usize = 0;
    for i in start..hi
        invariant
            lo <= start < hi <= v.len(),
            s == v@.subrange(lo as int, hi as int),
            d == v@.subrange(start as int, hi as int),
            unsigned_digits(s) == d,
            all_digits(d.take(i - start)),
            acc as int == decimal_value(d.take(i - start)),
            acc <= max,
    {
        let c = v[i];
        let k: Ghost<int> = Ghost(i - start);
        if !(48 <= (c as u32) && (c as u32) <= 57) {
            assert(!all_digits(d)) by {
                assert(!is_digit(d[k@]));
            }
            return None;
        }
        let next: u128 = (acc as u128) * 10 + ((c as u32) - 48) as u128;
        assert(d.take(k@ + 1).drop_last() =~= d.take(k@));
        if next > max as u128 {
            proof {
                if all_digits(d) {
                    lemma_decimal_prefix_le(d, k@ + 1);
                }
            }
            return None;
        }
        acc = next as usize;
    }
    assert(d.take(hi - start) =~= d);
    Some(acc)
}

} // verus!

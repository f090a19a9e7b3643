//! Decimal numbers and whitespace in the contents of attribute files.
use vstd::prelude::*;
use vstd::string::*;

verus! {

/// The byte is one of the ASCII whitespace characters: tab, line feed,
/// vertical tab, form feed, carriage return or space.
pub open spec fn is_space(b: u8) -> bool {
    b == 9 || b == 10 || b == 11 || b == 12 || b == 13 || b == 32
}

/// The byte is an ASCII decimal digit.
pub open spec fn is_digit(b: u8) -> bool {
    48 <= b <= 57
}

/// Every byte is a decimal digit.
pub open spec fn all_digits(s: Seq<u8>) -> bool {
    forall|i: int| 0 <= i < s.len() ==> is_digit(#[trigger] s[i])
}

/// The number that a sequence of decimal digits denotes, most significant
/// digit first. The empty sequence denotes zero.
pub open spec fn digits_value(s: Seq<u8>) -> nat
    decreases s.len(),
{
    if s.len() == 0 {
        0
    } else {
        digits_value(s.drop_last()) * 10 + (s.last() - 48) as nat
    }
}

/// The decimal digits of a number, without leading zeros.
pub open spec fn decimal(n: nat) -> Seq<u8>
    decreases n,
{
    if n < 10 {
        seq![(48 + n) as u8]
    } else {
        decimal(n / 10).push((48 + n % 10) as u8)
    }
}

/// What an unsigned decimal number denotes: an optional `+`, then one or more
/// digits. `None` where the text has another shape.
pub open spec fn unsigned_value(s: Seq<u8>) -> Option<nat> {
    let body = if s.len() > 0 && s[0] == 43 {
        s.drop_first()
    } else {
        s
    };
    if body.len() > 0 && all_digits(body) {
        Some(digits_value(body))
    } else {
        None
    }
}

/// What a signed decimal number denotes: an optional `+` or `-`, then one or
/// more digits. `None` where the text has another shape.
pub open spec fn signed_value(s: Seq<u8>) -> Option<int> {
    if s.len() > 0 && s[0] == 45 {
        let body = s.drop_first();
        if body.len() > 0 && all_digits(body) {
            Some(-(digits_value(body) as int))
        } else {
            None
        }
    } else {
        match unsigned_value(s) {
            Some(v) => Some(v as int),
            None => None,
        }
    }
}

/// The decimal text of a signed number: a `-` before the digits of a
/// negative one.
pub open spec fn signed_decimal(n: int) -> Seq<u8> {
    if n < 0 {
        seq![45u8] + decimal((-n) as nat)
    } else {
        decimal(n as nat)
    }
}

/// The digits of a number are digits, and there is at least one.
pub proof fn lemma_decimal_digits(n: nat)
    ensures
        decimal(n).len() > 0,
        all_digits(decimal(n)),
        !is_space(decimal(n)[0]),
        !is_space(decimal(n).last()),
        decimal(n)[0] != 43,
        decimal(n)[0] != 45,
    decreases n,
{
    if n >= 10 {
        lemma_decimal_digits(n / 10);
        let d = decimal(n / 10);
        let last = (48 + n % 10) as u8;
        assert forall|i: int| 0 <= i < decimal(n).len() implies is_digit(
            #[trigger] decimal(n)[i],
        ) by {
            if i < d.len() {
                assert(decimal(n)[i] == d[i]);
            }
        }
        assert(decimal(n)[0] == d[0]);
    }
}

/// A number is what its digits denote.
pub proof fn lemma_decimal_value(n: nat)
    ensures
        digits_value(decimal(n)) == n,
    decreases n,
{
    if n < 10 {
        let s = decimal(n);
        assert(s.drop_last().len() == 0);
        assert(digits_value(s.drop_last()) == 0);
    } else {
        lemma_decimal_value(n / 10);
        let d = decimal(n / 10);
        let s = decimal(n);
        assert(s.drop_last() =~= d);
    }
}

/// Reading back the decimal text of a number gives the number.
pub proof fn lemma_unsigned_round_trip(n: nat)
    ensures
        unsigned_value(decimal(n)) == Some(n),
{
    lemma_decimal_digits(n);
    lemma_decimal_value(n);
}

/// Reading back the decimal text of a signed number gives the number.
pub proof fn lemma_signed_round_trip(n: int)
    ensures
        signed_value(signed_decimal(n)) == Some(n),
{
    if n < 0 {
        let m = (-n) as nat;
        lemma_decimal_digits(m);
        lemma_decimal_value(m);
        let s = signed_decimal(n);
        assert(s.drop_first() =~= decimal(m));
    } else {
        lemma_unsigned_round_trip(n as nat);
        lemma_decimal_digits(n as nat);
    }
}

/// Dropping the last digit divides the value by ten.
proof fn lemma_digits_value_push(s: Seq<u8>, b: u8)
    ensures
        digits_value(s.push(b)) == digits_value(s) * 10 + (b - 48) as nat,
{
    assert(s.push(b).drop_last() =~= s);
}

/// A longer prefix of digits never denotes less.
proof fn lemma_digits_value_monotone(s: Seq<u8>, k: int)
    requires
        all_digits(s),
        0 <= k <= s.len(),
    ensures
        digits_value(s.take(k)) <= digits_value(s),
    decreases s.len() - k,
{
    if k == s.len() {
        assert(s.take(k) =~= s);
    } else {
        lemma_digits_value_monotone(s, k + 1);
        assert(s.take(k + 1).drop_last() =~= s.take(k));
        assert(s.take(k + 1).last() == s[k]);
        assert(is_digit(s[k]));
    }
}

/// Whether a byte is ASCII whitespace.
pub fn byte_is_space(b: u8) -> (r: bool)
    ensures
        r == is_space(b),
{
    b == 9 || b == 10 || b == 11 || b == 12 || b == 13 || b == 32
}

/// The decimal digits of `n`.
pub fn render_decimal(n: u128) -> (out: Vec<u8>)
    ensures
        out@ == decimal(n as nat),
{
    // Least significant digit first, then turned round.
    let mut rev: Vec<u8> = Vec::new();
    let mut rest: u128 = n;
    let ghost mut tail: Seq<u8> = Seq::empty();
    rev.push((48 + rest % 10) as u8);
    proof {
        tail = seq![(48 + n % 10) as u8];
    }
    rest = rest / 10;
    while rest > 0
        invariant
            rev@.len() == tail.len(),
            rev@.len() > 0,
            forall|i: int| 0 <= i < tail.len() ==> tail[i] == #[trigger] rev@[tail.len() - 1 - i],
            rest > 0 ==> decimal(n as nat) == decimal(rest as nat) + tail,
            rest == 0 ==> decimal(n as nat) == tail,
        decreases rest,
    {
        let digit: u8 = (48 + rest % 10) as u8;
        proof {
            let before = tail;
            tail = seq![digit] + tail;
            if rest >= 10 {
                assert(decimal(rest as nat) == decimal((rest / 10) as nat).push(digit));
                assert(decimal((rest / 10) as nat).push(digit) + before =~= decimal(
                    (rest / 10) as nat,
                ) + tail);
            } else {
                assert(decimal(rest as nat) =~= seq![digit]);
                assert(decimal(rest as nat) + before =~= tail);
            }
            assert forall|i: int| 0 <= i < tail.len() implies tail[i] == #[trigger] rev@.push(
                digit,
            )[tail.len() - 1 - i] by {
                if i > 0 {
                    assert(tail[i] == before[i - 1]);
                    assert(before[i - 1] == rev@[before.len() - 1 - (i - 1)]);
                }
            }
        }
        rev.push(digit);
        rest = rest / 10;
    }
    let mut out: Vec<u8> = Vec::new();
    let mut k: usize = rev.len();
    while k > 0
        invariant
            k <= rev@.len(),
            rev@.len() == tail.len(),
            out@.len() == rev@.len() - k,
            forall|i: int| 0 <= i < tail.len() ==> tail[i] == #[trigger] rev@[tail.len() - 1 - i],
            forall|i: int| 0 <= i < out@.len() ==> out@[i] == tail[i],
        decreases k,
    {
        k = k - 1;
        let ghost i = out@.len() as int;
        assert(tail[i] == rev@[tail.len() - 1 - i]);
        out.push(rev[k]);
    }
    assert(out@ =~= tail);
    out
}

/// The decimal text of a signed number.
pub fn render_signed(n: i64) -> (out: Vec<u8>)
    ensures
        out@ == signed_decimal(n as int),
{
    if n < 0 {
        let magnitude: u128 = (-(n as i128)) as u128;
        let digits = render_decimal(magnitude);
        let mut out: Vec<u8> = Vec::new();
        out.push(45u8);
        let mut i: usize = 0;
        while i < digits.len()
            invariant
                i <= digits@.len(),
                out@ == seq![45u8] + digits@.take(i as int),
            decreases digits@.len() - i,
        {
            out.push(digits[i]);
            i = i + 1;
            assert(out@ =~= seq![45u8] + digits@.take(i as int));
        }
        assert(digits@.take(i as int) =~= digits@);
        out
    } else {
        render_decimal(n as u128)
    }
}

/// Reads an unsigned decimal number that is at most `max`.
///
/// Returns the number where `text` is an optional `+` and then one or more
/// digits that denote at most `max`, and `None` for every other text.
pub fn parse_unsigned(text: &[u8], max: u128) -> (r: Option<u128>)
    ensures
        r == match unsigned_value(text@) {
            Some(v) => if v <= max {
                Some(v as u128)
            } else {
                None
            },
            None => None,
        },
{
    let n: usize = text.len();
    let start: usize = if n > 0 && text[0] == 43 {
        1
    } else {
        0
    };
    let ghost body = if start == 1 {
        text@.drop_first()
    } else {
        text@
    };
    assert(body =~= text@.subrange(start as int, n as int));
    if start == n {
        return None;
    }
    let mut value: u128 = 0;
    let mut i: usize = start;
    while i < n
        invariant
            start <= i <= n,
            n == text@.len(),
            body == text@.subrange(start as int, n as int),
            body == if text@.len() > 0 && text@[0] == 43 {
                text@.drop_first()
            } else {
                text@
            },
            all_digits(body.take(i - start)),
            value == digits_value(body.take(i - start)),
            value <= max,
        decreases n - i,
    {
        let b: u8 = text[i];
        assert(body[i - start] == b);
        if b < 48 || b > 57 {
            assert(!all_digits(body));
            return None;
        }
        let digit: u128 = (b - 48) as u128;
        let ghost next = body.take(i - start + 1);
        proof {
            assert(next =~= body.take(i - start).push(b));
            lemma_digits_value_push(body.take(i - start), b);
            assert forall|j: int| 0 <= j < next.len() implies is_digit(#[trigger] next[j]) by {
                if j < i - start {
                    assert(next[j] == body.take(i - start)[j]);
                }
            }
        }
        if digit > max || value > (max - digit) / 10 {
            proof {
                // The value of the prefix already exceeds the bound, and so
                // does that of the whole, if it is a number at all.
                assert(digits_value(next) > max) by (nonlinear_arith)
                    requires
                        digits_value(next) == value * 10 + digit,
                        digit > max || value > (max - digit) / 10,
                        digit <= 9,
                ;
                if all_digits(body) {
                    lemma_digits_value_monotone(body, i - start + 1);
                }
            }
            return None;
        }
        assert(value * 10 + digit <= max) by (nonlinear_arith)
            requires
                value <= (max - digit) / 10,
                digit <= max,
        ;
        value = value * 10 + digit;
        i = i + 1;
    }
    assert(body.take(n - start) =~= body);
    Some(value)
}

/// Reads an unsigned decimal number into a `u64`.
pub fn parse_u64(text: &[u8]) -> (r: Option<u64>)
    ensures
        r == match unsigned_value(text@) {
            Some(v) => if v <= u64::MAX {
                Some(v as u64)
            } else {
                None
            },
            None => None,
        },
{
    match parse_unsigned(text, u64::MAX as u128) {
        Some(v) => Some(v as u64),
        None => None,
    }
}

/// Reads an unsigned decimal number into a `usize`.
pub fn parse_usize(text: &[u8]) -> (r: Option<usize>)
    ensures
        r == match unsigned_value(text@) {
            Some(v) => if v <= usize::MAX {
                Some(v as usize)
            } else {
                None
            },
            None => None,
        },
{
    match parse_unsigned(text, usize::MAX as u128) {
        Some(v) => Some(v as usize),
        None => None,
    }
}

/// Reads a signed decimal number into an `i32`.
pub fn parse_i32(text: &[u8]) -> (r: Option<i32>)
    ensures
        r == match signed_value(text@) {
            Some(v) => if i32::MIN <= v <= i32::MAX {
                Some(v as i32)
            } else {
                None
            },
            None => None,
        },
{
    if text.len() > 0 && text[0] == 45 {
        let mut body: Vec<u8> = Vec::new();
        let mut i: usize = 1;
        while i < text.len()
            invariant
                1 <= i <= text@.len(),
                body@ == text@.subrange(1, i as int),
            decreases text@.len() - i,
        {
            body.push(text[i]);
            i = i + 1;
            assert(body@ =~= text@.subrange(1, i as int));
        }
        assert(body@ =~= text@.drop_first());
        if body.len() == 0 || body[0] == 43 {
            assert(body@.len() > 0 ==> !is_digit(body@[0]));
            return None;
        }
        match parse_unsigned(body.as_slice(), 2147483648u128) {
            Some(v) => Some((-(v as i64)) as i32),
            None => None,
        }
    } else {
        match parse_unsigned(text, 2147483647u128) {
            Some(v) => Some(v as i32),
            None => None,
        }
    }
}

/// How many whitespace bytes stand at the start of `s`.
pub open spec fn leading_spaces(s: Seq<u8>) -> nat
    decreases s.len(),
{
    if s.len() > 0 && is_space(s[0]) {
        1 + leading_spaces(s.drop_first())
    } else {
        0
    }
}

/// How many whitespace bytes stand at the end of `s`.
pub open spec fn trailing_spaces(s: Seq<u8>) -> nat
    decreases s.len(),
{
    if s.len() > 0 && is_space(s.last()) {
        1 + trailing_spaces(s.drop_last())
    } else {
        0
    }
}

/// `s` without the whitespace at its start and at its end.
pub open spec fn trimmed(s: Seq<u8>) -> Seq<u8> {
    let rest = s.skip(leading_spaces(s) as int);
    rest.take(rest.len() - trailing_spaces(rest))
}

/// The views of a vector of byte vectors.
pub open spec fn views(v: Seq<Vec<u8>>) -> Seq<Seq<u8>> {
    Seq::new(v.len(), |i: int| v[i]@)
}

/// Where the run of bytes that are not whitespace and that holds position `i`
/// ends: the first position from `i` on that holds whitespace, or the length.
pub open spec fn word_end(s: Seq<u8>, i: int) -> int
    decreases s.len() - i,
{
    if 0 <= i < s.len() && !is_space(s[i]) {
        word_end(s, i + 1)
    } else {
        i
    }
}

/// The words of `s` from position `i` on: the maximal runs of bytes that are
/// not whitespace, in the order in which they stand. (A word ends behind
/// where it starts and within the text, so the last branch is never taken;
/// it is there to show that the recursion ends.)
pub open spec fn words_from(s: Seq<u8>, i: int) -> Seq<Seq<u8>>
    decreases s.len() - i,
{
    if i < 0 || i >= s.len() {
        Seq::empty()
    } else if is_space(s[i]) {
        words_from(s, i + 1)
    } else {
        let j = word_end(s, i + 1);
        if i < j <= s.len() {
            seq![s.subrange(i, j)] + words_from(s, j)
        } else {
            Seq::empty()
        }
    }
}

/// The words of `s`, separated by any amount of whitespace.
pub open spec fn words(s: Seq<u8>) -> Seq<Seq<u8>> {
    words_from(s, 0)
}

/// Where the line that holds position `i` ends: the first line feed from `i`
/// on, or the length.
pub open spec fn line_end(s: Seq<u8>, i: int) -> int
    decreases s.len() - i,
{
    if 0 <= i < s.len() && s[i] != 10 {
        line_end(s, i + 1)
    } else {
        i
    }
}

/// A line without the carriage return that stood before its line feed.
pub open spec fn strip_cr(line: Seq<u8>) -> Seq<u8> {
    if line.len() > 0 && line.last() == 13 {
        line.drop_last()
    } else {
        line
    }
}

/// The lines of `s` from position `i` on. A line ends with a line feed, or
/// with a carriage return and a line feed; the last line needs no ending,
/// and keeps a carriage return that it ends with.
pub open spec fn lines_from(s: Seq<u8>, i: int) -> Seq<Seq<u8>>
    decreases s.len() - i,
{
    if i < 0 || i >= s.len() {
        Seq::empty()
    } else {
        let j = line_end(s, i);
        if i <= j < s.len() {
            seq![strip_cr(s.subrange(i, j))] + lines_from(s, j + 1)
        } else {
            seq![s.subrange(i, s.len() as int)]
        }
    }
}

/// The lines of `s`.
pub open spec fn lines(s: Seq<u8>) -> Seq<Seq<u8>> {
    lines_from(s, 0)
}

/// The whitespace at the start of `s` is its first `i` bytes, where they are
/// whitespace and the next one is not.
pub proof fn lemma_leading_spaces(s: Seq<u8>, i: int)
    requires
        0 <= i <= s.len(),
        forall|j: int| 0 <= j < i ==> is_space(#[trigger] s[j]),
        i == s.len() || !is_space(s[i]),
    ensures
        leading_spaces(s) == i,
    decreases i,
{
    if i > 0 {
        let t = s.drop_first();
        assert(is_space(s[0]));
        assert forall|j: int| 0 <= j < i - 1 implies is_space(#[trigger] t[j]) by {
            assert(t[j] == s[j + 1]);
        }
        if i < s.len() {
            assert(t[i - 1] == s[i]);
        }
        lemma_leading_spaces(t, i - 1);
    }
}

/// The whitespace at the end of `s` is its last `k` bytes, where they are
/// whitespace and the one before them is not.
pub proof fn lemma_trailing_spaces(s: Seq<u8>, k: int)
    requires
        0 <= k <= s.len(),
        forall|j: int| s.len() - k <= j < s.len() ==> is_space(#[trigger] s[j]),
        k == s.len() || !is_space(s[s.len() - k - 1]),
    ensures
        trailing_spaces(s) == k,
    decreases k,
{
    if k > 0 {
        let t = s.drop_last();
        assert(is_space(s[s.len() - 1]));
        assert forall|j: int| t.len() - (k - 1) <= j < t.len() implies is_space(
            #[trigger] t[j],
        ) by {
            assert(t[j] == s[j]);
        }
        if k < s.len() {
            assert(t[t.len() - (k - 1) - 1] == s[s.len() - k - 1]);
        }
        lemma_trailing_spaces(t, k - 1);
    }
}

/// Whitespace around a text that neither starts nor ends with whitespace is
/// all that trimming takes away.
pub proof fn lemma_trimmed_padded(before: Seq<u8>, core: Seq<u8>, after: Seq<u8>)
    requires
        forall|j: int| 0 <= j < before.len() ==> is_space(#[trigger] before[j]),
        forall|j: int| 0 <= j < after.len() ==> is_space(#[trigger] after[j]),
        core.len() > 0,
        !is_space(core[0]),
        !is_space(core.last()),
    ensures
        trimmed(before + core + after) == core,
{
    let s = before + core + after;
    assert forall|j: int| 0 <= j < before.len() implies is_space(#[trigger] s[j]) by {
        assert(s[j] == before[j]);
    }
    assert(s[before.len() as int] == core[0]);
    lemma_leading_spaces(s, before.len() as int);
    let rest = s.skip(before.len() as int);
    assert(rest =~= core + after);
    assert forall|j: int| rest.len() - after.len() <= j < rest.len() implies is_space(
        #[trigger] rest[j],
    ) by {
        assert(rest[j] == after[j - core.len()]);
    }
    assert(rest[rest.len() - after.len() - 1] == core.last());
    lemma_trailing_spaces(rest, after.len() as int);
    assert(rest.take(rest.len() - after.len()) =~= core);
}

/// The whitespace at the start of a text: it is within the text, nothing
/// but whitespace, and what follows it is no whitespace.
pub proof fn lemma_leading_spaces_shape(s: Seq<u8>)
    ensures
        leading_spaces(s) <= s.len(),
        forall|j: int| 0 <= j < leading_spaces(s) ==> is_space(#[trigger] s[j]),
        leading_spaces(s) < s.len() ==> !is_space(s[leading_spaces(s) as int]),
    decreases s.len(),
{
    if s.len() > 0 && is_space(s[0]) {
        let t = s.drop_first();
        lemma_leading_spaces_shape(t);
        assert forall|j: int| 0 <= j < leading_spaces(s) implies is_space(#[trigger] s[j]) by {
            if j > 0 {
                assert(s[j] == t[j - 1]);
            }
        }
        if leading_spaces(s) < s.len() {
            assert(s[leading_spaces(s) as int] == t[leading_spaces(t) as int]);
        }
    }
}

/// The whitespace at the end of a text: it is within the text, nothing but
/// whitespace, and what stands before it is no whitespace.
pub proof fn lemma_trailing_spaces_shape(s: Seq<u8>)
    ensures
        trailing_spaces(s) <= s.len(),
        forall|j: int| s.len() - trailing_spaces(s) <= j < s.len() ==> is_space(#[trigger] s[j]),
        trailing_spaces(s) < s.len() ==> !is_space(s[s.len() - trailing_spaces(s) - 1]),
    decreases s.len(),
{
    if s.len() > 0 && is_space(s.last()) {
        let t = s.drop_last();
        lemma_trailing_spaces_shape(t);
        assert forall|j: int| s.len() - trailing_spaces(s) <= j < s.len() implies is_space(
            #[trigger] s[j],
        ) by {
            if j < s.len() - 1 {
                assert(s[j] == t[j]);
            }
        }
        if trailing_spaces(s) < s.len() {
            assert(s[s.len() - trailing_spaces(s) - 1] == t[t.len() - trailing_spaces(t) - 1]);
        }
    }
}

/// What trimming leaves is a part of the text with nothing but whitespace
/// before it and behind it, and it neither starts nor ends with whitespace.
pub proof fn lemma_trimmed_shape(s: Seq<u8>)
    ensures
        ({
            let from = leading_spaces(s) as int;
            let to = from + trimmed(s).len();
            &&& 0 <= from <= to <= s.len()
            &&& trimmed(s) == s.subrange(from, to)
            &&& forall|j: int| 0 <= j < from ==> is_space(#[trigger] s[j])
            &&& forall|j: int| to <= j < s.len() ==> is_space(#[trigger] s[j])
            &&& trimmed(s).len() > 0 ==> !is_space(trimmed(s)[0]) && !is_space(trimmed(s).last())
        }),
{
    lemma_leading_spaces_shape(s);
    let from = leading_spaces(s) as int;
    let rest = s.skip(from);
    lemma_trailing_spaces_shape(rest);
    let k = trailing_spaces(rest) as int;
    let t = trimmed(s);
    let to = from + t.len();
    assert(t =~= s.subrange(from, to));
    assert forall|j: int| to <= j < s.len() implies is_space(#[trigger] s[j]) by {
        assert(s[j] == rest[j - from]);
    }
    if t.len() > 0 {
        assert(t[0] == s[from]);
        assert(t.last() == rest[rest.len() - k - 1]);
    }
}

/// The end of a word lies between its start and the end of the text, no
/// whitespace stands before it, and whitespace or the end of the text stands
/// at it.
pub proof fn lemma_word_end(s: Seq<u8>, i: int)
    requires
        0 <= i <= s.len(),
    ensures
        i <= word_end(s, i) <= s.len(),
        forall|j: int| i <= j < word_end(s, i) ==> !is_space(#[trigger] s[j]),
        word_end(s, i) == s.len() || is_space(s[word_end(s, i)]),
    decreases s.len() - i,
{
    if i < s.len() && !is_space(s[i]) {
        lemma_word_end(s, i + 1);
    }
}

/// A word: at least one byte, and none that is whitespace.
pub open spec fn is_word(word: Seq<u8>) -> bool {
    &&& word.len() > 0
    &&& forall|j: int| 0 <= j < word.len() ==> !is_space(#[trigger] word[j])
}

/// Every word of a text is a run of bytes that holds no whitespace and is
/// not empty.
pub proof fn lemma_words_shape(s: Seq<u8>, i: int)
    requires
        0 <= i <= s.len(),
    ensures
        forall|k: int| 0 <= k < words_from(s, i).len() ==> is_word(#[trigger] words_from(s, i)[k]),
    decreases s.len() - i,
{
    if i < s.len() {
        if is_space(s[i]) {
            lemma_words_shape(s, i + 1);
            assert(words_from(s, i) == words_from(s, i + 1));
        } else {
            lemma_word_end(s, i + 1);
            let j = word_end(s, i + 1);
            let first = s.subrange(i, j);
            lemma_words_shape(s, j);
            let rest = words_from(s, j);
            assert(words_from(s, i) == seq![first] + rest);
            assert forall|m: int| 0 <= m < first.len() implies !is_space(#[trigger] first[m]) by {
                assert(first[m] == s[i + m]);
            }
            assert(is_word(first));
            assert forall|k: int| 0 <= k < words_from(s, i).len() implies is_word(
                #[trigger] words_from(s, i)[k],
            ) by {
                if k == 0 {
                    assert(words_from(s, i)[0] == first);
                } else {
                    assert(words_from(s, i)[k] == rest[k - 1]);
                }
            }
        }
    } else {
        assert(words_from(s, i).len() == 0);
    }
}

/// Where nothing but whitespace stands from `i` on, there is no word.
proof fn lemma_no_words_in_spaces(s: Seq<u8>, i: int)
    requires
        0 <= i <= s.len(),
        forall|j: int| i <= j < s.len() ==> is_space(#[trigger] s[j]),
    ensures
        words_from(s, i) == Seq::<Seq<u8>>::empty(),
    decreases s.len() - i,
{
    if i < s.len() {
        assert(is_space(s[i]));
        lemma_no_words_in_spaces(s, i + 1);
    }
}

/// A word with whitespace behind it is the one word of the text.
pub proof fn lemma_single_word(word: Seq<u8>, after: Seq<u8>)
    requires
        is_word(word),
        forall|j: int| 0 <= j < after.len() ==> is_space(#[trigger] after[j]),
    ensures
        words(word + after) == seq![word],
{
    let s = word + after;
    let n = word.len() as int;
    assert(s[0] == word[0]);
    assert forall|k: int| 1 <= k < n implies !is_space(#[trigger] s[k]) by {
        assert(s[k] == word[k]);
    }
    if n < s.len() {
        assert(s[n] == after[0]);
    }
    lemma_word_end_is(s, 1, n);
    assert forall|j: int| n <= j < s.len() implies is_space(#[trigger] s[j]) by {
        assert(s[j] == after[j - n]);
    }
    lemma_no_words_in_spaces(s, n);
    assert(s.subrange(0, n) =~= word);
    assert(words_from(s, 0) == seq![s.subrange(0, n)] + words_from(s, n));
    assert(seq![word] + Seq::<Seq<u8>>::empty() =~= seq![word]);
}

/// The decimal text of a signed number is a word.
pub proof fn lemma_signed_decimal_is_word(n: int)
    ensures
        is_word(signed_decimal(n)),
{
    if n < 0 {
        let m = (-n) as nat;
        lemma_decimal_digits(m);
        let s = signed_decimal(n);
        assert forall|j: int| 0 <= j < s.len() implies !is_space(#[trigger] s[j]) by {
            if j > 0 {
                assert(s[j] == decimal(m)[j - 1]);
                assert(is_digit(decimal(m)[j - 1]));
            }
        }
    } else {
        lemma_decimal_digits(n as nat);
        let s = decimal(n as nat);
        assert forall|j: int| 0 <= j < s.len() implies !is_space(#[trigger] s[j]) by {
            assert(is_digit(s[j]));
        }
    }
}

/// The end of a line lies between its start and the end of the text, no
/// line feed stands before it, and a line feed or the end of the text stands
/// at it.
pub proof fn lemma_line_end(s: Seq<u8>, i: int)
    requires
        0 <= i <= s.len(),
    ensures
        i <= line_end(s, i) <= s.len(),
        forall|j: int| i <= j < line_end(s, i) ==> #[trigger] s[j] != 10,
        line_end(s, i) == s.len() || s[line_end(s, i)] == 10,
    decreases s.len() - i,
{
    if i < s.len() && s[i] != 10 {
        lemma_line_end(s, i + 1);
    }
}

/// No line of a text holds a line feed.
pub proof fn lemma_lines_shape(s: Seq<u8>, i: int)
    requires
        0 <= i <= s.len(),
    ensures
        forall|k: int, j: int|
            0 <= k < lines_from(s, i).len() && 0 <= j < lines_from(s, i)[k].len() ==> #[trigger] lines_from(
                s,
                i,
            )[k][j] != 10,
    decreases s.len() - i,
{
    if i < s.len() {
        lemma_line_end(s, i);
        let e = line_end(s, i);
        if e < s.len() {
            let raw = s.subrange(i, e);
            let first = strip_cr(raw);
            lemma_lines_shape(s, e + 1);
            let rest = lines_from(s, e + 1);
            assert(lines_from(s, i) == seq![first] + rest);
            assert forall|k: int, j: int|
                0 <= k < lines_from(s, i).len() && 0 <= j < lines_from(s, i)[k].len() implies #[trigger] lines_from(
                s,
                i,
            )[k][j] != 10 by {
                if k == 0 {
                    assert(lines_from(s, i)[0] == first);
                    assert(first[j] == raw[j]);
                    assert(raw[j] == s[i + j]);
                } else {
                    assert(lines_from(s, i)[k] == rest[k - 1]);
                }
            }
        } else {
            let last = s.subrange(i, s.len() as int);
            assert(lines_from(s, i) == seq![last]);
            assert forall|k: int, j: int|
                0 <= k < lines_from(s, i).len() && 0 <= j < lines_from(s, i)[k].len() implies #[trigger] lines_from(
                s,
                i,
            )[k][j] != 10 by {
                assert(last[j] == s[i + j]);
            }
        }
    }
}

/// The end of a word is the first position from `i` on that holds whitespace.
proof fn lemma_word_end_is(s: Seq<u8>, i: int, j: int)
    requires
        0 <= i <= j <= s.len(),
        forall|k: int| i <= k < j ==> !is_space(#[trigger] s[k]),
        j == s.len() || is_space(s[j]),
    ensures
        word_end(s, i) == j,
    decreases j - i,
{
    if i < j {
        assert(!is_space(s[i]));
        lemma_word_end_is(s, i + 1, j);
    }
}

/// The end of a line is the first position from `i` on that holds a line
/// feed.
proof fn lemma_line_end_is(s: Seq<u8>, i: int, j: int)
    requires
        0 <= i <= j <= s.len(),
        forall|k: int| i <= k < j ==> #[trigger] s[k] != 10,
        j == s.len() || s[j] == 10,
    ensures
        line_end(s, i) == j,
    decreases j - i,
{
    if i < j {
        assert(s[i] != 10);
        lemma_line_end_is(s, i + 1, j);
    }
}

/// A copy of the bytes of `text` from `from` up to `to`.
pub fn copy_range(text: &[u8], from: usize, to: usize) -> (out: Vec<u8>)
    requires
        from <= to <= text@.len(),
    ensures
        out@ == text@.subrange(from as int, to as int),
{
    let mut out: Vec<u8> = Vec::new();
    let mut i: usize = from;
    while i < to
        invariant
            from <= i <= to <= text@.len(),
            out@ == text@.subrange(from as int, i as int),
        decreases to - i,
    {
        out.push(text[i]);
        i = i + 1;
        assert(out@ =~= text@.subrange(from as int, i as int));
    }
    out
}

/// `text` without the whitespace at its start and at its end.
pub fn trim(text: &[u8]) -> (out: Vec<u8>)
    ensures
        out@ == trimmed(text@),
{
    let n: usize = text.len();
    let mut start: usize = 0;
    while start < n && byte_is_space(text[start])
        invariant
            start <= n,
            n == text@.len(),
            forall|j: int| 0 <= j < start ==> is_space(#[trigger] text@[j]),
        decreases n - start,
    {
        start = start + 1;
    }
    proof {
        lemma_leading_spaces(text@, start as int);
    }
    let ghost rest = text@.skip(start as int);
    let mut end: usize = n;
    while end > start && byte_is_space(text[end - 1])
        invariant
            start <= end <= n,
            n == text@.len(),
            forall|j: int| end <= j < n ==> is_space(#[trigger] text@[j]),
        decreases end,
    {
        end = end - 1;
    }
    proof {
        let k = (n - end) as int;
        assert forall|j: int| rest.len() - k <= j < rest.len() implies is_space(
            #[trigger] rest[j],
        ) by {
            assert(rest[j] == text@[j + start]);
        }
        if k < rest.len() {
            assert(rest[rest.len() - k - 1] == text@[end - 1]);
        }
        lemma_trailing_spaces(rest, k);
        assert(rest.take(rest.len() - k) =~= text@.subrange(start as int, end as int));
    }
    copy_range(text, start, end)
}

/// The words of `text`: the maximal runs of bytes that are not whitespace.
pub fn split_words(text: &[u8]) -> (out: Vec<Vec<u8>>)
    ensures
        views(out@) == words(text@),
{
    let n: usize = text.len();
    let mut out: Vec<Vec<u8>> = Vec::new();
    let mut i: usize = 0;
    assert(views(out@) =~= Seq::<Seq<u8>>::empty());
    while i < n
        invariant
            i <= n,
            n == text@.len(),
            words(text@) == views(out@) + words_from(text@, i as int),
        decreases n - i,
    {
        if byte_is_space(text[i]) {
            i = i + 1;
        } else {
            let mut j: usize = i + 1;
            while j < n && !byte_is_space(text[j])
                invariant
                    i < j <= n,
                    n == text@.len(),
                    forall|k: int| i + 1 <= k < j ==> !is_space(#[trigger] text@[k]),
                decreases n - j,
            {
                j = j + 1;
            }
            proof {
                lemma_word_end_is(text@, i + 1, j as int);
            }
            let word = copy_range(text, i, j);
            let ghost before = views(out@);
            out.push(word);
            proof {
                assert(views(out@) =~= before + seq![text@.subrange(i as int, j as int)]);
                assert(words_from(text@, i as int) == seq![text@.subrange(i as int, j as int)]
                    + words_from(text@, j as int));
                assert(before + (seq![text@.subrange(i as int, j as int)] + words_from(
                    text@,
                    j as int,
                )) =~= views(out@) + words_from(text@, j as int));
            }
            i = j;
        }
    }
    assert(views(out@) + words_from(text@, n as int) =~= views(out@));
    out
}

/// The lines of `text`.
pub fn split_lines(text: &[u8]) -> (out: Vec<Vec<u8>>)
    ensures
        views(out@) == lines(text@),
{
    let n: usize = text.len();
    let mut out: Vec<Vec<u8>> = Vec::new();
    let mut i: usize = 0;
    assert(views(out@) =~= Seq::<Seq<u8>>::empty());
    while i < n
        invariant
            i <= n,
            n == text@.len(),
            lines(text@) == views(out@) + lines_from(text@, i as int),
        decreases n - i,
    {
        let mut j: usize = i;
        while j < n && text[j] != 10
            invariant
                i <= j <= n,
                n == text@.len(),
                forall|k: int| i <= k < j ==> #[trigger] text@[k] != 10,
            decreases n - j,
        {
            j = j + 1;
        }
        proof {
            lemma_line_end_is(text@, i as int, j as int);
        }
        let ghost before = views(out@);
        if j < n {
            let stop: usize = if j > i && text[j - 1] == 13 {
                (j - 1) as usize
            } else {
                j
            };
            let line = copy_range(text, i, stop);
            proof {
                let raw = text@.subrange(i as int, j as int);
                if j > i {
                    assert(raw.last() == text@[j - 1]);
                }
                assert(strip_cr(raw) =~= text@.subrange(i as int, stop as int));
            }
            out.push(line);
            proof {
                let l = strip_cr(text@.subrange(i as int, j as int));
                assert(views(out@) =~= before + seq![l]);
                assert(before + (seq![l] + lines_from(text@, j + 1)) =~= views(out@) + lines_from(
                    text@,
                    j + 1,
                ));
            }
            i = j + 1;
        } else {
            let line = copy_range(text, i, n);
            out.push(line);
            proof {
                let l = text@.subrange(i as int, n as int);
                assert(views(out@) =~= before + seq![l]);
                assert(lines_from(text@, n as int) =~= Seq::<Seq<u8>>::empty());
                assert(before + seq![l] =~= views(out@) + lines_from(text@, n as int));
            }
            i = n;
        }
    }
    assert(views(out@) + lines_from(text@, n as int) =~= views(out@));
    out
}

/// The characters that stand for a sequence of ASCII bytes.
pub open spec fn as_chars(s: Seq<u8>) -> Seq<char> {
    Seq::new(s.len(), |i: int| s[i] as char)
}

/// The decimal digits of a number as characters.
pub open spec fn decimal_text(n: nat) -> Seq<char> {
    as_chars(decimal(n))
}

/// The one-character string of a decimal digit.
fn digit_str(b: u8) -> (r: &'static str)
    requires
        is_digit(b),
    ensures
        r@ == seq![b as char],
{
    proof {
        reveal_strlit("0");
        reveal_strlit("1");
        reveal_strlit("2");
        reveal_strlit("3");
        reveal_strlit("4");
        reveal_strlit("5");
        reveal_strlit("6");
        reveal_strlit("7");
        reveal_strlit("8");
        reveal_strlit("9");
    }
    let r = if b == 48 {
        "0"
    } else if b == 49 {
        "1"
    } else if b == 50 {
        "2"
    } else if b == 51 {
        "3"
    } else if b == 52 {
        "4"
    } else if b == 53 {
        "5"
    } else if b == 54 {
        "6"
    } else if b == 55 {
        "7"
    } else if b == 56 {
        "8"
    } else {
        "9"
    };
    assert(r@ =~= seq![b as char]);
    r
}

/// The decimal digits of `n` as a string.
pub fn decimal_string(n: u128) -> (out: String)
    ensures
        out@ == decimal_text(n as nat),
{
    let digits = render_decimal(n);
    proof {
        lemma_decimal_digits(n as nat);
    }
    let mut out = String::new();
    let mut i: usize = 0;
    while i < digits.len()
        invariant
            i <= digits@.len(),
            all_digits(digits@),
            out@ == as_chars(digits@.take(i as int)),
        decreases digits@.len() - i,
    {
        let piece = digit_str(digits[i]);
        out.append(piece);
        i = i + 1;
        assert(out@ =~= as_chars(digits@.take(i as int)));
    }
    assert(digits@.take(i as int) =~= digits@);
    out
}

/// The views of a vector of strings.
pub open spec fn string_views(v: Seq<String>) -> Seq<Seq<char>> {
    Seq::new(v.len(), |i: int| v[i]@)
}

/// Whether two strings hold the same characters.
pub fn str_eq(a: &str, b: &str) -> (r: bool)
    ensures
        r == (a@ == b@),
{
    let x = String::from_str(a);
    let y = String::from_str(b);
    x == y
}

/// A copy of a vector of strings.
pub fn clone_strings(v: &Vec<String>) -> (out: Vec<String>)
    ensures
        string_views(out@) == string_views(v@),
        out@.len() == v@.len(),
        forall|k: int| 0 <= k < v@.len() ==> (#[trigger] out@[k])@ == v@[k]@,
{
    let mut out: Vec<String> = Vec::new();
    let mut i: usize = 0;
    while i < v.len()
        invariant
            i <= v@.len(),
            out@.len() == i,
            forall|k: int| 0 <= k < i ==> out@[k]@ == v@[k]@,
        decreases v@.len() - i,
    {
        out.push(v[i].clone());
        i = i + 1;
    }
    assert(string_views(out@) =~= string_views(v@));
    out
}

} // verus!

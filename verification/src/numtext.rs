//! Decimal text handling: rendering non-negative numbers, parsing signed
//! integers, and the non-negative-number test used by field validation.
//! Everything is specified over character sequences.

use vstd::prelude::*;

verus! {

/// Whether the character is a decimal digit.
pub open spec fn is_digit(c: char) -> bool {
    48 <= c as int <= 57
}

/// Numeric value of a decimal digit character.
pub open spec fn digit_val(c: char) -> int {
    c as int - 48
}

/// Whether every character of the sequence is a decimal digit.
pub open spec fn all_digits(s: Seq<char>) -> bool {
    forall|i: int| 0 <= i < s.len() ==> is_digit(s[i])
}

/// Value of a sequence of decimal digits, most significant first.
pub open spec fn dec_value(s: Seq<char>) -> int
    decreases s.len(),
{
    if s.len() == 0 {
        0
    } else {
        10 * dec_value(s.drop_last()) + digit_val(s.last())
    }
}

/// The digit character for one digit value.
pub open spec fn digit_char(d: int) -> char {
    if d == 0 { '0' }
    else if d == 1 { '1' }
    else if d == 2 { '2' }
    else if d == 3 { '3' }
    else if d == 4 { '4' }
    else if d == 5 { '5' }
    else if d == 6 { '6' }
    else if d == 7 { '7' }
    else if d == 8 { '8' }
    else { '9' }
}

/// Shortest decimal rendering of a non-negative number.
pub open spec fn dec_digits(n: int) -> Seq<char>
    decreases n,
{
    if n < 10 {
        seq![digit_char(n)]
    } else {
        dec_digits(n / 10).push(digit_char(n % 10))
    }
}

/// The one-character string for one digit value.
fn digit_str(d: i32) -> (r: &'static str)
    requires
        0 <= d <= 9,
    ensures
        r@ == seq![digit_char(d as int)],
{
    proof {
        reveal_strlit("0");
        reveal_strlit("1");
        reveal_strlit("2");
        reveal_strlit("3");
        reveal_strlit("4");
        reveal_strlit("5");
        reveal_strlit("6");
        reveal_strlit("7");
        reveal_strlit("8");
        reveal_strlit("9");
    }
    let r = if d == 0 { "0" }
    else if d == 1 { "1" }
    else if d == 2 { "2" }
    else if d == 3 { "3" }
    else if d == 4 { "4" }
    else if d == 5 { "5" }
    else if d == 6 { "6" }
    else if d == 7 { "7" }
    else if d == 8 { "8" }
    else { "9" };
    proof {
        assert(r@ =~= seq![digit_char(d as int)]);
    }
    r
}

/// Decimal rendering of a non-negative number.
pub fn nonneg_to_string(v: i32) -> (r: String)
    requires
        v >= 0,
    ensures
        r@ == dec_digits(v as int),
    decreases v,
{
    if v < 10 {
        digit_str(v).to_owned()
    } else {
        let mut s = nonneg_to_string(v / 10);
        s.append(digit_str(v % 10));
        proof {
            assert(s@ =~= dec_digits(v as int));
        }
        s
    }
}

/// The literal after stripping one leading sign, if any.
pub open spec fn int_body(s: Seq<char>) -> Seq<char> {
    if s.len() > 0 && (s[0] == '-' || s[0] == '+') {
        s.drop_first()
    } else {
        s
    }
}

/// Whether the literal carries a leading minus sign.
pub open spec fn int_negative(s: Seq<char>) -> bool {
    s.len() > 0 && s[0] == '-'
}

/// A well-formed integer literal: an optional sign followed by one or
/// more decimal digits.
pub open spec fn valid_int_literal(s: Seq<char>) -> bool {
    int_body(s).len() > 0 && all_digits(int_body(s))
}

/// Mathematical value of a well-formed integer literal.
pub open spec fn int_literal_value(s: Seq<char>) -> int {
    if int_negative(s) {
        -dec_value(int_body(s))
    } else {
        dec_value(int_body(s))
    }
}

/// Parses a signed decimal integer literal: an optional `+` or `-`
/// followed by one or more digits, with the value in `i32` range.
/// Returns `None` on any other text.
pub fn parse_i32(s: &str) -> (r: Option<i32>)
    ensures
        valid_int_literal(s@) && i32::MIN <= int_literal_value(s@) <= i32::MAX ==> r
            == Some(int_literal_value(s@) as i32),
        !(valid_int_literal(s@) && i32::MIN <= int_literal_value(s@) <= i32::MAX) ==> r is None,
{
    let len = s.unicode_len();
    if len == 0 {
        return None;
    }
    let first = s.get_char(0);
    let signed = first == '-' || first == '+';
    let neg = first == '-';
    let start: usize = if signed { 1 } else { 0 };
    if start == len {
        return None;
    }
    proof {
        assert(int_body(s@) =~= s@.subrange(start as int, len as int));
    }
    let mut i: usize = start;
    let mut acc: u64 = 0;
    let mut ovf: bool = false;
    while i < len
        invariant
            start <= i <= len,
            len == s@.len(),
            start == if signed { 1int } else { 0int },
            int_body(s@) =~= s@.subrange(start as int, len as int),
            forall|k: int| start <= k < i ==> is_digit(s@[k]),
            !ovf ==> acc == dec_value(s@.subrange(start as int, i as int)) && acc <= 0x8000_0000,
            ovf ==> dec_value(s@.subrange(start as int, i as int)) > 0x8000_0000,
        decreases len - i,
    {
        let c = s.get_char(i);
        let v = c as u32;
        if v < 48 || v > 57 {
            proof {
                assert(!is_digit(int_body(s@)[i - start]));
            }
            return None;
        }
        let d = (v - 48) as u64;
        proof {
            let pre = s@.subrange(start as int, i as int);
            let post = s@.subrange(start as int, i + 1);
            assert(post.drop_last() =~= pre);
            assert(post.last() == s@[i as int]);
            if ovf {
                assert(all_digits(pre) && dec_value(pre) > 0x8000_0000);
                assert(dec_value(post) == 10 * dec_value(pre) + digit_val(s@[i as int]));
            }
        }
        if !ovf {
            let next = acc * 10 + d;
            if next > 0x8000_0000 {
                ovf = true;
            } else {
                acc = next;
            }
        }
        i += 1;
    }
    proof {
        assert(s@.subrange(start as int, len as int) =~= s@.subrange(start as int, i as int));
        assert(valid_int_literal(s@));
        if ovf {
            assert(dec_value(int_body(s@)) > 0x8000_0000);
        } else {
            assert(dec_value(int_body(s@)) == acc);
        }
        assert(int_negative(s@) == neg);
    }
    if ovf {
        return None;
    }
    if neg {
        Some((-(acc as i64)) as i32)
    } else {
        if acc > 0x7FFF_FFFF {
            None
        } else {
            Some(acc as i32)
        }
    }
}

/// Whether the character counts as surrounding whitespace.
pub open spec fn is_space(c: char) -> bool {
    c == ' ' || c == '\t' || c == '\n' || c == '\r'
}

/// The sequence without its leading whitespace.
pub open spec fn trim_front(s: Seq<char>) -> Seq<char>
    decreases s.len(),
{
    if s.len() > 0 && is_space(s[0]) {
        trim_front(s.drop_first())
    } else {
        s
    }
}

/// The sequence without its trailing whitespace.
pub open spec fn trim_back(s: Seq<char>) -> Seq<char>
    decreases s.len(),
{
    if s.len() > 0 && is_space(s.last()) {
        trim_back(s.drop_last())
    } else {
        s
    }
}

/// The sequence without surrounding whitespace.
pub open spec fn spec_trim(s: Seq<char>) -> Seq<char> {
    trim_back(trim_front(s))
}

proof fn lemma_trim_front_at(s: Seq<char>, i: int)
    requires
        0 <= i <= s.len(),
        forall|k: int| 0 <= k < i ==> is_space(s[k]),
        i < s.len() ==> !is_space(s[i]),
    ensures
        trim_front(s) == s.subrange(i, s.len() as int),
    decreases i,
{
    if i == 0 {
        assert(s.subrange(0, s.len() as int) =~= s);
    } else {
        assert(is_space(s[0]));
        let t = s.drop_first();
        assert(forall|k: int| 0 <= k < i - 1 ==> is_space(t[k]));
        lemma_trim_front_at(t, i - 1);
        assert(t.subrange(i - 1, t.len() as int) =~= s.subrange(i, s.len() as int));
    }
}

proof fn lemma_trim_back_at(s: Seq<char>, j: int)
    requires
        0 <= j <= s.len(),
        forall|k: int| j <= k < s.len() ==> is_space(s[k]),
        j > 0 ==> !is_space(s[j - 1]),
    ensures
        trim_back(s) == s.subrange(0, j),
    decreases s.len() - j,
{
    if j == s.len() {
        assert(s.subrange(0, s.len() as int) =~= s);
        if s.len() > 0 && is_space(s.last()) {
            let t = s.drop_last();
            assert(forall|k: int| j - 1 <= k < t.len() ==> is_space(t[k]));
            lemma_trim_back_at(t, j - 1);
            assert(t.subrange(0, j - 1) =~= s.subrange(0, j - 1));
            assert(false);
        }
    } else {
        assert(is_space(s.last()));
        let t = s.drop_last();
        assert(forall|k: int| j <= k < t.len() ==> is_space(t[k]));
        lemma_trim_back_at(t, j);
        assert(t.subrange(0, j) =~= s.subrange(0, j));
    }
}

/// Whether the character counts as surrounding whitespace.
fn space_char(c: char) -> (r: bool)
    ensures
        r == is_space(c),
{
    c == ' ' || c == '\t' || c == '\n' || c == '\r'
}

/// The text without surrounding whitespace (spaces, tabs, line breaks).
pub fn trim(s: &str) -> (r: &str)
    ensures
        r@ == spec_trim(s@),
{
    let len = s.unicode_len();
    let mut i: usize = 0;
    while i < len && space_char(s.get_char(i))
        invariant
            0 <= i <= len,
            len == s@.len(),
            forall|k: int| 0 <= k < i ==> is_space(s@[k]),
        decreases len - i,
    {
        i += 1;
    }
    proof {
        lemma_trim_front_at(s@, i as int);
    }
    let mut j: usize = len;
    while j > i && space_char(s.get_char(j - 1))
        invariant
            i <= j <= len,
            len == s@.len(),
            forall|k: int| j <= k < len ==> is_space(s@[k]),
        decreases j,
    {
        j -= 1;
    }
    let r = s.substring_char(i, j);
    proof {
        let f = trim_front(s@);
        assert(f == s@.subrange(i as int, len as int));
        if j == i {
            lemma_trim_back_at(f, 0);
        } else {
            assert(forall|k: int| j - i <= k < f.len() ==> is_space(f[k]));
            assert(!is_space(f[j - i - 1]));
            lemma_trim_back_at(f, j - i);
        }
        assert(f.subrange(0, j - i) =~= s@.subrange(i as int, j as int));
    }
    r
}

/// Index of the first `.` in the sequence, or its length when none occurs.
pub open spec fn dot_pos(s: Seq<char>) -> int
    decreases s.len(),
{
    if s.len() == 0 {
        0
    } else if s[0] == '.' {
        0
    } else {
        1 + dot_pos(s.drop_first())
    }
}

/// The digits before the first `.` of an unsigned decimal body.
pub open spec fn whole_part(s: Seq<char>) -> Seq<char> {
    s.subrange(0, dot_pos(s))
}

/// The characters after the first `.` of an unsigned decimal body; empty
/// when there is no `.`.
pub open spec fn frac_part(s: Seq<char>) -> Seq<char> {
    if dot_pos(s) == s.len() {
        Seq::empty()
    } else {
        s.subrange(dot_pos(s) + 1, s.len() as int)
    }
}

/// A well-formed decimal literal: an optional sign, then digits with at
/// most one `.` among them and at least one digit in all.
pub open spec fn valid_decimal_literal(s: Seq<char>) -> bool {
    let b = int_body(s);
    &&& all_digits(whole_part(b))
    &&& all_digits(frac_part(b))
    &&& whole_part(b).len() + frac_part(b).len() >= 1
}

/// Value of the first two fractional digits, in hundredths.
pub open spec fn frac_centi(f: Seq<char>) -> int {
    if f.len() == 0 {
        0
    } else if f.len() == 1 {
        10 * digit_val(f[0])
    } else {
        10 * digit_val(f[0]) + digit_val(f[1])
    }
}

/// Value of a well-formed decimal literal in hundredths of its unit,
/// fractional digits beyond the second dropped.
pub open spec fn decimal_centi_value(s: Seq<char>) -> int {
    let b = int_body(s);
    let m = 100 * dec_value(whole_part(b)) + frac_centi(frac_part(b));
    if int_negative(s) {
        -m
    } else {
        m
    }
}

proof fn lemma_dot_pos_nonneg(s: Seq<char>)
    ensures
        dot_pos(s) >= 0,
    decreases s.len(),
{
    if s.len() > 0 && s[0] != '.' {
        lemma_dot_pos_nonneg(s.drop_first());
    }
}

proof fn lemma_dot_pos_ge(s: Seq<char>, i: int)
    requires
        0 <= i <= s.len(),
        forall|k: int| 0 <= k < i ==> s[k] != '.',
    ensures
        dot_pos(s) >= i,
    decreases i,
{
    if i > 0 {
        assert(s[0] != '.');
        let t = s.drop_first();
        assert(forall|k: int| 0 <= k < i - 1 ==> t[k] != '.');
        lemma_dot_pos_ge(t, i - 1);
        assert(dot_pos(s) == 1 + dot_pos(s.drop_first()));
    } else {
        lemma_dot_pos_nonneg(s);
    }
}

proof fn lemma_dot_pos_le(s: Seq<char>)
    ensures
        dot_pos(s) <= s.len(),
    decreases s.len(),
{
    if s.len() > 0 && s[0] != '.' {
        lemma_dot_pos_le(s.drop_first());
    }
}

proof fn lemma_dot_pos_at(s: Seq<char>, i: int)
    requires
        0 <= i <= s.len(),
        forall|k: int| 0 <= k < i ==> s[k] != '.',
        i < s.len() ==> s[i] == '.',
    ensures
        dot_pos(s) == i,
    decreases i,
{
    if i > 0 {
        let t = s.drop_first();
        assert(forall|k: int| 0 <= k < i - 1 ==> t[k] != '.');
        lemma_dot_pos_at(t, i - 1);
    }
}

/// Parses a decimal literal (an optional sign, digits, at most one `.`)
/// into hundredths of its unit, truncating past the second fractional
/// digit. Returns `None` on any other text, and on a value out of the
/// `i32` hundredths range.
pub fn parse_decimal_centi(s: &str) -> (r: Option<i32>)
    ensures
        valid_decimal_literal(s@) && i32::MIN <= decimal_centi_value(s@) <= i32::MAX ==> r
            == Some(decimal_centi_value(s@) as i32),
        !(valid_decimal_literal(s@) && i32::MIN <= decimal_centi_value(s@) <= i32::MAX) ==> r
            is None,
{
    let len = s.unicode_len();
    if len == 0 {
        return None;
    }
    let first = s.get_char(0);
    let signed = first == '-' || first == '+';
    let neg = first == '-';
    let start: usize = if signed { 1 } else { 0 };
    proof {
        assert(int_body(s@) =~= s@.subrange(start as int, len as int));
    }
    let ghost b = int_body(s@);
    // Scan the digits before the dot, as in parse_i32.
    let mut i: usize = start;
    let mut acc: u64 = 0;
    let mut ovf: bool = false;
    while i < len && !dot_char(s.get_char(i))
        invariant
            start <= i <= len,
            len == s@.len(),
            start == if signed { 1int } else { 0int },
            b == int_body(s@),
            b =~= s@.subrange(start as int, len as int),
            forall|k: int| start <= k < i ==> is_digit(s@[k]) && s@[k] != '.',
            !ovf ==> acc == dec_value(s@.subrange(start as int, i as int)) && acc <= 0x8000_0000,
            ovf ==> dec_value(s@.subrange(start as int, i as int)) > 0x8000_0000,
        decreases len - i,
    {
        let c = s.get_char(i);
        let v = c as u32;
        if v < 48 || v > 57 {
            proof {
                lemma_dot_pos_ge(b, i - start + 1);
                lemma_dot_pos_le(b);
                assert(whole_part(b)[i - start] == b[i - start]);
                assert(!is_digit(whole_part(b)[i - start]));
            }
            return None;
        }
        let d = (v - 48) as u64;
        proof {
            let pre = s@.subrange(start as int, i as int);
            let post = s@.subrange(start as int, i + 1);
            assert(post.drop_last() =~= pre);
            assert(post.last() == s@[i as int]);
            if ovf {
                assert(all_digits(pre) && dec_value(pre) > 0x8000_0000);
                assert(dec_value(post) == 10 * dec_value(pre) + digit_val(s@[i as int]));
            }
        }
        if !ovf {
            let next = acc * 10 + d;
            if next > 0x8000_0000 {
                ovf = true;
            } else {
                acc = next;
            }
        }
        i += 1;
    }
    proof {
        lemma_dot_pos_at(b, i - start);
        assert(whole_part(b) =~= s@.subrange(start as int, i as int));
    }
    let whole_len = i - start;
    // Scan the fractional digits, keeping the first two.
    let mut fc: u64 = 0;
    let mut frac_len: usize = 0;
    if i < len {
        // The current character is the dot; every later one must be a digit.
        let mut j: usize = i + 1;
        while j < len
            invariant
                i + 1 <= j <= len,
                len == s@.len(),
                b == int_body(s@),
                b =~= s@.subrange(start as int, len as int),
                start == if signed { 1int } else { 0int },
                start <= i < len,
                dot_pos(b) == i - start,
                frac_part(b) =~= s@.subrange(i + 1, len as int),
                forall|k: int| i + 1 <= k < j ==> is_digit(s@[k]),
                frac_len == j - i - 1,
                j == i + 1 ==> fc == 0,
                j == i + 2 ==> fc == 10 * digit_val(s@[i + 1]),
                j >= i + 3 ==> fc == 10 * digit_val(s@[i + 1]) + digit_val(s@[i + 2]),
                fc <= 99,
            decreases len - j,
        {
            let c = s.get_char(j);
            let v = c as u32;
            if v < 48 || v > 57 {
                proof {
                    assert(!is_digit(frac_part(b)[j - i - 1]));
                }
                return None;
            }
            if frac_len == 0 {
                fc = ((v - 48) * 10) as u64;
            } else if frac_len == 1 {
                fc = fc + (v - 48) as u64;
            }
            frac_len += 1;
            j += 1;
        }
        proof {
            let f = frac_part(b);
            assert(f =~= s@.subrange(i + 1, len as int));
            if f.len() >= 1 {
                assert(f[0] == s@[i + 1]);
            }
            if f.len() >= 2 {
                assert(f[1] == s@[i + 2]);
            }
            assert(fc == frac_centi(f));
        }
    } else {
        proof {
            assert(frac_part(b) =~= Seq::<char>::empty());
        }
    }
    if whole_len == 0 && frac_len == 0 {
        return None;
    }
    proof {
        assert(valid_decimal_literal(s@));
        if ovf {
            assert(dec_value(whole_part(b)) > 0x8000_0000);
        }
        assert(int_negative(s@) == neg);
    }
    if ovf {
        return None;
    }
    let total = acc * 100 + fc;
    if neg {
        if total > 0x8000_0000 {
            None
        } else {
            Some((-(total as i64)) as i32)
        }
    } else {
        if total > 0x7FFF_FFFF {
            None
        } else {
            Some(total as i32)
        }
    }
}

/// Whether the character is the decimal point.
fn dot_char(c: char) -> (r: bool)
    ensures
        r == (c == '.'),
{
    c == '.'
}

/// Shortest decimal rendering of a non-negative hundredths value: the whole
/// part, then the fraction digits when they are not zero.
pub open spec fn centi_digits(c: int) -> Seq<char> {
    let n = c / 100;
    let f = c % 100;
    if f == 0 {
        dec_digits(n)
    } else if f % 10 == 0 {
        dec_digits(n) + seq!['.', digit_char(f / 10)]
    } else {
        dec_digits(n) + seq!['.', digit_char(f / 10), digit_char(f % 10)]
    }
}

/// Renders a non-negative hundredths value in its unit, shortest form.
pub fn centi_to_string(c: i32) -> (r: String)
    requires
        c >= 0,
    ensures
        r@ == centi_digits(c as int),
{
    let n = c / 100;
    let f = c % 100;
    proof {
        reveal_strlit(".");
    }
    if f == 0 {
        nonneg_to_string(n)
    } else if f % 10 == 0 {
        let mut r = nonneg_to_string(n);
        r.append(".");
        r.append(digit_str(f / 10));
        proof {
            assert(r@ =~= centi_digits(c as int));
        }
        r
    } else {
        let mut r = nonneg_to_string(n);
        r.append(".");
        r.append(digit_str(f / 10));
        r.append(digit_str(f % 10));
        proof {
            assert(r@ =~= centi_digits(c as int));
        }
        r
    }
}

/// Whether the text, once surrounding whitespace is removed, is a decimal
/// literal whose hundredths value is in `i32` range, zero or positive.
pub open spec fn nonneg_decimal_text(s: Seq<char>) -> bool {
    &&& valid_decimal_literal(spec_trim(s))
    &&& 0 <= decimal_centi_value(spec_trim(s)) <= i32::MAX
}

/// Field test for the decimal form input: the trimmed text must be a
/// decimal number of the model's range, zero or above.
pub fn test_positive_and_zero_decimal(value: &str) -> (r: bool)
    ensures
        r == nonneg_decimal_text(value@),
{
    let t = trim(value);
    match parse_decimal_centi(t) {
        Some(n) => n >= 0,
        None => false,
    }
}

/// Whether the text, once surrounding whitespace is removed, is an integer
/// literal in `i32` range whose value is zero or positive.
pub open spec fn nonneg_int_text(s: Seq<char>) -> bool {
    &&& valid_int_literal(spec_trim(s))
    &&& 0 <= int_literal_value(spec_trim(s)) <= i32::MAX
}

/// Field test for the integer form inputs: the trimmed text must be an
/// integer of the machine's range, zero or above.
pub fn test_positive_and_zero_number(value: &str) -> (r: bool)
    ensures
        r == nonneg_int_text(value@),
{
    let t = trim(value);
    match parse_i32(t) {
        Some(n) => n >= 0,
        None => false,
    }
}

} // verus!

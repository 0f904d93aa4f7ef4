use vstd::prelude::*;

verus! {

/// Appending a character to a `String` extends its text by that character.
pub assume_specification[ String::push ](s: &mut String, ch: char)
    ensures
        final(s)@ == old(s)@.push(ch),
;

/// `s` begins with `p`, character by character.
pub open spec fn starts_with(s: Seq<char>, p: Seq<char>) -> bool {
    p.len() <= s.len() && s.subrange(0, p.len() as int) == p
}

/// `s` ends with `p`, character by character.
pub open spec fn ends_with(s: Seq<char>, p: Seq<char>) -> bool {
    p.len() <= s.len() && s.subrange(s.len() - p.len(), s.len() as int) == p
}

/// What is left of `s` after its first `n` characters (nothing when `s` is shorter).
pub open spec fn drop_chars(s: Seq<char>, n: int) -> Seq<char> {
    if n <= s.len() {
        s.subrange(n, s.len() as int)
    } else {
        Seq::empty()
    }
}

/// The first `n` characters of `s` (all of `s` when it is shorter).
pub open spec fn take_chars(s: Seq<char>, n: int) -> Seq<char> {
    if n <= s.len() {
        s.subrange(0, n)
    } else {
        s
    }
}

pub open spec fn is_ascii_digit(c: char) -> bool {
    '0' <= c <= '9'
}

pub open spec fn all_ascii_digits(s: Seq<char>) -> bool {
    forall|i: int| 0 <= i < s.len() ==> #[trigger] is_ascii_digit(s[i])
}

/// The number written by a sequence of decimal digits.
pub open spec fn digits_value(s: Seq<char>) -> int
    decreases s.len(),
{
    if s.len() == 0 {
        0
    } else {
        digits_value(s.drop_last()) * 10 + (s.last() as int - '0' as int)
    }
}

/// The integer written by `s` in the syntax of Rust's integer `from_str`: an optional
/// `+` (or, for signed types, `-`) followed by one or more ASCII digits.
pub open spec fn integer_literal(s: Seq<char>, signed: bool) -> Option<int> {
    if s.len() == 0 {
        None
    } else if (s[0] == '+' || s[0] == '-') && s.len() == 1 {
        None
    } else if s[0] == '+' {
        if all_ascii_digits(s.drop_first()) {
            Some(digits_value(s.drop_first()))
        } else {
            None
        }
    } else if s[0] == '-' && signed {
        if all_ascii_digits(s.drop_first()) {
            Some(-digits_value(s.drop_first()))
        } else {
            None
        }
    } else if all_ascii_digits(s) {
        Some(digits_value(s))
    } else {
        None
    }
}

/// What `s.parse::<i32>()` gives.
pub open spec fn parse_i32_spec(s: Seq<char>) -> Option<i32> {
    match integer_literal(s, true) {
        Some(v) => if i32::MIN <= v <= i32::MAX { Some(v as i32) } else { None },
        None => None,
    }
}

/// What `s.parse::<u32>()` gives.
pub open spec fn parse_u32_spec(s: Seq<char>) -> Option<u32> {
    match integer_literal(s, false) {
        Some(v) => if 0 <= v <= u32::MAX { Some(v as u32) } else { None },
        None => None,
    }
}

pub open spec fn digit_char(d: int) -> char {
    ('0' as int + d) as char
}

/// The decimal digits of a natural number, without leading zeros.
pub open spec fn nat_decimal(n: nat) -> Seq<char>
    decreases n,
{
    if n < 10 {
        seq![digit_char(n as int)]
    } else {
        nat_decimal(n / 10).push(digit_char((n % 10) as int))
    }
}

/// How Rust's `to_string` writes an integer.
pub open spec fn int_decimal(n: int) -> Seq<char> {
    if n < 0 {
        seq!['-'] + nat_decimal((-n) as nat)
    } else {
        nat_decimal(n as nat)
    }
}

pub open spec fn is_ascii_char(c: char) -> bool {
    (c as u32) < 128
}

pub open spec fn is_ascii_control(c: char) -> bool {
    (c as u32) < 32 || (c as u32) == 127
}

pub open spec fn is_ascii_lowercase(c: char) -> bool {
    'a' <= c <= 'z'
}

pub open spec fn is_ascii_uppercase(c: char) -> bool {
    'A' <= c <= 'Z'
}

pub open spec fn contains_char_where(s: Seq<char>, p: spec_fn(char) -> bool) -> bool {
    exists|i: int| 0 <= i < s.len() && #[trigger] p(s[i])
}

/// Whether `s` begins with `p`.
pub fn has_prefix(s: &str, p: &str) -> (r: bool)
    ensures
        r == starts_with(s@, p@),
{
    let n = s.unicode_len();
    let m = p.unicode_len();
    if m > n {
        return false;
    }
    let mut i: usize = 0;
    while i < m
        invariant
            n == s@.len(),
            m == p@.len(),
            m <= n,
            i <= m,
            forall|j: int| 0 <= j < i ==> s@[j] == p@[j],
        decreases m - i,
    {
        if s.get_char(i) != p.get_char(i) {
            assert(s@.subrange(0, m as int)[i as int] != p@[i as int]);
            return false;
        }
        i = i + 1;
    }
    assert(s@.subrange(0, m as int) =~= p@);
    true
}

/// Whether two texts are equal.
pub fn same_text(a: &str, b: &str) -> (r: bool)
    ensures
        r == (a@ == b@),
{
    let n = a.unicode_len();
    let m = b.unicode_len();
    if n != m {
        return false;
    }
    let mut i: usize = 0;
    while i < n
        invariant
            n == a@.len(),
            m == b@.len(),
            n == m,
            i <= n,
            forall|j: int| 0 <= j < i ==> a@[j] == b@[j],
        decreases n - i,
    {
        if a.get_char(i) != b.get_char(i) {
            return false;
        }
        i = i + 1;
    }
    assert(a@ =~= b@);
    true
}

/// The text of `s` after its first `n` characters, as `s.chars().skip(n)` collects it.
pub fn skip_chars(s: &str, n: usize) -> (r: String)
    ensures
        r@ == drop_chars(s@, n as int),
{
    let len = s.unicode_len();
    if n <= len {
        String::from_str(s.substring_char(n, len))
    } else {
        String::new()
    }
}

/// The first `n` characters of `s`, as `s.chars().take(n)` collects them.
pub fn take_first_chars(s: &str, n: usize) -> (r: String)
    ensures
        r@ == take_chars(s@, n as int),
{
    let len = s.unicode_len();
    if n <= len {
        String::from_str(s.substring_char(0, n))
    } else {
        String::from_str(s)
    }
}

/// Index of the first occurrence of `c` in `s`, counted in characters.
pub fn find_char(s: &str, c: char) -> (r: Option<usize>)
    ensures
        match r {
            Some(i) => i < s@.len() && s@[i as int] == c && forall|j: int|
                0 <= j < i ==> s@[j] != c,
            None => forall|j: int| 0 <= j < s@.len() ==> s@[j] != c,
        },
{
    let n = s.unicode_len();
    let mut i: usize = 0;
    while i < n
        invariant
            n == s@.len(),
            i <= n,
            forall|j: int| 0 <= j < i ==> s@[j] != c,
        decreases n - i,
    {
        if s.get_char(i) == c {
            return Some(i);
        }
        i = i + 1;
    }
    None
}

proof fn lemma_digits_value_nonneg(s: Seq<char>)
    requires
        all_ascii_digits(s),
    ensures
        digits_value(s) >= 0,
    decreases s.len(),
{
    if s.len() > 0 {
        assert(is_ascii_digit(s[s.len() - 1]));
        assert(all_ascii_digits(s.drop_last())) by {
            assert forall|i: int| 0 <= i < s.drop_last().len() implies #[trigger] is_ascii_digit(
                s.drop_last()[i],
            ) by {
                assert(is_ascii_digit(s[i]));
            }
        }
        lemma_digits_value_nonneg(s.drop_last());
    }
}

/// Extending a digit sequence never makes the number it writes smaller.
proof fn lemma_digits_value_prefix(s: Seq<char>, k: int)
    requires
        all_ascii_digits(s),
        0 <= k <= s.len(),
    ensures
        digits_value(s.subrange(0, k)) <= digits_value(s),
    decreases s.len() - k,
{
    if k < s.len() {
        lemma_digits_value_prefix(s, k + 1);
        let t = s.subrange(0, k + 1);
        assert(t.drop_last() =~= s.subrange(0, k));
        assert(is_ascii_digit(s[k]));
        assert(all_ascii_digits(s.subrange(0, k))) by {
            assert forall|i: int| 0 <= i < k implies #[trigger] is_ascii_digit(
                s.subrange(0, k)[i],
            ) by {
                assert(is_ascii_digit(s[i]));
            }
        }
        lemma_digits_value_nonneg(s.subrange(0, k));
    } else {
        assert(s.subrange(0, k) =~= s);
    }
}

/// Reads the ASCII digits of `s` from character `start` on, giving up once the number
/// exceeds `limit`.
fn read_digits(s: &str, start: usize, limit: u64) -> (r: Option<u64>)
    requires
        start <= s@.len(),
        limit <= u32::MAX as u64 + 1,
    ensures
        match r {
            Some(v) => all_ascii_digits(drop_chars(s@, start as int)) && v == digits_value(
                drop_chars(s@, start as int),
            ) && v <= limit,
            None => !all_ascii_digits(drop_chars(s@, start as int)) || digits_value(
                drop_chars(s@, start as int),
            ) > limit,
        },
{
    let n = s.unicode_len();
    let ghost t = drop_chars(s@, start as int);
    let mut acc: u64 = 0;
    let mut i: usize = start;
    while i < n
        invariant
            n == s@.len(),
            start <= i <= n,
            t == s@.subrange(start as int, n as int),
            limit <= u32::MAX as u64 + 1,
            acc <= limit,
            all_ascii_digits(t.subrange(0, i - start)),
            acc == digits_value(t.subrange(0, i - start)),
        decreases n - i,
    {
        let c = s.get_char(i);
        if !('0' <= c && c <= '9') {
            assert(t[i - start] == c);
            assert(!is_ascii_digit(t[i - start]));
            return None;
        }
        let d = (c as u64) - ('0' as u64);
        let next = acc * 10 + d;
        proof {
            let u = t.subrange(0, i - start + 1);
            assert(u.drop_last() =~= t.subrange(0, i - start));
            assert(u.last() == c);
            assert(all_ascii_digits(u)) by {
                assert forall|j: int| 0 <= j < u.len() implies #[trigger] is_ascii_digit(u[j]) by {
                    if j < u.len() - 1 {
                        assert(u[j] == t.subrange(0, i - start)[j]);
                    }
                }
            }
        }
        if next > limit {
            proof {
                let u = t.subrange(0, i - start + 1);
                if all_ascii_digits(t) {
                    lemma_digits_value_prefix(t, i - start + 1);
                }
            }
            return None;
        }
        acc = next;
        i = i + 1;
    }
    assert(t.subrange(0, n - start) =~= t);
    Some(acc)
}

/// `s.parse::<i32>()`.
pub fn parse_i32(s: &str) -> (r: Option<i32>)
    ensures
        r == parse_i32_spec(s@),
{
    let n = s.unicode_len();
    if n == 0 {
        return None;
    }
    let c = s.get_char(0);
    if (c == '+' || c == '-') && n == 1 {
        return None;
    }
    if c == '+' || c == '-' {
        assert(drop_chars(s@, 1) =~= s@.drop_first());
        let limit: u64 = if c == '-' { 2147483648 } else { 2147483647 };
        match read_digits(s, 1, limit) {
            Some(v) => {
                if c == '-' {
                    let r = (0i64 - v as i64) as i32;
                    Some(r)
                } else {
                    Some(v as i32)
                }
            },
            None => None,
        }
    } else {
        assert(drop_chars(s@, 0) =~= s@);
        match read_digits(s, 0, 2147483647) {
            Some(v) => Some(v as i32),
            None => None,
        }
    }
}

/// `s.parse::<u32>()`.
pub fn parse_u32(s: &str) -> (r: Option<u32>)
    ensures
        r == parse_u32_spec(s@),
{
    let n = s.unicode_len();
    if n == 0 {
        return None;
    }
    let c = s.get_char(0);
    if (c == '+' || c == '-') && n == 1 {
        return None;
    }
    if c == '+' {
        assert(drop_chars(s@, 1) =~= s@.drop_first());
        match read_digits(s, 1, 4294967295) {
            Some(v) => Some(v as u32),
            None => None,
        }
    } else {
        assert(drop_chars(s@, 0) =~= s@);
        if c == '-' {
            assert(!is_ascii_digit(s@[0]));
            return None;
        }
        match read_digits(s, 0, 4294967295) {
            Some(v) => Some(v as u32),
            None => None,
        }
    }
}


proof fn lemma_digit_char(d: int)
    requires
        0 <= d < 10,
    ensures
        digit_char(d) as int - '0' as int == d,
        is_ascii_digit(digit_char(d)),
{
    assert(('0' as int + d) as char as int == '0' as int + d);
}

proof fn lemma_nat_decimal_digits(n: nat)
    ensures
        all_ascii_digits(nat_decimal(n)),
        digits_value(nat_decimal(n)) == n,
        nat_decimal(n).len() >= 1,
    decreases n,
{
    if n < 10 {
        lemma_digit_char(n as int);
        let s = nat_decimal(n);
        assert(s.drop_last() =~= Seq::<char>::empty());
        assert(digits_value(s.drop_last()) == 0);
        assert(is_ascii_digit(s[0]));
    } else {
        lemma_digit_char((n % 10) as int);
        lemma_nat_decimal_digits(n / 10);
        let s = nat_decimal(n);
        let t = nat_decimal(n / 10);
        assert(s.drop_last() =~= t);
        assert(digits_value(s) == digits_value(t) * 10 + (s.last() as int - '0' as int));
        assert((n / 10) * 10 + n % 10 == n) by (nonlinear_arith);
        assert(all_ascii_digits(s)) by {
            assert forall|i: int| 0 <= i < s.len() implies #[trigger] is_ascii_digit(s[i]) by {
                if i < t.len() {
                    assert(s[i] == t[i]);
                }
            }
        }
    }
}

/// Reading back the decimal text of an `i32` gives the number: what `to_string` writes,
/// `parse::<i32>` reads.
pub proof fn lemma_parse_int_decimal(n: i32)
    ensures
        parse_i32_spec(int_decimal(n as int)) == Some(n),
{
    if n < 0 {
        let m = (-n) as nat;
        lemma_nat_decimal_digits(m);
        let s = int_decimal(n as int);
        assert(s.drop_first() =~= nat_decimal(m));
        assert(s[0] == '-');
    } else {
        lemma_nat_decimal_digits(n as nat);
        let s = nat_decimal(n as nat);
        assert(is_ascii_digit(s[0]));
    }
}

/// Appends the decimal digits of `n`.
fn push_decimal(s: &mut String, n: u64)
    ensures
        final(s)@ == old(s)@ + nat_decimal(n as nat),
    decreases n,
{
    if n >= 10 {
        push_decimal(s, n / 10);
    }
    let d: u8 = (n % 10) as u8;
    let c = (48u8 + d) as char;
    assert(c == digit_char((n % 10) as int));
    s.push(c);
    proof {
        if n >= 10 {
            assert(old(s)@ + nat_decimal((n / 10) as nat) + seq![c] =~= old(s)@ + nat_decimal(n as nat));
        } else {
            assert(old(s)@ + seq![c] =~= old(s)@ + nat_decimal(n as nat));
        }
    }
}

/// `n.to_string()` for an `i32`.
pub fn int_to_text(n: i32) -> (r: String)
    ensures
        r@ == int_decimal(n as int),
{
    let mut s = String::new();
    if n < 0 {
        s.push('-');
        let m: i64 = 0i64 - (n as i64);
        push_decimal(&mut s, m as u64);
        assert(s@ =~= seq!['-'] + nat_decimal((-n) as nat));
    } else {
        push_decimal(&mut s, n as u64);
        assert(s@ =~= nat_decimal(n as nat));
    }
    s
}


/// Every character takes at least one byte.
pub proof fn lemma_encode_utf8_len(a: Seq<char>)
    ensures
        vstd::utf8::encode_utf8(a).len() >= a.len(),
    decreases a.len(),
{
    if a.len() > 0 {
        lemma_encode_utf8_len(a.drop_first());
        let c = a[0] as u32;
        assert(vstd::utf8::encode_scalar(c).len() >= 1);
    }
}

/// Whether `char::is_whitespace` holds of `c` (Unicode `White_Space`).
pub uninterp spec fn unicode_whitespace(c: char) -> bool;

/// Whether `char::is_numeric` holds of `c` (Unicode general categories Nd, Nl, No).
pub uninterp spec fn unicode_numeric(c: char) -> bool;

/// `char::is_whitespace`. Its result is named by `unicode_whitespace`; what the
/// Unicode table holds is not restated here.
#[verifier::external_body]
pub fn is_whitespace(c: char) -> (r: bool)
    ensures
        r == unicode_whitespace(c),
{
    c.is_whitespace()
}

/// `char::is_numeric`. Its result is named by `unicode_numeric`; the documentation of
/// `char::is_numeric` says that the ASCII characters for which it holds are exactly
/// the digits `0` to `9`, and that is stated too.
#[verifier::external_body]
pub fn is_numeric(c: char) -> (r: bool)
    ensures
        r == unicode_numeric(c),
        is_ascii_char(c) ==> (r == is_ascii_digit(c)),
{
    c.is_numeric()
}

} // verus!

//! Integers in decimal notation: writing them, reading them back, and the
//! reasons why a text is not one.

use crate::text::chars_of;
use vstd::prelude::*;

verus! {

/// The digit for a value below ten.
pub open spec fn digit(value: nat) -> char {
    (48 + value) as char
}

/// Whether `c` is a decimal digit.
pub open spec fn is_digit(c: char) -> bool {
    '0' <= c <= '9'
}

/// A natural number in decimal notation.
pub open spec fn decimal(n: nat) -> Seq<char>
    decreases n,
{
    if n < 10 {
        seq![digit(n)]
    } else {
        decimal(n / 10).push(digit(n % 10))
    }
}

/// An integer in decimal notation, with a minus sign in front where it is negative.
pub open spec fn decimal_int(n: int) -> Seq<char> {
    if n < 0 {
        seq!['-'] + decimal((-n) as nat)
    } else {
        decimal(n as nat)
    }
}

/// The value of a sequence of digits.
pub open spec fn digits_value(s: Seq<char>) -> nat
    decreases s.len(),
{
    if s.len() == 0 {
        0
    } else {
        digits_value(s.drop_last()) * 10 + (s.last() as nat - 48) as nat
    }
}

/// How many of the first characters of `s` are digits.
pub open spec fn leading_digits(s: Seq<char>) -> nat
    decreases s.len(),
{
    if s.len() > 0 && is_digit(s[0]) {
        1 + leading_digits(s.skip(1))
    } else {
        0
    }
}

/// Why a text is not an integer of the wanted type.
#[derive(Clone, Copy, Debug, PartialEq, Eq, Structural)]
pub enum IntError {
    Empty,
    InvalidDigit,
    PosOverflow,
    NegOverflow,
}

impl IntError {
    /// The words for the error.
    pub open spec fn words(self) -> Seq<char> {
        match self {
            IntError::Empty => "cannot parse integer from empty string"@,
            IntError::InvalidDigit => "invalid digit found in string"@,
            IntError::PosOverflow => "number too large to fit in target type"@,
            IntError::NegOverflow => "number too small to fit in target type"@,
        }
    }

    /// The error in words.
    pub fn message(&self) -> (r: String)
        ensures
            r@ == self.words(),
    {
        match self {
            IntError::Empty => "cannot parse integer from empty string".to_string(),
            IntError::InvalidDigit => "invalid digit found in string".to_string(),
            IntError::PosOverflow => "number too large to fit in target type".to_string(),
            IntError::NegOverflow => "number too small to fit in target type".to_string(),
        }
    }
}

/// What digits after an optional sign denote, for a type whose values go up to
/// `limit` in that direction. The digits are read from the left, and the first
/// thing that goes wrong is the error.
pub open spec fn read_digits(s: Seq<char>, limit: nat, overflow: IntError) -> Result<nat, IntError> {
    let n = leading_digits(s) as int;
    let value = digits_value(s.take(n));
    if s.len() == 0 {
        Err(IntError::InvalidDigit)
    } else if value > limit {
        Err(overflow)
    } else if n < s.len() {
        Err(IntError::InvalidDigit)
    } else {
        Ok(value)
    }
}

/// What `s` denotes as a number from zero to `limit`: digits, which a plus sign
/// may precede.
pub open spec fn read_unsigned(s: Seq<char>, limit: nat) -> Result<nat, IntError> {
    if s.len() == 0 {
        Err(IntError::Empty)
    } else if s[0] == '+' {
        read_digits(s.skip(1), limit, IntError::PosOverflow)
    } else {
        read_digits(s, limit, IntError::PosOverflow)
    }
}

/// What `s` denotes as a 64-bit signed integer: digits, which a sign may precede.
pub open spec fn read_signed(s: Seq<char>) -> Result<int, IntError> {
    if s.len() == 0 {
        Err(IntError::Empty)
    } else if s[0] == '-' {
        match read_digits(s.skip(1), 0x8000_0000_0000_0000, IntError::NegOverflow) {
            Ok(n) => Ok(-(n as int)),
            Err(e) => Err(e),
        }
    } else {
        match read_unsigned(s, i64::MAX as nat) {
            Ok(n) => Ok(n as int),
            Err(e) => Err(e),
        }
    }
}

proof fn leading_digits_bound(s: Seq<char>)
    ensures
        leading_digits(s) <= s.len(),
        forall|i: int| 0 <= i < leading_digits(s) ==> is_digit(#[trigger] s[i]),
        leading_digits(s) < s.len() ==> !is_digit(s[leading_digits(s) as int]),
    decreases s.len(),
{
    if s.len() > 0 && is_digit(s[0]) {
        let rest = s.skip(1);
        leading_digits_bound(rest);
        assert forall|i: int| 0 <= i < leading_digits(s) implies is_digit(#[trigger] s[i]) by {
            if i > 0 {
                assert(s[i] == rest[i - 1]);
            }
        }
    }
}

proof fn digits_value_grows(s: Seq<char>, n: int)
    requires
        0 <= n <= s.len(),
        forall|i: int| 0 <= i < s.len() ==> is_digit(#[trigger] s[i]),
    ensures
        digits_value(s.take(n)) <= digits_value(s),
    decreases s.len(),
{
    if n == s.len() {
        assert(s.take(n) == s);
    } else {
        let shorter = s.drop_last();
        digits_value_grows(shorter, n);
        assert(shorter.take(n) == s.take(n));
    }
}

/// The number that the digits from `from` on denote, if it is at most `limit`.
fn scan_digits(chars: &Vec<char>, from: usize, limit: u64, overflow: IntError) -> (r: Result<
    u64,
    IntError,
>)
    requires
        from <= chars@.len(),
    ensures
        match r {
            Ok(n) => read_digits(chars@.skip(from as int), limit as nat, overflow) == Ok::<
                nat,
                IntError,
            >(n as nat),
            Err(e) => read_digits(chars@.skip(from as int), limit as nat, overflow) == Err::<
                nat,
                IntError,
            >(e),
        },
{
    let ghost s = chars@.skip(from as int);
    proof {
        leading_digits_bound(s);
    }
    if from == chars.len() {
        return Err(IntError::InvalidDigit);
    }
    let mut value: u64 = 0;
    let mut i: usize = from;
    assert(s.take(0).len() == 0);
    while i < chars.len()
        invariant
            from <= i <= chars@.len(),
            s == chars@.skip(from as int),
            s.len() > 0,
            leading_digits(s) <= s.len(),
            forall|j: int| 0 <= j < leading_digits(s) ==> is_digit(#[trigger] s[j]),
            leading_digits(s) < s.len() ==> !is_digit(s[leading_digits(s) as int]),
            i - from <= leading_digits(s),
            value == digits_value(s.take(i - from)),
            value <= limit,
        decreases chars@.len() - i,
    {
        let c = chars[i];
        let ghost at = i - from;
        assert(s[at] == c);
        if !('0' <= c && c <= '9') {
            assert(leading_digits(s) == at);
            return Err(IntError::InvalidDigit);
        }
        let d: u64 = (c as u32 - 48) as u64;
        proof {
            assert(s.take(at + 1).drop_last() == s.take(at));
            let digits = s.take(leading_digits(s) as int);
            assert(digits.take(at + 1) == s.take(at + 1));
            digits_value_grows(digits, at + 1);
        }
        let wide: u128 = value as u128 * 10 + d as u128;
        assert(wide == digits_value(s.take(at + 1)));
        if wide > limit as u128 {
            return Err(overflow);
        }
        value = wide as u64;
        i = i + 1;
    }
    assert(s.take(leading_digits(s) as int) == s.take(i - from));
    Ok(value)
}

/// Reads `text` as a number from zero to `limit`.
pub fn parse_unsigned(text: &str, limit: u64) -> (r: Result<u64, IntError>)
    ensures
        match r {
            Ok(n) => read_unsigned(text@, limit as nat) == Ok::<nat, IntError>(n as nat),
            Err(e) => read_unsigned(text@, limit as nat) == Err::<nat, IntError>(e),
        },
{
    let chars = chars_of(text);
    if chars.len() == 0 {
        return Err(IntError::Empty);
    }
    assert(chars@.skip(0) == chars@);
    let from: usize = if chars[0] == '+' {
        1
    } else {
        0
    };
    scan_digits(&chars, from, limit, IntError::PosOverflow)
}

/// Reads `text` as a 64-bit signed integer.
pub fn parse_i64(text: &str) -> (r: Result<i64, IntError>)
    ensures
        match r {
            Ok(n) => read_signed(text@) == Ok::<int, IntError>(n as int),
            Err(e) => read_signed(text@) == Err::<int, IntError>(e),
        },
{
    let chars = chars_of(text);
    if chars.len() > 0 && chars[0] == '-' {
        match scan_digits(&chars, 1, 0x8000_0000_0000_0000, IntError::NegOverflow) {
            Ok(n) => Ok((-(n as i128)) as i64),
            Err(e) => Err(e),
        }
    } else {
        match parse_unsigned(text, i64::MAX as u64) {
            Ok(n) => Ok(n as i64),
            Err(e) => Err(e),
        }
    }
}

/// Reads `text` as a `usize`.
pub fn parse_usize(text: &str) -> (r: Result<usize, IntError>)
    ensures
        match r {
            Ok(n) => read_unsigned(text@, usize::MAX as nat) == Ok::<nat, IntError>(n as nat),
            Err(e) => read_unsigned(text@, usize::MAX as nat) == Err::<nat, IntError>(e),
        },
{
    match parse_unsigned(text, usize::MAX as u64) {
        Ok(n) => Ok(n as usize),
        Err(e) => Err(e),
    }
}

/// A natural number in decimal notation.
pub fn unsigned_text(n: u64) -> (r: String)
    ensures
        r@ == decimal(n as nat),
    decreases n,
{
    let d: u8 = (n % 10) as u8;
    if n < 10 {
        let mut r = String::new();
        r.push((48 + d) as char);
        r
    } else {
        let mut r = unsigned_text(n / 10);
        r.push((48 + d) as char);
        r
    }
}

/// An integer in decimal notation.
pub fn signed_text(n: i64) -> (r: String)
    ensures
        r@ == decimal_int(n as int),
{
    if n < 0 {
        let mut r = String::new();
        r.push('-');
        let rest = unsigned_text((-(n as i128)) as u64);
        r.append(rest.as_str());
        r
    } else {
        unsigned_text(n as u64)
    }
}

/// Every character of a number is a digit, and the digits have its value.
pub proof fn decimal_is_digits(n: nat)
    ensures
        decimal(n).len() > 0,
        forall|i: int| 0 <= i < decimal(n).len() ==> is_digit(#[trigger] decimal(n)[i]),
        digits_value(decimal(n)) == n,
    decreases n,
{
    if n < 10 {
        assert(decimal(n).drop_last().len() == 0);
        assert(digits_value(decimal(n).drop_last()) == 0);
    } else {
        decimal_is_digits(n / 10);
        assert(decimal(n).drop_last() == decimal(n / 10));
    }
}

proof fn all_digits_lead(s: Seq<char>)
    requires
        forall|i: int| 0 <= i < s.len() ==> is_digit(#[trigger] s[i]),
    ensures
        leading_digits(s) == s.len(),
    decreases s.len(),
{
    if s.len() > 0 {
        all_digits_lead(s.skip(1));
    }
}

/// What is written as a number is read back as that number.
pub proof fn decimal_read_back(n: nat, limit: nat)
    requires
        n <= limit,
    ensures
        read_unsigned(decimal(n), limit) == Ok::<nat, IntError>(n),
{
    decimal_is_digits(n);
    all_digits_lead(decimal(n));
    assert(decimal(n).take(decimal(n).len() as int) == decimal(n));
    assert(is_digit(decimal(n)[0]));
}

/// What is written as a signed integer is read back as that integer.
pub proof fn decimal_int_read_back(n: int)
    requires
        i64::MIN <= n <= i64::MAX,
    ensures
        read_signed(decimal_int(n)) == Ok::<int, IntError>(n),
{
    if n < 0 {
        let m = (-n) as nat;
        decimal_is_digits(m);
        all_digits_lead(decimal(m));
        assert(decimal(m).take(decimal(m).len() as int) == decimal(m));
        assert(decimal_int(n).skip(1) == decimal(m));
    } else {
        decimal_is_digits(n as nat);
        assert(is_digit(decimal(n as nat)[0]));
        decimal_read_back(n as nat, i64::MAX as nat);
    }
}

/// Two natural numbers with the same notation are the same.
pub proof fn decimal_is_injective(a: nat, b: nat)
    requires
        decimal(a) == decimal(b),
    ensures
        a == b,
{
    decimal_is_digits(a);
    decimal_is_digits(b);
}

/// A number is written with its last digit behind the number of its tens, and a number
/// below ten with one digit. A negative number has a minus sign in front.
pub proof fn numbers_are_written_digit_by_digit(n: u64, m: i64, r: String, tens: String, s: String)
    requires
        call_ensures(unsigned_text, (n,), r),
        call_ensures(unsigned_text, ((n / 10) as u64,), tens),
        call_ensures(signed_text, (m,), s),
    ensures
        r@.len() > 0,
        r@.last() as int == '0' as int + n % 10,
        n < 10 ==> r@.len() == 1,
        n >= 10 ==> r@.drop_last() == tens@,
        m >= 0 && m == n ==> s@ == r@,
        m < 0 && -m == n ==> s@ == seq!['-'] + r@,
{
    if n >= 10 {
        assert(r@.drop_last() =~= tens@);
    }
}

/// A number is read back from its text, and the next digit makes it ten times as large.
pub proof fn numbers_are_read_back(
    n: u64,
    m: i64,
    limit: u64,
    written: &str,
    written_signed: &str,
    r: Result<u64, IntError>,
    s: Result<i64, IntError>,
)
    requires
        written@ == decimal(n as nat),
        written_signed@ == decimal_int(m as int),
        call_ensures(parse_unsigned, (written, limit), r),
        call_ensures(parse_i64, (written_signed,), s),
    ensures
        n <= limit ==> r == Ok::<u64, IntError>(n),
        n > limit ==> r == Err::<u64, IntError>(IntError::PosOverflow),
        s == Ok::<i64, IntError>(m),
{
    decimal_int_read_back(m as int);
    decimal_is_digits(n as nat);
    if n <= limit {
        decimal_read_back(n as nat, limit as nat);
    } else {
        decimal_read_back(n as nat, n as nat);
    }
}

/// What is read as a number is made of digits behind at most one sign, and its value is
/// that of its digits: reading one digit more gives ten times the number and the digit.
pub proof fn only_digits_are_read(
    text: &str,
    longer: &str,
    d: char,
    limit: u64,
    r: Result<u64, IntError>,
    more: Result<u64, IntError>,
)
    requires
        longer@ == text@.push(d),
        call_ensures(parse_unsigned, (text, limit), r),
        call_ensures(parse_unsigned, (longer, limit), more),
    ensures
        r matches Ok(n) ==> ('0' <= d <= '9' && n * 10 + (d as int - '0' as int) <= limit ==> more
            == Ok::<u64, IntError>((n * 10 + (d as int - '0' as int)) as u64)),
        !('0' <= d <= '9') ==> more is Err,
{
    let s = if text@.len() > 0 && text@[0] == '+' {
        text@.skip(1)
    } else {
        text@
    };
    let t = if longer@[0] == '+' {
        longer@.skip(1)
    } else {
        longer@
    };
    leading_digits_bound(s);
    leading_digits_bound(t);
    if text@.len() > 0 {
        assert(longer@[0] == text@[0]);
        assert(t =~= s.push(d));
        if !is_digit(d) {
            assert(t[t.len() - 1] == d);
        }
        if r is Ok && is_digit(d) {
            assert(leading_digits(s) == s.len());
            assert(s.take(s.len() as int) =~= s);
            assert(leading_digits(t) == t.len()) by {
                if leading_digits(t) < t.len() {
                    let i = leading_digits(t) as int;
                    if i < s.len() {
                        assert(t[i] == s[i]);
                    }
                }
            }
            assert(t.take(t.len() as int) =~= t);
            assert(t.drop_last() =~= s);
        }
    } else if !is_digit(d) {
        assert(longer@[0] == d);
    }
}

} // verus!

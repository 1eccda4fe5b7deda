//! Decimal numbers in text: reading unsigned integers, writing them, and
//! recognising the literals that stand for a floating-point number.

use crate::text::{chars_of, eq_ignore_ascii_case, same_ignoring_case};
use vstd::prelude::*;
use vstd::string::*;

verus! {

/// Why a text is no unsigned decimal integer of the wanted width.
#[derive(Debug, Clone, Copy, PartialEq, Eq, Structural)]
pub enum NumberError {
    /// The text is empty.
    Empty,
    /// The text holds something else than digits after an optional `+`.
    InvalidDigit,
    /// The digits stand for a number above the largest one allowed.
    TooLarge,
}

/// Why a text is no floating-point literal.
#[derive(Debug, Clone, Copy, PartialEq, Eq, Structural)]
pub enum FloatError {
    /// The text is empty.
    Empty,
    /// The text does not follow the grammar of a floating-point literal.
    Invalid,
}

pub open spec fn is_digit(c: char) -> bool {
    '0' <= c <= '9'
}

/// The number a decimal digit stands for; 0 for any other character.
pub open spec fn digit_value(c: char) -> nat {
    if is_digit(c) {
        (c as u32 - 0x30) as nat
    } else {
        0
    }
}

/// The decimal digit for `d < 10`.
pub open spec fn digit_char(d: nat) -> char {
    ((0x30 + d % 10) as u8) as char
}

/// Index of the first character at or after `from` that is no digit, or
/// the length of `s` if there is none.
pub open spec fn first_non_digit(s: Seq<char>, from: int) -> int
    decreases s.len() - from,
{
    if from < 0 || from >= s.len() {
        s.len() as int
    } else if !is_digit(s[from]) {
        from
    } else {
        first_non_digit(s, from + 1)
    }
}

/// The number that the digits of `s` write in base ten.
pub open spec fn decimal_value(s: Seq<char>) -> nat
    decreases s.len(),
{
    if s.len() == 0 {
        0
    } else {
        decimal_value(s.drop_last()) * 10 + digit_value(s.last())
    }
}

/// `s` without the `+` that may stand before the digits.
pub open spec fn unsigned_part(s: Seq<char>) -> Seq<char> {
    if s.len() > 0 && s[0] == '+' {
        s.drop_first()
    } else {
        s
    }
}

/// What reading `s` as an unsigned decimal integer of at most `max` gives.
///
/// The text is an optional `+` and then digits only, at least one. The
/// digits are read from the left: a number that has grown beyond `max` is
/// reported before any character behind it is looked at.
pub open spec fn parse_decimal(s: Seq<char>, max: nat) -> Result<nat, NumberError> {
    let d = unsigned_part(s);
    let k = first_non_digit(d, 0);
    if s.len() == 0 {
        Err(NumberError::Empty)
    } else if d.len() == 0 {
        Err(NumberError::InvalidDigit)
    } else if decimal_value(d.take(k)) > max {
        Err(NumberError::TooLarge)
    } else if k < d.len() {
        Err(NumberError::InvalidDigit)
    } else {
        Ok(decimal_value(d))
    }
}

/// The decimal digits of `n`, without leading zeros.
pub open spec fn decimal(n: nat) -> Seq<char>
    decreases n,
{
    if n < 10 {
        seq![digit_char(n)]
    } else {
        decimal(n / 10).push(digit_char(n % 10))
    }
}

pub open spec fn number_error_text(e: NumberError) -> Seq<char> {
    match e {
        NumberError::Empty => "cannot parse integer from empty string"@,
        NumberError::InvalidDigit => "invalid digit found in string"@,
        NumberError::TooLarge => "number too large to fit in target type"@,
    }
}

pub open spec fn float_error_text(e: FloatError) -> Seq<char> {
    match e {
        FloatError::Empty => "cannot parse float from empty string"@,
        FloatError::Invalid => "invalid float literal"@,
    }
}

/// `s` without the sign that may stand first.
pub open spec fn unsigned_float(s: Seq<char>) -> Seq<char> {
    if s.len() > 0 && (s[0] == '+' || s[0] == '-') {
        s.drop_first()
    } else {
        s
    }
}

/// Whether `b` names an infinity or a value that is no number.
pub open spec fn is_float_word(b: Seq<char>) -> bool {
    same_ignoring_case(b, "inf"@) || same_ignoring_case(b, "infinity"@) || same_ignoring_case(
        b,
        "nan"@,
    )
}

/// Where the digits before and after the point of `b` end: the index
/// behind the mantissa.
pub open spec fn mantissa_end(b: Seq<char>) -> int {
    let i = first_non_digit(b, 0);
    if i < b.len() && b[i] == '.' {
        first_non_digit(b, i + 1)
    } else {
        i
    }
}

/// How many digits the mantissa of `b` has.
pub open spec fn mantissa_digits(b: Seq<char>) -> int {
    let i = first_non_digit(b, 0);
    if i < b.len() && b[i] == '.' {
        first_non_digit(b, i + 1) - 1
    } else {
        i
    }
}

/// Whether `b[j..]` is empty or an exponent: `e` or `E`, an optional
/// sign, and digits to the end, at least one.
pub open spec fn is_exponent(b: Seq<char>, j: int) -> bool {
    j == b.len() || {
        let k = if j + 1 < b.len() && (b[j + 1] == '+' || b[j + 1] == '-') {
            j + 2
        } else {
            j + 1
        };
        &&& 0 <= j < b.len()
        &&& (b[j] == 'e' || b[j] == 'E')
        &&& k < b.len()
        &&& first_non_digit(b, k) == b.len()
    }
}

/// Whether `b` is digits with at most one point among them, at least one
/// digit in all, and then an optional exponent.
pub open spec fn is_float_number(b: Seq<char>) -> bool {
    mantissa_digits(b) > 0 && is_exponent(b, mantissa_end(b))
}

/// Whether `s` is a literal of a floating-point number: an optional sign,
/// then `inf`, `infinity` or `nan` in any case, or a decimal number with
/// an optional exponent.
pub open spec fn is_float_literal(s: Seq<char>) -> bool {
    is_float_word(unsigned_float(s)) || is_float_number(unsigned_float(s))
}

/// What checking `s` for a floating-point literal gives.
pub open spec fn check_float(s: Seq<char>) -> Result<(), FloatError> {
    if s.len() == 0 {
        Err(FloatError::Empty)
    } else if is_float_literal(s) {
        Ok(())
    } else {
        Err(FloatError::Invalid)
    }
}

/// The complaint about a number that could not be read: what was to be
/// read, and why it could not.
pub open spec fn number_complaint(what: Seq<char>, e: NumberError) -> Seq<char> {
    "Parse "@ + what + " error: "@ + number_error_text(e)
}

/// The number that `s` stands for as an unsigned decimal integer of at
/// most `max`, or the complaint that names `what` was to be read.
pub open spec fn named_number(what: Seq<char>, s: Seq<char>, max: nat) -> Result<
    nat,
    Seq<char>,
> {
    match parse_decimal(s, max) {
        Ok(n) => Ok(n),
        Err(e) => Err(number_complaint(what, e)),
    }
}

pub proof fn lemma_first_non_digit_bounds(s: Seq<char>, from: int)
    requires
        0 <= from <= s.len(),
    ensures
        from <= first_non_digit(s, from) <= s.len(),
    decreases s.len() - from,
{
    if from < s.len() && is_digit(s[from]) {
        lemma_first_non_digit_bounds(s, from + 1);
    }
}

/// One more character multiplies the value by ten and adds its digit.
pub proof fn lemma_decimal_value_step(s: Seq<char>, j: int)
    requires
        0 <= j < s.len(),
    ensures
        decimal_value(s.take(j + 1)) == decimal_value(s.take(j)) * 10 + digit_value(s[j]),
{
    assert(s.take(j + 1).drop_last() == s.take(j));
}

/// A longer prefix never stands for a smaller number.
pub proof fn lemma_decimal_value_grows(s: Seq<char>, p: int, q: int)
    requires
        0 <= p <= q <= s.len(),
    ensures
        decimal_value(s.take(p)) <= decimal_value(s.take(q)),
    decreases q - p,
{
    if p < q {
        lemma_decimal_value_grows(s, p, q - 1);
        lemma_decimal_value_step(s, q - 1);
    }
}

/// The digits of a number are digits, and they stand for the number.
pub proof fn lemma_decimal_digits(n: nat)
    ensures
        decimal(n).len() > 0,
        forall|i: int| 0 <= i < decimal(n).len() ==> is_digit(#[trigger] decimal(n)[i]),
        decimal_value(decimal(n)) == n,
    decreases n,
{
    if n < 10 {
        assert(decimal(n).drop_last().len() == 0);
        assert(decimal_value(decimal(n).drop_last()) == 0);
        assert(decimal(n).last() == digit_char(n));
    } else {
        lemma_decimal_digits(n / 10);
        let head = decimal(n / 10);
        assert(decimal(n).drop_last() == head);
        assert(decimal(n).last() == digit_char(n % 10));
        assert forall|i: int| 0 <= i < decimal(n).len() implies is_digit(
            #[trigger] decimal(n)[i],
        ) by {
            if i < head.len() {
                assert(decimal(n)[i] == head[i]);
            }
        }
    }
}

/// Where every character is a digit, the first that is none stands at the end.
pub proof fn lemma_all_digits(s: Seq<char>, from: int)
    requires
        0 <= from <= s.len(),
        forall|i: int| 0 <= i < s.len() ==> is_digit(#[trigger] s[i]),
    ensures
        first_non_digit(s, from) == s.len(),
    decreases s.len() - from,
{
    if from < s.len() {
        lemma_all_digits(s, from + 1);
    }
}

/// A number that was written is read back as the same number, as long
/// as it is within the limit.
pub proof fn law_written_is_read_back(n: nat, max: nat)
    requires
        n <= max,
    ensures
        parse_decimal(decimal(n), max) == Ok::<nat, NumberError>(n),
{
    let d = decimal(n);
    lemma_decimal_digits(n);
    lemma_all_digits(d, 0);
    assert(is_digit(d[0]));
    assert(unsigned_part(d) == d);
    assert(d.take(d.len() as int) == d);
}

impl NumberError {
    /// The words that describe this error.
    pub fn message(&self) -> (r: String)
        ensures
            r@ == number_error_text(*self),
    {
        match self {
            NumberError::Empty => String::from_str("cannot parse integer from empty string"),
            NumberError::InvalidDigit => String::from_str("invalid digit found in string"),
            NumberError::TooLarge => String::from_str("number too large to fit in target type"),
        }
    }
}

impl FloatError {
    /// The words that describe this error.
    pub fn message(&self) -> (r: String)
        ensures
            r@ == float_error_text(*self),
    {
        match self {
            FloatError::Empty => String::from_str("cannot parse float from empty string"),
            FloatError::Invalid => String::from_str("invalid float literal"),
        }
    }
}

/// Tells a decimal digit from other characters.
pub fn is_ascii_digit(c: char) -> (r: bool)
    ensures
        r == is_digit(c),
{
    '0' <= c && c <= '9'
}

/// First index at or after `from` that holds no digit.
pub fn skip_digits(cs: &Vec<char>, from: usize) -> (r: usize)
    requires
        from <= cs.len(),
    ensures
        r == first_non_digit(cs@, from as int),
        from <= r <= cs.len(),
{
    let mut i: usize = from;
    while i < cs.len() && is_ascii_digit(cs[i])
        invariant
            from <= i <= cs.len(),
            first_non_digit(cs@, i as int) == first_non_digit(cs@, from as int),
        decreases cs.len() - i,
    {
        i += 1;
    }
    i
}

/// Reads `cs` as an unsigned decimal integer of at most `max`.
pub fn parse_number(cs: &Vec<char>, max: u64) -> (r: Result<u64, NumberError>)
    ensures
        parse_decimal(cs@, max as nat) == (match r {
            Ok(n) => Ok::<nat, NumberError>(n as nat),
            Err(e) => Err(e),
        }),
        r matches Ok(n) ==> n <= max,
{
    if cs.len() == 0 {
        return Err(NumberError::Empty);
    }
    let start: usize = if cs[0] == '+' {
        1
    } else {
        0
    };
    let ghost d = unsigned_part(cs@);
    assert(d == cs@.subrange(start as int, cs.len() as int));
    if start == cs.len() {
        return Err(NumberError::InvalidDigit);
    }
    let mut acc: u64 = 0;
    let mut i: usize = start;
    while i < cs.len()
        invariant
            start <= i <= cs.len(),
            start <= 1,
            d == cs@.subrange(start as int, cs.len() as int),
            d == unsigned_part(cs@),
            acc as nat == decimal_value(d.take(i - start)),
            acc <= max,
            first_non_digit(d, i - start) == first_non_digit(d, 0),
        decreases cs.len() - i,
    {
        let c = cs[i];
        assert(c == d[i - start]);
        if !is_ascii_digit(c) {
            assert(first_non_digit(d, 0) == i - start);
            return Err(NumberError::InvalidDigit);
        }
        let digit: u64 = (c as u32 - 0x30) as u64;
        let next: u128 = acc as u128 * 10 + digit as u128;
        proof {
            lemma_decimal_value_step(d, i - start);
            lemma_first_non_digit_bounds(d, i - start + 1);
            assert(first_non_digit(d, 0) == first_non_digit(d, i - start + 1));
            assert(next == decimal_value(d.take(i - start + 1)));
        }
        if next > max as u128 {
            proof {
                let k = first_non_digit(d, 0);
                lemma_decimal_value_grows(d, i - start + 1, k);
            }
            return Err(NumberError::TooLarge);
        }
        acc = next as u64;
        i += 1;
    }
    assert(d.take(i - start) == d);
    Ok(acc)
}

/// Reads `s` as a `u64`, as `str::parse` does.
pub fn parse_u64(s: &str) -> (r: Result<u64, NumberError>)
    ensures
        parse_decimal(s@, u64::MAX as nat) == (match r {
            Ok(n) => Ok::<nat, NumberError>(n as nat),
            Err(e) => Err(e),
        }),
{
    let cs = chars_of(s);
    parse_number(&cs, u64::MAX)
}

/// Reads `s` as a `u32`, as `str::parse` does.
pub fn parse_u32(s: &str) -> (r: Result<u32, NumberError>)
    ensures
        parse_decimal(s@, u32::MAX as nat) == (match r {
            Ok(n) => Ok::<nat, NumberError>(n as nat),
            Err(e) => Err(e),
        }),
{
    let cs = chars_of(s);
    match parse_number(&cs, 0xffff_ffff) {
        Ok(n) => Ok(n as u32),
        Err(e) => Err(e),
    }
}

/// Reads `s` as a `u8`, as `str::parse` does.
pub fn parse_u8(s: &str) -> (r: Result<u8, NumberError>)
    ensures
        parse_decimal(s@, u8::MAX as nat) == (match r {
            Ok(n) => Ok::<nat, NumberError>(n as nat),
            Err(e) => Err(e),
        }),
{
    let cs = chars_of(s);
    match parse_number(&cs, 0xff) {
        Ok(n) => Ok(n as u8),
        Err(e) => Err(e),
    }
}

/// Reads `s` as a `usize`, as `str::parse` does.
pub fn parse_usize(s: &str) -> (r: Result<usize, NumberError>)
    ensures
        parse_decimal(s@, usize::MAX as nat) == (match r {
            Ok(n) => Ok::<nat, NumberError>(n as nat),
            Err(e) => Err(e),
        }),
{
    let cs = chars_of(s);
    match parse_number(&cs, usize::MAX as u64) {
        Ok(n) => Ok(n as usize),
        Err(e) => Err(e),
    }
}

/// The text of one decimal digit.
fn digit_text(d: u64) -> (r: &'static str)
    requires
        d < 10,
    ensures
        r@ == seq![digit_char(d as nat)],
{
    proof {
        reveal_strlit("0");
        reveal_strlit("1");
        reveal_strlit("2");
        reveal_strlit("3");
        reveal_strlit("4");
        reveal_strlit("5");
        reveal_strlit("6");
        reveal_strlit("7");
        reveal_strlit("8");
        reveal_strlit("9");
    }
    let r = if d == 0 {
        "0"
    } else if d == 1 {
        "1"
    } else if d == 2 {
        "2"
    } else if d == 3 {
        "3"
    } else if d == 4 {
        "4"
    } else if d == 5 {
        "5"
    } else if d == 6 {
        "6"
    } else if d == 7 {
        "7"
    } else if d == 8 {
        "8"
    } else {
        "9"
    };
    assert(r@ =~= seq![digit_char(d as nat)]);
    r
}

/// Writes `n` in decimal digits, as `to_string` does.
pub fn u64_to_string(n: u64) -> (r: String)
    ensures
        r@ == decimal(n as nat),
    decreases n,
{
    if n < 10 {
        String::from_str(digit_text(n))
    } else {
        let mut r = u64_to_string(n / 10);
        r.append(digit_text(n % 10));
        r
    }
}

/// Checks that `s` is a literal of a floating-point number, as the
/// parsers of `f32` and `f64` accept it.
pub fn check_float_literal(s: &str) -> (r: Result<(), FloatError>)
    ensures
        r == check_float(s@),
{
    let cs = chars_of(s);
    if cs.len() == 0 {
        return Err(FloatError::Empty);
    }
    let start: usize = if cs[0] == '+' || cs[0] == '-' {
        1
    } else {
        0
    };
    let body = s.substring_char(start, cs.len());
    assert(body@ == unsigned_float(s@));
    if eq_ignore_ascii_case(body, "inf") || eq_ignore_ascii_case(body, "infinity")
        || eq_ignore_ascii_case(body, "nan") {
        return Ok(());
    }
    let b = chars_of(body);
    let i = skip_digits(&b, 0);
    let (j, digits) = if i < b.len() && b[i] == '.' {
        let j = skip_digits(&b, i + 1);
        (j, j - 1)
    } else {
        (i, i)
    };
    assert(j == mantissa_end(b@) && digits == mantissa_digits(b@));
    if digits == 0 {
        return Err(FloatError::Invalid);
    }
    if j == b.len() {
        return Ok(());
    }
    if b[j] != 'e' && b[j] != 'E' {
        return Err(FloatError::Invalid);
    }
    let k: usize = if j + 1 < b.len() && (b[j + 1] == '+' || b[j + 1] == '-') {
        j + 2
    } else {
        j + 1
    };
    if k >= b.len() {
        return Err(FloatError::Invalid);
    }
    if skip_digits(&b, k) == b.len() {
        Ok(())
    } else {
        Err(FloatError::Invalid)
    }
}

/// The complaint about a number that could not be read.
pub fn complain(what: &str, e: NumberError) -> (r: String)
    ensures
        r@ == number_complaint(what@, e),
{
    let mut r = String::from_str("Parse ");
    r.append(what);
    r.append(" error: ");
    r.append(e.message().as_str());
    r
}

/// Reads `cs` as an unsigned decimal integer of at most `max`; where it
/// is none, the complaint names `what` was to be read.
pub fn read_number(what: &str, cs: &Vec<char>, max: u64) -> (r: Result<u64, String>)
    ensures
        named_number(what@, cs@, max as nat) == (match r {
            Ok(n) => Ok::<nat, Seq<char>>(n as nat),
            Err(reason) => Err(reason@),
        }),
        r matches Ok(n) ==> n <= max,
{
    match parse_number(cs, max) {
        Ok(n) => Ok(n),
        Err(e) => Err(complain(what, e)),
    }
}

} // verus!

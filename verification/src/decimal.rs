use vstd::prelude::*;

verus! {

/// Whether a character is an ASCII decimal digit.
pub open spec fn is_digit(c: char) -> bool {
    '0' <= c && c <= '9'
}

/// The value of an ASCII decimal digit.
pub open spec fn digit_value(c: char) -> int {
    c as int - '0' as int
}

/// Whether every character of a text is an ASCII decimal digit.
pub open spec fn all_digits(text: Seq<char>) -> bool {
    forall|i: int| 0 <= i < text.len() ==> is_digit(#[trigger] text[i])
}

/// The value of a run of decimal digits, most significant first.
pub open spec fn digits_value(text: Seq<char>) -> int
    decreases text.len(),
{
    if text.len() == 0 {
        0
    } else {
        digits_value(text.drop_last()) * 10 + digit_value(text.last())
    }
}

/// The digit character for a value below ten.
pub open spec fn digit_char(d: int) -> char {
    if d == 0 {
        '0'
    } else if d == 1 {
        '1'
    } else if d == 2 {
        '2'
    } else if d == 3 {
        '3'
    } else if d == 4 {
        '4'
    } else if d == 5 {
        '5'
    } else if d == 6 {
        '6'
    } else if d == 7 {
        '7'
    } else if d == 8 {
        '8'
    } else {
        '9'
    }
}

/// The decimal digits of a natural number, without leading zeros.
pub open spec fn decimal_text(n: nat) -> Seq<char>
    decreases n,
{
    if n < 10 {
        seq![digit_char(n as int)]
    } else {
        decimal_text(n / 10).push(digit_char((n % 10) as int))
    }
}

/// The decimal text of an integer, with a leading `-` when it is negative.
pub open spec fn signed_decimal_text(n: int) -> Seq<char> {
    if n < 0 {
        seq!['-'] + decimal_text((-n) as nat)
    } else {
        decimal_text(n as nat)
    }
}

/// The value of an unsigned integer literal as `str::parse` reads it: an optional `+`
/// and then at least one digit.
pub open spec fn unsigned_literal_value(text: Seq<char>) -> Option<int> {
    let body = if text.len() > 0 && text[0] == '+' {
        text.drop_first()
    } else {
        text
    };
    if body.len() > 0 && all_digits(body) {
        Some(digits_value(body))
    } else {
        None
    }
}

/// The value of a signed integer literal as `str::parse` reads it: an optional `+` or
/// `-` and then at least one digit.
pub open spec fn signed_literal_value(text: Seq<char>) -> Option<int> {
    if text.len() > 0 && text[0] == '-' {
        let body = text.drop_first();
        if body.len() > 0 && all_digits(body) {
            Some(-digits_value(body))
        } else {
            None
        }
    } else {
        unsigned_literal_value(text)
    }
}

/// What `str::parse::<u64>` gives for a text.
pub open spec fn parsed_u64(text: Seq<char>) -> Option<u64> {
    match unsigned_literal_value(text) {
        Some(value) => if value <= u64::MAX {
            Some(value as u64)
        } else {
            None
        },
        None => None,
    }
}

/// What `str::parse::<i64>` gives for a text.
pub open spec fn parsed_i64(text: Seq<char>) -> Option<i64> {
    match signed_literal_value(text) {
        Some(value) => if i64::MIN <= value <= i64::MAX {
            Some(value as i64)
        } else {
            None
        },
        None => None,
    }
}

proof fn lemma_digit_char(d: int)
    requires
        0 <= d < 10,
    ensures
        is_digit(digit_char(d)),
        digit_value(digit_char(d)) == d,
{
}

/// Digits never lose value when more digits follow.
proof fn lemma_digits_value_prefix(text: Seq<char>, i: int)
    requires
        all_digits(text),
        0 <= i <= text.len(),
    ensures
        0 <= digits_value(text.subrange(0, i)) <= digits_value(text),
    decreases text.len() - i,
{
    if i < text.len() {
        lemma_digits_value_prefix(text, i + 1);
        let longer = text.subrange(0, i + 1);
        assert(longer.drop_last() =~= text.subrange(0, i));
        assert(is_digit(text[i]));
        lemma_digits_value_nonnegative(text.subrange(0, i));
    } else {
        assert(text.subrange(0, i) =~= text);
        lemma_digits_value_nonnegative(text);
    }
}

proof fn lemma_digits_value_nonnegative(text: Seq<char>)
    requires
        all_digits(text),
    ensures
        digits_value(text) >= 0,
    decreases text.len(),
{
    if text.len() > 0 {
        assert(all_digits(text.drop_last()));
        lemma_digits_value_nonnegative(text.drop_last());
        assert(is_digit(text[text.len() - 1]));
    }
}

/// The decimal text of a number is made of digits and reads back as the number.
pub proof fn lemma_decimal_text_reads_back(n: nat)
    ensures
        decimal_text(n).len() > 0,
        all_digits(decimal_text(n)),
        digits_value(decimal_text(n)) == n,
        decimal_text(n)[0] != '+',
        decimal_text(n)[0] != '-',
    decreases n,
{
    if n < 10 {
        lemma_digit_char(n as int);
        assert(decimal_text(n).drop_last() =~= Seq::<char>::empty());
        assert(digits_value(decimal_text(n)) == digits_value(decimal_text(n).drop_last()) * 10
            + digit_value(decimal_text(n).last()));
    } else {
        lemma_decimal_text_reads_back(n / 10);
        lemma_digit_char((n % 10) as int);
        let text = decimal_text(n);
        assert(text.drop_last() =~= decimal_text(n / 10));
        assert((n / 10) * 10 + n % 10 == n) by (nonlinear_arith);
        assert(text.last() == digit_char((n % 10) as int));
        assert(digits_value(text) == digits_value(text.drop_last()) * 10 + digit_value(text.last()));
        assert(text[0] == decimal_text(n / 10)[0]);
    }
}

/// Parsing the decimal text of a `u64` gives the number back.
pub proof fn law_u64_text_round_trip(n: u64)
    ensures
        parsed_u64(decimal_text(n as nat)) == Some(n),
{
    lemma_decimal_text_reads_back(n as nat);
}

/// Parsing the decimal text of an `i64` gives the number back.
pub proof fn law_i64_text_round_trip(n: i64)
    ensures
        parsed_i64(signed_decimal_text(n as int)) == Some(n),
{
    if n < 0 {
        lemma_decimal_text_reads_back((-n) as nat);
        let text = signed_decimal_text(n as int);
        assert(text.drop_first() =~= decimal_text((-n) as nat));
    } else {
        lemma_decimal_text_reads_back(n as nat);
    }
}

fn digit_of(d: u64) -> (r: char)
    requires
        d < 10,
    ensures
        r == digit_char(d as int),
{
    match d {
        0 => '0',
        1 => '1',
        2 => '2',
        3 => '3',
        4 => '4',
        5 => '5',
        6 => '6',
        7 => '7',
        8 => '8',
        _ => '9',
    }
}

fn push_decimal(out: &mut Vec<char>, n: u64)
    ensures
        final(out)@ == old(out)@ + decimal_text(n as nat),
    decreases n,
{
    if n >= 10 {
        push_decimal(out, n / 10);
    }
    let ghost before = out@;
    out.push(digit_of(n % 10));
    proof {
        if n >= 10 {
            assert(out@ =~= old(out)@ + decimal_text(n as nat));
        } else {
            assert(out@ =~= old(out)@ + decimal_text(n as nat));
        }
    }
}

/// The decimal text of an unsigned number, as `u64::to_string` writes it.
pub fn u64_text(n: u64) -> (r: Vec<char>)
    ensures
        r@ == decimal_text(n as nat),
{
    let mut out: Vec<char> = Vec::new();
    push_decimal(&mut out, n);
    assert(out@ =~= decimal_text(n as nat));
    out
}

/// The decimal text of a signed number, as `i64::to_string` writes it.
pub fn i64_text(n: i64) -> (r: Vec<char>)
    ensures
        r@ == signed_decimal_text(n as int),
{
    let mut out: Vec<char> = Vec::new();
    if n < 0 {
        out.push('-');
        let magnitude: u64 = if n == i64::MIN {
            9223372036854775808u64
        } else {
            (-n) as u64
        };
        push_decimal(&mut out, magnitude);
    } else {
        push_decimal(&mut out, n as u64);
    }
    assert(out@ =~= signed_decimal_text(n as int));
    out
}

fn push_wide_decimal(out: &mut Vec<char>, n: u128)
    ensures
        final(out)@ == old(out)@ + decimal_text(n as nat),
    decreases n,
{
    if n >= 10 {
        push_wide_decimal(out, n / 10);
    }
    out.push(digit_of((n % 10) as u64));
    proof {
        assert(out@ =~= old(out)@ + decimal_text(n as nat));
    }
}

/// The decimal text of a wide signed number, as `i128::to_string` writes it.
pub fn i128_text(n: i128) -> (r: Vec<char>)
    ensures
        r@ == signed_decimal_text(n as int),
{
    let mut out: Vec<char> = Vec::new();
    if n < 0 {
        out.push('-');
        let magnitude: u128 = if n == i128::MIN {
            170141183460469231731687303715884105728u128
        } else {
            (-n) as u128
        };
        push_wide_decimal(&mut out, magnitude);
    } else {
        push_wide_decimal(&mut out, n as u128);
    }
    assert(out@ =~= signed_decimal_text(n as int));
    out
}

/// Reads the run of digits `chars[start..end]`, stopping early once the value passes
/// `u64::MAX`; `None` when a non-digit occurs or the run is empty or too large.
pub(crate) fn read_digits(chars: &Vec<char>, start: usize, end: usize) -> (r: Option<u64>)
    requires
        start <= end <= chars@.len(),
    ensures
        ({
            let body = chars@.subrange(start as int, end as int);
            match r {
                Some(value) => body.len() > 0 && all_digits(body) && value == digits_value(body),
                None => !(body.len() > 0 && all_digits(body) && digits_value(body) <= u64::MAX),
            }
        }),
{
    let ghost body = chars@.subrange(start as int, end as int);
    if start == end {
        return None;
    }
    let mut value: u64 = 0;
    let mut i: usize = start;
    while i < end
        invariant
            start <= i <= end <= chars@.len(),
            body == chars@.subrange(start as int, end as int),
            all_digits(chars@.subrange(start as int, i as int)),
            value == digits_value(chars@.subrange(start as int, i as int)),
        decreases end - i,
    {
        let c = chars[i];
        if !('0' <= c && c <= '9') {
            proof {
                assert(!is_digit(body[i - start]));
            }
            return None;
        }
        let d: u64 = (c as u32 - '0' as u32) as u64;
        let ghost prefix = chars@.subrange(start as int, i + 1);
        proof {
            assert(prefix.drop_last() =~= chars@.subrange(start as int, i as int));
            assert(all_digits(prefix));
        }
        if value > (u64::MAX - d) / 10 {
            proof {
                assert(digits_value(prefix) > u64::MAX) by (nonlinear_arith)
                    requires
                        digits_value(prefix) == value * 10 + d,
                        value > (u64::MAX - d) / 10,
                        d < 10,
                ;
                if all_digits(body) {
                    lemma_digits_value_prefix(body, i + 1 - start);
                    assert(body.subrange(0, i + 1 - start) =~= prefix);
                }
            }
            return None;
        }
        value = value * 10 + d;
        i = i + 1;
    }
    proof {
        assert(chars@.subrange(start as int, i as int) =~= body);
    }
    Some(value)
}

/// The number that `str::parse::<u64>` reads from a text.
pub fn parse_u64_text(text: &str) -> (r: Option<u64>)
    ensures
        r == parsed_u64(text@),
{
    let chars = crate::text::text_chars(text);
    let start: usize = if chars.len() > 0 && chars[0] == '+' {
        1
    } else {
        0
    };
    proof {
        if start == 1 {
            assert(chars@.subrange(1, chars@.len() as int) =~= text@.drop_first());
        } else {
            assert(chars@.subrange(0, chars@.len() as int) =~= text@);
        }
    }
    read_digits(&chars, start, chars.len())
}

/// The number that `str::parse::<i64>` reads from a text.
pub fn parse_i64_text(text: &str) -> (r: Option<i64>)
    ensures
        r == parsed_i64(text@),
{
    let chars = crate::text::text_chars(text);
    let negative = chars.len() > 0 && chars[0] == '-';
    let start: usize = if chars.len() > 0 && (chars[0] == '+' || chars[0] == '-') {
        1
    } else {
        0
    };
    proof {
        if start == 1 {
            assert(chars@.subrange(1, chars@.len() as int) =~= text@.drop_first());
        } else {
            assert(chars@.subrange(0, chars@.len() as int) =~= text@);
        }
    }
    match read_digits(&chars, start, chars.len()) {
        Some(magnitude) => {
            if negative {
                if magnitude <= 9223372036854775807u64 {
                    Some(-(magnitude as i64))
                } else if magnitude == 9223372036854775808u64 {
                    Some(i64::MIN)
                } else {
                    None
                }
            } else if magnitude <= 9223372036854775807u64 {
                Some(magnitude as i64)
            } else {
                None
            }
        },
        None => None,
    }
}

} // verus!

use vstd::prelude::*;

verus! {

/// The largest representable percentage.
pub const MAX_PERCENT: u8 = 100;

/// A whole percentage in the closed range [0, 100].
#[derive(Clone, Copy, Debug, PartialEq, Eq, Structural, PartialOrd, Ord, Hash)]
pub struct Percent(pub u8);

impl Percent {
    /// The value lies in [0, 100].
    pub open spec fn wf(self) -> bool {
        self.0 <= 100
    }

    /// The percentage as a mathematical integer.
    pub open spec fn value(self) -> int {
        self.0 as int
    }

    /// The saturating sum: capped at 100.
    pub open spec fn sum_spec(self, other: Percent) -> Percent {
        if self.0 + other.0 > 100 {
            Percent(100)
        } else {
            Percent((self.0 + other.0) as u8)
        }
    }

    /// The saturating difference: floored at 0.
    pub open spec fn difference_spec(self, other: Percent) -> Percent {
        if self.0 < other.0 {
            Percent(0)
        } else {
            Percent((self.0 - other.0) as u8)
        }
    }

    /// Sum of two percentages, saturating at 100.
    pub fn add(self, other: Percent) -> (r: Percent)
        ensures
            r == self.sum_spec(other),
    {
        if (self.0 as u64) + (other.0 as u64) > 100 {
            Percent(MAX_PERCENT)
        } else {
            Percent(self.0 + other.0)
        }
    }

    /// Difference of two percentages, saturating at 0.
    pub fn sub(self, other: Percent) -> (r: Percent)
        ensures
            r == self.difference_spec(other),
    {
        if self.0 < other.0 {
            Percent(0)
        } else {
            Percent(self.0 - other.0)
        }
    }

    /// The percentage nearest to a whole number: values below 0 give 0,
    /// values above 100 give 100.
    pub fn from_whole(x: i64) -> (r: Percent)
        ensures
            r.wf(),
            x <= 0 ==> r.0 == 0,
            x >= 100 ==> r.0 == 100,
            0 <= x <= 100 ==> r.0 == x,
    {
        if x >= 100 {
            Percent(MAX_PERCENT)
        } else if x >= 0 {
            Percent(x as u8)
        } else {
            Percent(0)
        }
    }
}

/// Why a textual percentage was rejected.
#[derive(Clone, Copy, Debug, PartialEq, Eq, Structural)]
pub enum PercentError {
    /// The text is not a decimal number (after dropping trailing `%` signs).
    InvalidFormat,
    /// The text is a number, but outside the range that the caller accepts.
    OutOfRange,
}

/// A decimal digit character.
pub open spec fn is_digit(c: char) -> bool {
    48 <= c as u32 <= 57
}

/// The value of a decimal digit character.
pub open spec fn digit_value(c: char) -> nat {
    (c as u32 - 48) as nat
}

/// The character of a digit value below ten.
pub open spec fn digit_char(d: nat) -> char {
    if d == 0 { '0' }
    else if d == 1 { '1' }
    else if d == 2 { '2' }
    else if d == 3 { '3' }
    else if d == 4 { '4' }
    else if d == 5 { '5' }
    else if d == 6 { '6' }
    else if d == 7 { '7' }
    else if d == 8 { '8' }
    else { '9' }
}

/// Every character of `s` is a decimal digit.
pub open spec fn all_digits(s: Seq<char>) -> bool {
    forall|i: int| 0 <= i < s.len() ==> is_digit(#[trigger] s[i])
}

/// The number that a string of decimal digits denotes (most significant first).
pub open spec fn decimal_value(s: Seq<char>) -> nat
    decreases s.len(),
{
    if s.len() == 0 {
        0
    } else {
        decimal_value(s.drop_last()) * 10 + digit_value(s.last())
    }
}

/// The shortest decimal spelling of `n`.
pub open spec fn decimal_digits(n: nat) -> Seq<char>
    decreases n,
{
    if n < 10 {
        seq![digit_char(n)]
    } else {
        decimal_digits(n / 10).push(digit_char(n % 10))
    }
}

/// `s` without its trailing `%` signs.
pub open spec fn trim_percent_signs(s: Seq<char>) -> Seq<char>
    decreases s.len(),
{
    if s.len() > 0 && s.last() == '%' {
        trim_percent_signs(s.drop_last())
    } else {
        s
    }
}

/// The digits of a textual percentage: trailing `%` signs and one leading `+` dropped.
pub open spec fn number_part(s: Seq<char>) -> Seq<char> {
    let t = trim_percent_signs(s);
    if t.len() > 0 && t[0] == '+' {
        t.drop_first()
    } else {
        t
    }
}

/// The text denotes a decimal number.
pub open spec fn is_numeric(s: Seq<char>) -> bool {
    number_part(s).len() > 0 && all_digits(number_part(s))
}

/// The number that a numeric text denotes.
pub open spec fn numeric_value(s: Seq<char>) -> nat {
    decimal_value(number_part(s))
}

/// The outcome of reading a percentage from `s`; with `positive`, zero is refused too.
pub open spec fn parse_spec(s: Seq<char>, positive: bool) -> Result<Percent, PercentError> {
    if !is_numeric(s) {
        Err(PercentError::InvalidFormat)
    } else if numeric_value(s) > 100 || (positive && numeric_value(s) == 0) {
        Err(PercentError::OutOfRange)
    } else {
        Ok(Percent(numeric_value(s) as u8))
    }
}

/// The text of a percentage: its decimal value followed by `%`.
pub open spec fn format_spec(p: Percent) -> Seq<char> {
    decimal_digits(p.0 as nat).push('%')
}

/// Reading the digits left to right: the value of one more digit.
proof fn lemma_decimal_value_push(d: Seq<char>, c: char)
    ensures
        decimal_value(d.push(c)) == decimal_value(d) * 10 + digit_value(c),
{
    assert(d.push(c).drop_last() =~= d);
}

/// Dropping trailing `%` signs from a prefix that ends in one.
proof fn lemma_trim_step(s: Seq<char>, end: int)
    requires
        0 < end <= s.len(),
        s[end - 1] == '%',
    ensures
        trim_percent_signs(s.subrange(0, end)) == trim_percent_signs(s.subrange(0, end - 1)),
{
    assert(s.subrange(0, end).drop_last() =~= s.subrange(0, end - 1));
}

/// The one-character text of a digit.
fn digit_text(d: u8) -> (r: &'static str)
    requires
        d < 10,
    ensures
        r@ == seq![digit_char(d as nat)],
{
    proof {
        reveal_strlit("0");
        reveal_strlit("1");
        reveal_strlit("2");
        reveal_strlit("3");
        reveal_strlit("4");
        reveal_strlit("5");
        reveal_strlit("6");
        reveal_strlit("7");
        reveal_strlit("8");
        reveal_strlit("9");
    }
    let r = if d == 0 { "0" }
    else if d == 1 { "1" }
    else if d == 2 { "2" }
    else if d == 3 { "3" }
    else if d == 4 { "4" }
    else if d == 5 { "5" }
    else if d == 6 { "6" }
    else if d == 7 { "7" }
    else if d == 8 { "8" }
    else { "9" };
    assert(r@ =~= seq![digit_char(d as nat)]);
    r
}

impl Percent {
    /// Reads the whole number that `s` spells, ignoring trailing `%` signs and
    /// one leading `+`; a number above 255 is out of range.
    pub fn u8_representation(s: &str) -> (r: Result<u8, PercentError>)
        ensures
            r == (if !is_numeric(s@) {
                Err(PercentError::InvalidFormat)
            } else if numeric_value(s@) > 255 {
                Err(PercentError::OutOfRange)
            } else {
                Ok(numeric_value(s@) as u8)
            }),
    {
        let n = s.unicode_len();
        let mut end: usize = n;
        assert(s@.subrange(0, n as int) =~= s@);
        while end > 0 && s.get_char(end - 1) == '%'
            invariant
                end <= n,
                n == s@.len(),
                trim_percent_signs(s@) == trim_percent_signs(s@.subrange(0, end as int)),
            decreases end,
        {
            proof {
                lemma_trim_step(s@, end as int);
            }
            end = end - 1;
        }
        proof {
            assert(trim_percent_signs(s@) == s@.subrange(0, end as int));
        }
        let mut start: usize = 0;
        if end > 0 && s.get_char(0) == '+' {
            start = 1;
        }
        proof {
            assert(number_part(s@) =~= s@.subrange(start as int, end as int));
        }
        if start == end {
            return Err(PercentError::InvalidFormat);
        }
        let mut acc: u32 = 0;
        let mut i: usize = start;
        while i < end
            invariant
                start <= i <= end,
                end <= s@.len(),
                number_part(s@) == s@.subrange(start as int, end as int),
                all_digits(s@.subrange(start as int, i as int)),
                acc as nat == if decimal_value(s@.subrange(start as int, i as int)) > 256 {
                    256
                } else {
                    decimal_value(s@.subrange(start as int, i as int))
                },
            decreases end - i,
        {
            let c = s.get_char(i);
            if !('0' <= c && c <= '9') {
                proof {
                    let d = number_part(s@);
                    assert(d[i - start] == c);
                }
                return Err(PercentError::InvalidFormat);
            }
            let dv: u32 = (c as u32) - 48;
            proof {
                let prev = s@.subrange(start as int, i as int);
                assert(s@.subrange(start as int, i + 1) =~= prev.push(c));
                lemma_decimal_value_push(prev, c);
            }
            acc = acc * 10 + dv;
            if acc > 256 {
                acc = 256;
            }
            i = i + 1;
        }
        if acc > 255 {
            Err(PercentError::OutOfRange)
        } else {
            Ok(acc as u8)
        }
    }

    /// Reads a percentage in (0, 100].
    pub fn strictly_positive(s: &str) -> (r: Result<Percent, PercentError>)
        ensures
            r == parse_spec(s@, true),
    {
        match Percent::u8_representation(s) {
            Err(e) => Err(e),
            Ok(u) => {
                if u == 0 || u > MAX_PERCENT {
                    Err(PercentError::OutOfRange)
                } else {
                    Ok(Percent(u))
                }
            },
        }
    }

    /// Reads a percentage in [0, 100].
    pub fn valid(s: &str) -> (r: Result<Percent, PercentError>)
        ensures
            r == parse_spec(s@, false),
    {
        match Percent::u8_representation(s) {
            Err(e) => Err(e),
            Ok(u) => {
                if u > MAX_PERCENT {
                    Err(PercentError::OutOfRange)
                } else {
                    Ok(Percent(u))
                }
            },
        }
    }

    /// The text of the percentage: its decimal value followed by `%` (`"42%"`).
    pub fn to_string(&self) -> (r: String)
        ensures
            r@ == format_spec(*self),
    {
        let n = self.0;
        let mut r = String::new();
        if n >= 100 {
            r.append(digit_text(n / 100));
            r.append(digit_text(n / 10 % 10));
        } else if n >= 10 {
            r.append(digit_text(n / 10));
        }
        r.append(digit_text(n % 10));
        proof {
            reveal_strlit("%");
            reveal_with_fuel(decimal_digits, 3);
            let m = n as nat;
            if m >= 100 {
                assert(m / 10 / 10 == m / 100);
                assert((m / 10) % 10 == m / 10 % 10);
            }
            assert(r@ =~= decimal_digits(n as nat));
        }
        r.append("%");
        assert(r@ =~= format_spec(*self));
        r
    }
}

/// Adding and then taking away the same percentage never gives more than
/// the starting value, and both operations stay within [0, 100].
pub proof fn lemma_add_then_sub(a: Percent, b: Percent)
    requires
        a.wf(),
        b.wf(),
    ensures
        a.sum_spec(b).wf(),
        a.difference_spec(b).wf(),
        a.sum_spec(b).difference_spec(b).wf(),
        a.sum_spec(b).difference_spec(b).0 <= a.0,
{
}

/// A digit's character reads back as the digit.
proof fn lemma_digit_char(d: nat)
    requires
        d < 10,
    ensures
        is_digit(digit_char(d)),
        digit_value(digit_char(d)) == d,
{
}

/// The decimal spelling of a number reads back as that number.
proof fn lemma_decimal_digits_read_back(n: nat)
    ensures
        decimal_value(decimal_digits(n)) == n,
        all_digits(decimal_digits(n)),
        decimal_digits(n).len() > 0,
        decimal_digits(n)[0] != '+',
        decimal_digits(n).last() != '%',
    decreases n,
{
    let d = decimal_digits(n);
    lemma_digit_char(n % 10);
    if n < 10 {
        assert(n % 10 == n);
        assert(d.drop_last() =~= Seq::<char>::empty());
        assert(decimal_value(d) == decimal_value(d.drop_last()) * 10 + digit_value(d.last()));
    } else {
        lemma_decimal_digits_read_back(n / 10);
        assert(n / 10 * 10 + n % 10 == n);
        let prefix = decimal_digits(n / 10);
        assert(d.drop_last() =~= prefix);
        assert(decimal_value(d) == decimal_value(prefix) * 10 + digit_value(d.last()));
        assert(d[0] == prefix[0]);
        assert forall|i: int| 0 <= i < d.len() implies is_digit(#[trigger] d[i]) by {
            if i < prefix.len() {
                assert(d[i] == prefix[i]);
            }
        }
    }
}

/// Formatting a percentage and reading the text back gives the same percentage.
pub proof fn lemma_format_then_parse(p: Percent)
    requires
        p.wf(),
    ensures
        parse_spec(format_spec(p), false) == Ok::<Percent, PercentError>(p),
        p.0 > 0 ==> parse_spec(format_spec(p), true) == Ok::<Percent, PercentError>(p),
{
    let d = decimal_digits(p.0 as nat);
    lemma_decimal_digits_read_back(p.0 as nat);
    let f = format_spec(p);
    assert(f.drop_last() =~= d);
    assert(trim_percent_signs(f) == trim_percent_signs(d));
    assert(trim_percent_signs(d) == d);
    assert(number_part(f) == d);
}

} // verus!

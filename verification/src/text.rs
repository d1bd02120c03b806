//! Text as the handlers read and write it: trimming, decimal integers, cookies' parts.
use vstd::prelude::*;

verus! {

broadcast use vstd::string::group_string_axioms;

/// The code points with Unicode's `White_Space` property.
pub open spec fn white_space(c: char) -> bool {
    ||| '\u{9}' <= c <= '\u{d}'
    ||| c == ' '
    ||| c == '\u{85}'
    ||| c == '\u{a0}'
    ||| c == '\u{1680}'
    ||| '\u{2000}' <= c <= '\u{200a}'
    ||| c == '\u{2028}'
    ||| c == '\u{2029}'
    ||| c == '\u{202f}'
    ||| c == '\u{205f}'
    ||| c == '\u{3000}'
}

/// Whether `c` is white space.
pub fn is_white_space(c: char) -> (b: bool)
    ensures
        b == white_space(c),
{
    ('\u{9}' <= c && c <= '\u{d}') || c == ' ' || c == '\u{85}' || c == '\u{a0}' || c == '\u{1680}'
        || ('\u{2000}' <= c && c <= '\u{200a}') || c == '\u{2028}' || c == '\u{2029}'
        || c == '\u{202f}' || c == '\u{205f}' || c == '\u{3000}'
}

/// `s` without its leading white space.
pub open spec fn trimmed_start(s: Seq<char>) -> Seq<char>
    decreases s.len(),
{
    if s.len() > 0 && white_space(s[0]) {
        trimmed_start(s.skip(1))
    } else {
        s
    }
}

/// `s` without its trailing white space.
pub open spec fn trimmed_end(s: Seq<char>) -> Seq<char>
    decreases s.len(),
{
    if s.len() > 0 && white_space(s.last()) {
        trimmed_end(s.drop_last())
    } else {
        s
    }
}

/// `s` without white space at either end.
pub open spec fn trimmed(s: Seq<char>) -> Seq<char> {
    trimmed_end(trimmed_start(s))
}

/// The characters of `s`.
pub fn characters(s: &str) -> (v: Vec<char>)
    ensures
        v@ == s@,
{
    let mut v: Vec<char> = Vec::new();
    for c in it: s.chars()
        invariant
            v@ == s@.take(it.index() as int),
            it.seq() == s@,
    {
        v.push(c);
        assert(s@.take(it.index() + 1) =~= s@.take(it.index() as int).push(c));
    }
    assert(s@.take(s@.len() as int) =~= s@);
    v
}

/// `s` without white space at either end.
pub fn trim(s: &str) -> (r: &str)
    ensures
        r@ == trimmed(s@),
{
    let v = characters(s);
    let mut lo: usize = 0;
    assert(v@.skip(0) =~= v@);
    while lo < v.len() && is_white_space(v[lo])
        invariant
            lo <= v.len(),
            trimmed_start(v@) == trimmed_start(v@.skip(lo as int)),
        decreases v.len() - lo,
    {
        assert(v@.skip(lo as int).skip(1) =~= v@.skip(lo + 1));
        lo = lo + 1;
    }
    let mut hi: usize = v.len();
    assert(trimmed_start(v@) == v@.skip(lo as int));
    assert(v@.subrange(lo as int, hi as int) =~= v@.skip(lo as int));
    while lo < hi && is_white_space(v[hi - 1])
        invariant
            lo <= hi <= v.len(),
            trimmed_end(v@.skip(lo as int)) == trimmed_end(v@.subrange(lo as int, hi as int)),
        decreases hi,
    {
        assert(v@.subrange(lo as int, hi as int).drop_last() =~= v@.subrange(lo as int, hi - 1));
        hi = hi - 1;
    }
    s.substring_char(lo, hi)
}

/// Whether two texts are the same.
pub fn same_text(a: &str, b: &str) -> (same: bool)
    ensures
        same == (a@ == b@),
{
    a.to_owned() == b.to_owned()
}

/// The pieces of `s` between the occurrences of `sep`, in order.
pub open spec fn pieces(s: Seq<char>, sep: char) -> Seq<Seq<char>>
    decreases s.len(),
{
    match s.index_of_first(sep) {
        Some(i) => if 0 <= i < s.len() {
            seq![s.take(i)] + pieces(s.skip(i + 1), sep)
        } else {
            seq![s]
        },
        None => seq![s],
    }
}

/// The position of the first `wanted` in `s`.
pub fn find_char(s: &str, wanted: char) -> (at: Option<usize>)
    ensures
        match at {
            Some(i) => s@.index_of_first(wanted) == Some(i as int) && i < s@.len() && i < usize::MAX,
            None => s@.index_of_first(wanted) is None,
        },
{
    let v = characters(s);
    let mut i: usize = 0;
    while i < v.len()
        invariant
            i <= v.len(),
            v@ == s@,
            forall|j: int| 0 <= j < i ==> v@[j] != wanted,
        decreases v.len() - i,
    {
        if v[i] == wanted {
            proof {
                assert(s@.contains(wanted)) by {
                    assert(s@[i as int] == wanted);
                }
                s@.index_of_first_ensures(wanted);
            }
            return Some(i);
        }
        i = i + 1;
    }
    proof {
        s@.index_of_first_ensures(wanted);
    }
    None
}

/// The part of `s` up to `at` characters.
pub fn prefix(s: &str, at: usize) -> (r: &str)
    requires
        at <= s@.len(),
    ensures
        r@ == s@.take(at as int),
{
    s.substring_char(0, at)
}

/// The part of `s` from `at` characters on.
pub fn suffix(s: &str, at: usize) -> (r: &str)
    requires
        at <= s@.len(),
    ensures
        r@ == s@.skip(at as int),
{
    let len = s.unicode_len();
    s.substring_char(at, len)
}

// ---- decimal integers ----

/// A decimal digit.
pub open spec fn digit(c: char) -> bool {
    '0' <= c <= '9'
}

/// The number that a digit stands for.
pub open spec fn digit_value(c: char) -> int {
    c as int - '0' as int
}

/// The number that a sequence of digits stands for.
pub open spec fn digits_value(s: Seq<char>) -> int
    decreases s.len(),
{
    if s.len() == 0 {
        0
    } else {
        10 * digits_value(s.drop_last()) + digit_value(s.last())
    }
}

/// How many digits `s` starts with.
pub open spec fn leading_digits(s: Seq<char>) -> int
    decreases s.len(),
{
    if s.len() > 0 && digit(s[0]) {
        1 + leading_digits(s.skip(1))
    } else {
        0
    }
}

/// Why a text is not an integer of the wanted range.
#[derive(Clone, Copy, Debug, PartialEq, Eq, Structural)]
pub enum IntParseError {
    /// There is no text.
    Empty,
    /// A character is no digit, and no sign at the start; or there is a sign alone.
    InvalidDigit,
    /// The number is above the range.
    PosOverflow,
    /// The number is below the range.
    NegOverflow,
}

impl IntParseError {
    /// The message that a client is shown.
    pub open spec fn text(self) -> Seq<char> {
        match self {
            IntParseError::Empty => "cannot parse integer from empty string"@,
            IntParseError::InvalidDigit => "invalid digit found in string"@,
            IntParseError::PosOverflow => "number too large to fit in target type"@,
            IntParseError::NegOverflow => "number too small to fit in target type"@,
        }
    }

    /// The message that a client is shown.
    pub fn message(&self) -> (m: &'static str)
        ensures
            m@ == self.text(),
    {
        match self {
            IntParseError::Empty => "cannot parse integer from empty string",
            IntParseError::InvalidDigit => "invalid digit found in string",
            IntParseError::PosOverflow => "number too large to fit in target type",
            IntParseError::NegOverflow => "number too small to fit in target type",
        }
    }
}

/// A sign that an integer may start with.
pub open spec fn sign(c: char) -> bool {
    c == '+' || c == '-'
}

/// The integer from `min` to `max` that `s` writes in decimal: an optional sign, then digits and
/// nothing else. Where the digits run out of the range before a character that is no digit is
/// met, the range is what is reported.
pub open spec fn integer_of(s: Seq<char>, min: int, max: int) -> Result<int, IntParseError> {
    if s.len() == 0 {
        Err(IntParseError::Empty)
    } else if s.len() == 1 && sign(s[0]) {
        Err(IntParseError::InvalidDigit)
    } else {
        let body = if sign(s[0]) {
            s.skip(1)
        } else {
            s
        };
        let count = leading_digits(body);
        let magnitude = digits_value(body.take(count));
        let value = if s[0] == '-' {
            -magnitude
        } else {
            magnitude
        };
        if value > max {
            Err(IntParseError::PosOverflow)
        } else if value < min {
            Err(IntParseError::NegOverflow)
        } else if count < body.len() {
            Err(IntParseError::InvalidDigit)
        } else {
            Ok(value)
        }
    }
}

proof fn lemma_leading_digits(s: Seq<char>, n: int)
    requires
        0 <= n <= s.len(),
        forall|i: int| 0 <= i < n ==> digit(#[trigger] s[i]),
    ensures
        n <= leading_digits(s) <= s.len(),
        n < s.len() && !digit(s[n]) ==> leading_digits(s) == n,
        forall|i: int| 0 <= i < leading_digits(s) ==> digit(#[trigger] s[i]),
    decreases s.len(),
{
    if s.len() > 0 && digit(s[0]) {
        let t = s.skip(1);
        lemma_leading_digits(t, if n > 0 { n - 1 } else { 0 });
        assert forall|i: int| 0 <= i < leading_digits(s) implies digit(#[trigger] s[i]) by {
            if i > 0 {
                assert(digit(t[i - 1]));
            }
        }
        if n > 0 && n < s.len() {
            assert(t[n - 1] == s[n]);
        }
    }
}

proof fn lemma_digits_value_grows(s: Seq<char>, i: int, j: int)
    requires
        0 <= i <= j <= s.len(),
        forall|k: int| 0 <= k < j ==> digit(#[trigger] s[k]),
    ensures
        0 <= digits_value(s.take(i)) <= digits_value(s.take(j)),
    decreases j,
{
    if i < j {
        lemma_digits_value_grows(s, i, j - 1);
        assert(s.take(j).drop_last() =~= s.take(j - 1));
    } else if i > 0 {
        lemma_digits_value_grows(s, i - 1, j - 1);
        assert(s.take(j).drop_last() =~= s.take(j - 1));
    }
}

/// Reads `s` as a decimal integer from `min` to `max`.
pub fn parse_integer(s: &str, min: i64, max: i64) -> (r: Result<i64, IntParseError>)
    requires
        min <= 0 <= max,
    ensures
        match r {
            Ok(n) => integer_of(s@, min as int, max as int) == Ok::<int, IntParseError>(n as int),
            Err(e) => integer_of(s@, min as int, max as int) == Err::<int, IntParseError>(e),
        },
{
    let v = characters(s);
    if v.len() == 0 {
        return Err(IntParseError::Empty);
    }
    let negative = v[0] == '-';
    let signed = negative || v[0] == '+';
    if signed && v.len() == 1 {
        return Err(IntParseError::InvalidDigit);
    }
    let start: usize = if signed {
        1
    } else {
        0
    };
    let ghost body = if signed {
        s@.skip(1)
    } else {
        s@
    };
    let mut i: usize = start;
    let mut acc: i128 = 0;
    assert(body.take(0).len() == 0);
    while i < v.len()
        invariant
            min <= 0 <= max,
            v@ == s@,
            v.len() > 0,
            start == (if signed { 1int } else { 0int }),
            negative == (s@[0] == '-'),
            signed == sign(s@[0]),
            signed ==> v.len() > 1,
            body == (if signed { s@.skip(1) } else { s@ }),
            start <= i <= v.len(),
            forall|k: int| 0 <= k < i - start ==> digit(#[trigger] body[k]),
            acc == (if negative { -digits_value(body.take(i - start)) } else { digits_value(body.take(i - start)) }),
            min <= acc <= max,
        decreases v.len() - i,
    {
        let c = v[i];
        let ghost n = i - start;
        assert(body[n] == c);
        if !('0' <= c && c <= '9') {
            proof {
                lemma_leading_digits(body, n);
            }
            return Err(IntParseError::InvalidDigit);
        }
        let d: i128 = (c as u32 - '0' as u32) as i128;
        assert(body.take(n + 1).drop_last() =~= body.take(n));
        acc = if negative {
            acc * 10 - d
        } else {
            acc * 10 + d
        };
        i = i + 1;
        if acc > max as i128 || acc < min as i128 {
            proof {
                lemma_leading_digits(body, n + 1);
                lemma_digits_value_grows(body, n + 1, leading_digits(body));
            }
            return Err(
                if negative {
                    IntParseError::NegOverflow
                } else {
                    IntParseError::PosOverflow
                },
            );
        }
    }
    proof {
        lemma_leading_digits(body, body.len() as int);
    }
    Ok(acc as i64)
}

/// The decimal digits of `n`.
pub open spec fn digits_of(n: nat) -> Seq<char>
    decreases n,
{
    if n < 10 {
        seq![('0' as int + n) as char]
    } else {
        digits_of(n / 10).push(('0' as int + n % 10) as char)
    }
}

/// `n` in decimal, with a minus sign where it is negative.
pub open spec fn decimal(n: int) -> Seq<char> {
    if n < 0 {
        seq!['-'] + digits_of((-n) as nat)
    } else {
        digits_of(n as nat)
    }
}

fn digit_text(d: u64) -> (s: &'static str)
    requires
        d < 10,
    ensures
        s@ == seq![('0' as int + d) as char],
{
    proof {
        reveal_strlit("0");
        reveal_strlit("1");
        reveal_strlit("2");
        reveal_strlit("3");
        reveal_strlit("4");
        reveal_strlit("5");
        reveal_strlit("6");
        reveal_strlit("7");
        reveal_strlit("8");
        reveal_strlit("9");
    }
    match d {
        0 => "0",
        1 => "1",
        2 => "2",
        3 => "3",
        4 => "4",
        5 => "5",
        6 => "6",
        7 => "7",
        8 => "8",
        _ => "9",
    }
}

fn digits_text(n: u64) -> (s: String)
    ensures
        s@ == digits_of(n as nat),
    decreases n,
{
    if n < 10 {
        digit_text(n).to_owned()
    } else {
        let mut s = digits_text(n / 10);
        s.append(digit_text(n % 10));
        s
    }
}

/// `n` in decimal.
pub fn decimal_text(n: i64) -> (s: String)
    ensures
        s@ == decimal(n as int),
{
    if n < 0 {
        let mut s = "-".to_owned();
        proof {
            reveal_strlit("-");
        }
        let magnitude = digits_text((0 - (n as i128)) as u64);
        s.append(magnitude.as_str());
        assert(s@ =~= decimal(n as int));
        s
    } else {
        digits_text(n as u64)
    }
}

// ---- laws ----

/// Whether `s` is white space alone.
pub open spec fn blank(s: Seq<char>) -> bool {
    forall|i: int| 0 <= i < s.len() ==> white_space(#[trigger] s[i])
}

/// Whether `s` neither starts nor ends with white space.
pub open spec fn tight(s: Seq<char>) -> bool {
    s.len() > 0 ==> !white_space(s[0]) && !white_space(s.last())
}

proof fn lemma_trimmed_start_skips(a: Seq<char>, s: Seq<char>)
    requires
        blank(a),
    ensures
        trimmed_start(a + s) == trimmed_start(s),
    decreases a.len(),
{
    if a.len() > 0 {
        assert((a + s)[0] == a[0]);
        assert((a + s).skip(1) =~= a.skip(1) + s);
        lemma_trimmed_start_skips(a.skip(1), s);
    } else {
        assert(a + s =~= s);
    }
}

proof fn lemma_trimmed_end_skips(s: Seq<char>, b: Seq<char>)
    requires
        blank(b),
    ensures
        trimmed_end(s + b) == trimmed_end(s),
    decreases b.len(),
{
    if b.len() > 0 {
        assert((s + b).last() == b.last());
        assert((s + b).drop_last() =~= s + b.drop_last());
        lemma_trimmed_end_skips(s, b.drop_last());
    } else {
        assert(s + b =~= s);
    }
}

proof fn lemma_trimmed_start_splits(s: Seq<char>) -> (n: int)
    ensures
        0 <= n <= s.len(),
        trimmed_start(s) == s.skip(n),
        blank(s.take(n)),
        n < s.len() ==> !white_space(s[n]),
    decreases s.len(),
{
    if s.len() > 0 && white_space(s[0]) {
        let m = lemma_trimmed_start_splits(s.skip(1));
        assert(s.skip(1).skip(m) =~= s.skip(m + 1));
        assert forall|i: int| 0 <= i < m + 1 implies white_space(#[trigger] s.take(m + 1)[i]) by {
            if i > 0 {
                assert(s.skip(1).take(m)[i - 1] == s[i]);
            }
        }
        m + 1
    } else {
        assert(s.skip(0) =~= s);
        0
    }
}

proof fn lemma_trimmed_end_splits(s: Seq<char>) -> (n: int)
    ensures
        0 <= n <= s.len(),
        trimmed_end(s) == s.take(n),
        blank(s.skip(n)),
        n > 0 ==> !white_space(s[n - 1]),
    decreases s.len(),
{
    if s.len() > 0 && white_space(s.last()) {
        let m = lemma_trimmed_end_splits(s.drop_last());
        assert(s.drop_last().take(m) =~= s.take(m));
        assert forall|i: int| 0 <= i < s.len() - m implies white_space(#[trigger] s.skip(m)[i]) by {
            if i < s.len() - m - 1 {
                assert(s.drop_last().skip(m)[i] == s[m + i]);
            }
        }
        m
    } else {
        assert(s.take(s.len() as int) =~= s);
        s.len() as int
    }
}

/// Trimming leaves a text that neither starts nor ends with white space.
pub proof fn law_trimmed_is_tight(s: Seq<char>)
    ensures
        tight(trimmed(s)),
{
    let n = lemma_trimmed_start_splits(s);
    let t = trimmed_start(s);
    let m = lemma_trimmed_end_splits(t);
    if m > 0 {
        assert(trimmed(s)[0] == t[0] && t[0] == s[n]);
    }
}

/// Trimming changes exactly the texts that start or end with white space.
pub proof fn law_tight_is_trimmed(s: Seq<char>)
    ensures
        trimmed(s) == s <==> tight(s),
{
    law_trimmed_is_tight(s);
}

/// White space around a text does not matter to trimming.
pub proof fn law_padding_is_trimmed(a: Seq<char>, s: Seq<char>, b: Seq<char>)
    requires
        blank(a),
        blank(b),
    ensures
        trimmed(a + s + b) == trimmed(s),
{
    assert(a + s + b =~= a + (s + b));
    lemma_trimmed_start_skips(a, s + b);
    let n = lemma_trimmed_start_splits(s);
    if n < s.len() {
        lemma_trimmed_start_skips(s.take(n), s.skip(n) + b);
        assert(s + b =~= s.take(n) + (s.skip(n) + b));
        assert((s.skip(n) + b)[0] == s[n]);
        assert(trimmed_start(s + b) == s.skip(n) + b);
        lemma_trimmed_end_skips(s.skip(n), b);
    } else {
        assert(s.take(n) =~= s);
        lemma_trimmed_start_skips(s, b);
        lemma_blank_is_trimmed_away(b);
        assert(trimmed_start(s) =~= Seq::<char>::empty());
    }
}

proof fn lemma_blank_is_trimmed_away(s: Seq<char>)
    requires
        blank(s),
    ensures
        trimmed_start(s) == Seq::<char>::empty(),
        trimmed(s) == Seq::<char>::empty(),
{
    let n = lemma_trimmed_start_splits(s);
    assert(trimmed_start(s) =~= Seq::<char>::empty());
}

/// Nothing is left of white space.
pub proof fn law_blank_is_trimmed_away(s: Seq<char>)
    ensures
        blank(s) <==> trimmed(s).len() == 0,
{
    if blank(s) {
        lemma_blank_is_trimmed_away(s);
    }
    let n = lemma_trimmed_start_splits(s);
    let t = trimmed_start(s);
    let m = lemma_trimmed_end_splits(t);
    if trimmed(s).len() == 0 {
        assert(m == 0);
        assert(t.skip(0) =~= t);
        assert(s =~= s.take(n) + t);
        assert forall|i: int| 0 <= i < s.len() implies white_space(#[trigger] s[i]) by {
            if i < n {
                assert(s.take(n)[i] == s[i]);
            } else {
                assert(t.skip(0)[i - n] == s[i]);
            }
        }
    }
}

proof fn lemma_digits_of(n: nat)
    ensures
        digits_of(n).len() > 0,
        digits_value(digits_of(n)) == n,
        forall|i: int| 0 <= i < digits_of(n).len() ==> digit(#[trigger] digits_of(n)[i]),
    decreases n,
{
    let s = digits_of(n);
    if n >= 10 {
        lemma_digits_of(n / 10);
        assert(s.drop_last() =~= digits_of(n / 10));
        assert forall|i: int| 0 <= i < s.len() implies digit(#[trigger] s[i]) by {
            if i < s.len() - 1 {
                assert(digits_of(n / 10)[i] == s[i]);
            }
        }
        assert(s.last() == ('0' as int + n % 10) as char);
    } else {
        assert(s.drop_last() =~= Seq::<char>::empty());
        assert(digits_value(Seq::<char>::empty()) == 0);
        assert(s.last() == ('0' as int + n) as char);
    }
}

proof fn lemma_digits_lead_with_no_zero(n: nat)
    ensures
        n > 0 ==> digits_of(n)[0] != '0',
        digits_of(n).len() > 0,
    decreases n,
{
    if n >= 10 {
        lemma_digits_lead_with_no_zero(n / 10);
        assert(digits_of(n)[0] == digits_of(n / 10)[0]);
    } else {
        assert(digits_of(n)[0] == ('0' as int + n) as char);
    }
}

proof fn lemma_unsigned_reads_back(body: Seq<char>, min: int, max: int)
    requires
        body.len() > 0,
        forall|i: int| 0 <= i < body.len() ==> digit(#[trigger] body[i]),
        min <= digits_value(body) <= max,
    ensures
        integer_of(body, min, max) == Ok::<int, IntParseError>(digits_value(body)),
{
    lemma_leading_digits(body, body.len() as int);
    assert(body.take(body.len() as int) =~= body);
    assert(digit(body[0]));
}

proof fn lemma_negative_reads_back(body: Seq<char>, min: int, max: int)
    requires
        body.len() > 0,
        forall|i: int| 0 <= i < body.len() ==> digit(#[trigger] body[i]),
        min <= -digits_value(body) <= max,
    ensures
        integer_of(seq!['-'] + body, min, max) == Ok::<int, IntParseError>(-digits_value(body)),
{
    lemma_leading_digits(body, body.len() as int);
    assert(body.take(body.len() as int) =~= body);
    assert((seq!['-'] + body).skip(1) =~= body);
    assert((seq!['-'] + body)[0] == '-');
}

/// What is written in decimal is read back as it was.
pub proof fn law_decimal_reads_back(n: int, min: int, max: int)
    requires
        min <= n <= max,
    ensures
        integer_of(decimal(n), min, max) == Ok::<int, IntParseError>(n),
        tight(decimal(n)),
{
    if n < 0 {
        let body = digits_of((-n) as nat);
        lemma_digits_of((-n) as nat);
        lemma_negative_reads_back(body, min, max);
        assert(decimal(n)[0] == '-');
        assert(decimal(n).last() == body[body.len() - 1]);
    } else {
        let body = digits_of(n as nat);
        lemma_digits_of(n as nat);
        lemma_unsigned_reads_back(body, min, max);
        assert(digit(body[0]) && digit(body[body.len() - 1]));
    }
}

/// What is written in decimal can be seen.
pub proof fn lemma_decimal_is_printable(n: int)
    ensures
        forall|i: int| 0 <= i < decimal(n).len() ==> ' ' <= #[trigger] decimal(n)[i] <= '~',
{
    let magnitude: nat = if n < 0 {
        (-n) as nat
    } else {
        n as nat
    };
    lemma_digits_of(magnitude);
    assert forall|i: int| 0 <= i < decimal(n).len() implies ' ' <= #[trigger] decimal(n)[i]
        <= '~' by {
        if n >= 0 {
            assert(digit(digits_of(magnitude)[i]));
        } else if i > 0 {
            assert(digit(digits_of(magnitude)[i - 1]));
        }
    }
}

/// The first place where a character stands is the one before which it does not.
pub proof fn lemma_first_index(s: Seq<char>, c: char, i: int)
    requires
        0 <= i < s.len(),
        s[i] == c,
        forall|j: int| 0 <= j < i ==> #[trigger] s[j] != c,
    ensures
        s.index_of_first(c) == Some(i),
{
    s.index_of_first_ensures(c);
    assert(s.contains(c));
}

/// The pieces of two texts with a separator between them are those of the one and those of the
/// other.
pub proof fn law_pieces_of_joined(a: Seq<char>, sep: char, b: Seq<char>)
    ensures
        pieces(a.push(sep) + b, sep) == pieces(a, sep) + pieces(b, sep),
    decreases a.len(),
{
    let joined = a.push(sep) + b;
    a.index_of_first_ensures(sep);
    match a.index_of_first(sep) {
        Some(i) => {
            assert forall|j: int| 0 <= j < i implies #[trigger] joined[j] != sep by {
                assert(joined[j] == a[j]);
            }
            lemma_first_index(joined, sep, i);
            assert(joined.take(i) =~= a.take(i));
            assert(joined.skip(i + 1) =~= a.skip(i + 1).push(sep) + b);
            law_pieces_of_joined(a.skip(i + 1), sep, b);
            assert(pieces(joined, sep) =~= pieces(a, sep) + pieces(b, sep));
        },
        None => {
            assert forall|j: int| 0 <= j < a.len() implies #[trigger] joined[j] != sep by {
                assert(joined[j] == a[j]);
            }
            lemma_first_index(joined, sep, a.len() as int);
            assert(joined.take(a.len() as int) =~= a);
            assert(joined.skip(a.len() as int + 1) =~= b);
        },
    }
}

/// Whether `s` is made of digits, one at least.
pub open spec fn is_number(s: Seq<char>) -> bool {
    s.len() > 0 && forall|i: int| 0 <= i < s.len() ==> '0' <= #[trigger] s[i] <= '9'
}

/// Digits count by tens: one more digit makes ten times the number and the digit.
pub proof fn law_digits_count_by_ten(s: Seq<char>, c: char)
    ensures
        digits_value(Seq::empty()) == 0,
        digits_value(s.push(c)) == 10 * digits_value(s) + (c as int - '0' as int),
{
    assert(s.push(c).drop_last() =~= s);
}

/// Digits are read as the number that they make, with a plus sign or none; with a minus sign as its
/// negative; and where that is out of the range, as too large or too small.
pub proof fn law_number_is_read(s: Seq<char>, min: int, max: int)
    requires
        is_number(s),
        min <= 0 <= max,
    ensures
        integer_of(s, min, max) == (if digits_value(s) <= max {
            Ok::<int, IntParseError>(digits_value(s))
        } else {
            Err(IntParseError::PosOverflow)
        }),
        integer_of(seq!['+'] + s, min, max) == integer_of(s, min, max),
        integer_of(seq!['-'] + s, min, max) == (if min <= -digits_value(s) {
            Ok::<int, IntParseError>(-digits_value(s))
        } else {
            Err(IntParseError::NegOverflow)
        }),
{
    lemma_leading_digits(s, s.len() as int);
    lemma_digits_value_grows(s, 0, s.len() as int);
    assert(s.take(s.len() as int) =~= s);
    assert('0' <= s[0] <= '9');
    assert((seq!['+'] + s).skip(1) =~= s);
    assert((seq!['-'] + s).skip(1) =~= s);
}

/// A text is no integer where it is empty, where it is a sign alone, and where a character that is
/// no digit stands behind digits, or none. Where those are still in the range, that is the reason,
/// and else that they are not.
pub proof fn law_no_number_is_not_read(
    digits: Seq<char>,
    c: char,
    rest: Seq<char>,
    min: int,
    max: int,
)
    requires
        forall|i: int| 0 <= i < digits.len() ==> '0' <= #[trigger] digits[i] <= '9',
        !('0' <= c <= '9'),
        min <= 0 <= max,
    ensures
        integer_of(Seq::empty(), min, max) == Err::<int, IntParseError>(IntParseError::Empty),
        integer_of(seq!['+'], min, max) == Err::<int, IntParseError>(IntParseError::InvalidDigit),
        integer_of(seq!['-'], min, max) == Err::<int, IntParseError>(IntParseError::InvalidDigit),
        digits_value(digits) <= max && (digits.len() > 0 || c != '+' && c != '-') ==> integer_of(
            digits.push(c) + rest,
            min,
            max,
        ) == Err::<int, IntParseError>(IntParseError::InvalidDigit),
        digits_value(digits) <= max ==> integer_of(seq!['+'] + (digits.push(c) + rest), min, max)
            == Err::<int, IntParseError>(IntParseError::InvalidDigit),
        min <= -digits_value(digits) ==> integer_of(
            seq!['-'] + (digits.push(c) + rest),
            min,
            max,
        ) == Err::<int, IntParseError>(IntParseError::InvalidDigit),
        digits_value(digits) > max ==> integer_of(digits.push(c) + rest, min, max) == Err::<
            int,
            IntParseError,
        >(IntParseError::PosOverflow) && integer_of(seq!['+'] + (digits.push(c) + rest), min, max)
            == Err::<int, IntParseError>(IntParseError::PosOverflow),
        -digits_value(digits) < min ==> integer_of(
            seq!['-'] + (digits.push(c) + rest),
            min,
            max,
        ) == Err::<int, IntParseError>(IntParseError::NegOverflow),
{
    let body = digits.push(c) + rest;
    let n = digits.len() as int;
    assert forall|i: int| 0 <= i < n implies digit(#[trigger] body[i]) by {
        assert(body[i] == digits[i]);
    }
    assert(body[n] == c);
    lemma_leading_digits(body, n);
    assert(body.take(n) =~= digits);
    lemma_digits_value_grows(body, 0, n);
    assert(digits.len() == 0 ==> digits_value(digits) == 0);
    assert(n > 0 ==> digit(body[0]));
    assert((seq!['+'] + body).skip(1) =~= body);
    assert((seq!['-'] + body).skip(1) =~= body);
}

/// A text without the separator is one piece.
pub proof fn law_unseparated_is_one_piece(s: Seq<char>, sep: char)
    requires
        !s.contains(sep),
    ensures
        pieces(s, sep) == seq![s],
{
    s.index_of_first_ensures(sep);
}

/// What is written in decimal is digits, with a minus sign before them where the number is negative;
/// and they start with no zero but where the number is zero, which is one.
pub proof fn law_decimal_is_digits(n: int)
    ensures
        n >= 0 ==> is_number(decimal(n)) && digits_value(decimal(n)) == n,
        n < 0 ==> decimal(n)[0] == '-' && is_number(decimal(n).skip(1)) && digits_value(
            decimal(n).skip(1),
        ) == -n,
        n == 0 ==> decimal(n) == seq!['0'],
        n > 0 ==> decimal(n)[0] != '0',
        n < 0 ==> decimal(n)[1] != '0',
        !decimal(n).contains(';'),
{
    let magnitude: nat = if n < 0 {
        (-n) as nat
    } else {
        n as nat
    };
    let body = digits_of(magnitude);
    lemma_digits_of(magnitude);
    lemma_digits_lead_with_no_zero(magnitude);
    assert forall|i: int| 0 <= i < body.len() implies '0' <= #[trigger] body[i] <= '9' by {
        assert(digit(body[i]));
    }
    if n < 0 {
        assert(decimal(n).skip(1) =~= body);
    }
    if decimal(n).contains(';') {
        let k = choose|k: int| 0 <= k < decimal(n).len() && decimal(n)[k] == ';';
        if n < 0 {
            assert(k > 0 ==> decimal(n)[k] == body[k - 1]);
        } else {
            assert('0' <= body[k] <= '9');
        }
    }
}

} // verus!

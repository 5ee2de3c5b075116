use vstd::prelude::*;

verus! {

/// Why a run of digits could not be read as a count.
#[derive(Clone, Copy, Debug, PartialEq, Eq, Structural)]
pub enum NumError {
    /// There were no characters at all.
    Empty,
    /// A character other than an ASCII digit (or one leading sign).
    InvalidDigit,
    /// The value does not fit the 32-bit signed width.
    Overflow,
}

/// Why a byte-count expression such as `10KB` was rejected.
#[derive(Clone, Copy, Debug, PartialEq, Eq, Structural)]
pub enum ByteSpecError {
    /// The text holds no nonzero digit followed by digits and letters.
    InvalidFormat,
    /// The digits could not be read as a count.
    Count(NumError),
    /// The letters name no known unit.
    UnsupportedUnit,
    /// The count times the unit does not fit 64 bits.
    TooLarge,
}

/// Largest value of a 32-bit signed integer.
pub const I32_MAX: u64 = 2147483647;

/// Bytes in one binary kilo.
pub const KIB: u64 = 1024;

pub open spec fn is_ascii_digit(c: char) -> bool {
    '0' <= c && c <= '9'
}

pub open spec fn is_ascii_letter(c: char) -> bool {
    ('a' <= c && c <= 'z') || ('A' <= c && c <= 'Z')
}

pub open spec fn digit_value(c: char) -> nat {
    (c as u32 - 48) as nat
}

/// Reads `d` left to right as a decimal number, as std's integer parsing does:
/// the first non-digit gives `InvalidDigit`, and the first prefix whose value
/// exceeds `bound` gives `Overflow`.
pub open spec fn scan_value(d: Seq<char>, bound: nat) -> Result<nat, NumError>
    decreases d.len(),
{
    if d.len() == 0 {
        Ok(0)
    } else {
        match scan_value(d.drop_last(), bound) {
            Err(e) => Err(e),
            Ok(v) => if !is_ascii_digit(d.last()) {
                Err(NumError::InvalidDigit)
            } else if v * 10 + digit_value(d.last()) > bound {
                Err(NumError::Overflow)
            } else {
                Ok(v * 10 + digit_value(d.last()))
            },
        }
    }
}

/// A line count as text: an optional sign and decimal digits within the
/// 32-bit signed range. A negative count selects no lines.
pub open spec fn line_count_value(t: Seq<char>) -> Result<nat, NumError> {
    if t.len() == 0 {
        Err(NumError::Empty)
    } else if (t[0] == '-' || t[0] == '+') && t.len() == 1 {
        Err(NumError::InvalidDigit)
    } else if t[0] == '-' {
        match scan_value(t.drop_first(), I32_MAX as nat + 1) {
            Err(e) => Err(e),
            Ok(v) => Ok(0),
        }
    } else if t[0] == '+' {
        scan_value(t.drop_first(), I32_MAX as nat)
    } else {
        scan_value(t, I32_MAX as nat)
    }
}

pub open spec fn to_upper(c: char) -> char {
    if 'a' <= c && c <= 'z' {
        ((c as u32 - 32) as u8) as char
    } else {
        c
    }
}

/// The multiplier of a magnitude letter (already upper case).
pub open spec fn magnitude_factor(c: char) -> Option<nat> {
    if c == 'K' {
        Some(pow(1024, 1))
    } else if c == 'M' {
        Some(pow(1024, 2))
    } else if c == 'G' {
        Some(pow(1024, 3))
    } else if c == 'T' {
        Some(pow(1024, 4))
    } else if c == 'P' {
        Some(pow(1024, 5))
    } else {
        None
    }
}

pub open spec fn pow(b: nat, e: nat) -> nat
    decreases e,
{
    if e == 0 {
        1
    } else {
        b * pow(b, (e - 1) as nat)
    }
}

/// The multiplier of a unit suffix, ignoring ASCII case: `B` is 1, and `K`/`KB`,
/// `M`/`MB`, `G`/`GB`, `T`/`TB`, `P`/`PB` are the powers of 1024.
pub open spec fn unit_factor(u: Seq<char>) -> Option<nat> {
    if u.len() == 1 {
        if to_upper(u[0]) == 'B' {
            Some(1)
        } else {
            magnitude_factor(to_upper(u[0]))
        }
    } else if u.len() == 2 && to_upper(u[1]) == 'B' {
        magnitude_factor(to_upper(u[0]))
    } else {
        None
    }
}

/// The byte count that digits `d` and unit letters `u` stand for. The digits
/// are read before the unit is looked at.
pub open spec fn byte_count_value(d: Seq<char>, u: Seq<char>) -> Result<nat, ByteSpecError> {
    if d.len() == 0 {
        Err(ByteSpecError::Count(NumError::Empty))
    } else {
        match scan_value(d, I32_MAX as nat) {
            Err(e) => Err(ByteSpecError::Count(e)),
            Ok(v) => match unit_factor(u) {
                None => Err(ByteSpecError::UnsupportedUnit),
                Some(f) => if v * f > u64::MAX {
                    Err(ByteSpecError::TooLarge)
                } else {
                    Ok(v * f)
                },
            },
        }
    }
}

pub open spec fn nat_result<E>(r: Result<u64, E>) -> Result<nat, E> {
    match r {
        Ok(v) => Ok(v as nat),
        Err(e) => Err(e),
    }
}

proof fn lemma_scan_error_persists(d: Seq<char>, i: int, bound: nat)
    requires
        0 <= i <= d.len(),
        scan_value(d.take(i), bound) is Err,
    ensures
        scan_value(d, bound) == scan_value(d.take(i), bound),
    decreases d.len() - i,
{
    if i < d.len() {
        assert(d.take(i + 1).drop_last() =~= d.take(i));
        lemma_scan_error_persists(d, i + 1, bound);
    } else {
        assert(d.take(i) =~= d);
    }
}

/// Reads `d[start..]` as a decimal number no larger than `bound`.
pub fn scan_digits(d: &Vec<char>, start: usize, bound: u64) -> (r: Result<u64, NumError>)
    requires
        start <= d@.len(),
        bound <= 0xFFFF_FFFF,
    ensures
        nat_result(r) == scan_value(d@.subrange(start as int, d@.len() as int), bound as nat),
{
    let ghost s = d@.subrange(start as int, d@.len() as int);
    let mut acc: u64 = 0;
    let mut i: usize = start;
    assert(s.take(0) =~= Seq::<char>::empty());
    while i < d.len()
        invariant
            start <= i <= d@.len(),
            s == d@.subrange(start as int, d@.len() as int),
            bound <= 0xFFFF_FFFF,
            acc <= bound,
            scan_value(s.take(i - start), bound as nat) == Ok::<nat, NumError>(acc as nat),
        decreases d@.len() - i,
    {
        let c = d[i];
        let k = (i - start) as usize;
        assert(s.take(k + 1).drop_last() =~= s.take(k as int));
        assert(s.take(k + 1).last() == c);
        if c < '0' || c > '9' {
            proof {
                lemma_scan_error_persists(s, k + 1, bound as nat);
            }
            return Err(NumError::InvalidDigit);
        }
        let v: u64 = acc * 10 + ((c as u32) - 48) as u64;
        if v > bound {
            proof {
                lemma_scan_error_persists(s, k + 1, bound as nat);
            }
            return Err(NumError::Overflow);
        }
        acc = v;
        i = i + 1;
    }
    assert(s.take(i - start) =~= s);
    Ok(acc)
}


/// The characters of `s`, one by one.
pub fn chars_of(s: &str) -> (r: Vec<char>)
    ensures
        r@ == s@,
{
    let n = s.unicode_len();
    let mut r: Vec<char> = Vec::new();
    let mut i: usize = 0;
    while i < n
        invariant
            n == s@.len(),
            i <= n,
            r@ == s@.take(i as int),
        decreases n - i,
    {
        let c = s.get_char(i);
        r.push(c);
        i = i + 1;
        assert(r@ =~= s@.take(i as int));
    }
    assert(r@ =~= s@);
    r
}

/// Reads the argument of the line-count option: an optional sign and decimal
/// digits in the 32-bit signed range; a negative count selects no lines.
pub fn parse_line_count(text: &str) -> (r: Result<u64, NumError>)
    ensures
        nat_result(r) == line_count_value(text@),
{
    let t = chars_of(text);
    if t.len() == 0 {
        return Err(NumError::Empty);
    }
    if (t[0] == '-' || t[0] == '+') && t.len() == 1 {
        return Err(NumError::InvalidDigit);
    }
    assert(t@.subrange(1, t@.len() as int) =~= t@.drop_first());
    assert(t@.subrange(0, t@.len() as int) =~= t@);
    if t[0] == '-' {
        match scan_digits(&t, 1, I32_MAX + 1) {
            Err(e) => Err(e),
            Ok(_) => Ok(0),
        }
    } else if t[0] == '+' {
        scan_digits(&t, 1, I32_MAX)
    } else {
        scan_digits(&t, 0, I32_MAX)
    }
}

pub fn upper_ascii(c: char) -> (r: char)
    ensures
        r == to_upper(c),
{
    if 'a' <= c && c <= 'z' {
        ((c as u32 - 32) as u8) as char
    } else {
        c
    }
}

fn magnitude_of(c: char) -> (r: Option<u64>)
    ensures
        match r {
            Some(f) => magnitude_factor(c) == Some(f as nat),
            None => magnitude_factor(c) is None,
        },
{
    reveal_with_fuel(pow, 6);
    if c == 'K' {
        Some(KIB)
    } else if c == 'M' {
        Some(KIB * KIB)
    } else if c == 'G' {
        Some(KIB * KIB * KIB)
    } else if c == 'T' {
        Some(KIB * KIB * KIB * KIB)
    } else if c == 'P' {
        Some(KIB * KIB * KIB * KIB * KIB)
    } else {
        None
    }
}

/// The multiplier of a unit suffix, or `None` where the suffix is not one of
/// `B`, `K`, `KB`, `M`, `MB`, `G`, `GB`, `T`, `TB`, `P`, `PB` in any case.
pub fn unit_multiplier(u: &Vec<char>) -> (r: Option<u64>)
    ensures
        match r {
            Some(f) => unit_factor(u@) == Some(f as nat),
            None => unit_factor(u@) is None,
        },
{
    if u.len() == 1 {
        let c = upper_ascii(u[0]);
        if c == 'B' {
            Some(1)
        } else {
            magnitude_of(c)
        }
    } else if u.len() == 2 && upper_ascii(u[1]) == 'B' {
        magnitude_of(upper_ascii(u[0]))
    } else {
        None
    }
}

/// The byte count for a run of digits and a unit suffix: the digits as a
/// 32-bit count, times the unit's power of 1024.
pub fn byte_count_of(digits: &Vec<char>, unit: &Vec<char>) -> (r: Result<u64, ByteSpecError>)
    ensures
        nat_result(r) == byte_count_value(digits@, unit@),
{
    if digits.len() == 0 {
        return Err(ByteSpecError::Count(NumError::Empty));
    }
    assert(digits@.subrange(0, digits@.len() as int) =~= digits@);
    let count = match scan_digits(digits, 0, I32_MAX) {
        Err(e) => {
            return Err(ByteSpecError::Count(e));
        },
        Ok(v) => v,
    };
    match unit_multiplier(unit) {
        None => Err(ByteSpecError::UnsupportedUnit),
        Some(f) => match count.checked_mul(f) {
            None => Err(ByteSpecError::TooLarge),
            Some(b) => Ok(b),
        },
    }
}


/// Digits and letters in the shape of a byte count: a nonzero ASCII digit,
/// more ASCII digits, then one or more ASCII letters.
pub open spec fn count_and_unit_shape(d: Seq<char>, u: Seq<char>) -> bool {
    &&& d.len() >= 1
    &&& '1' <= d[0] && d[0] <= '9'
    &&& forall|i: int| 0 <= i < d.len() ==> is_ascii_digit(#[trigger] d[i])
    &&& u.len() >= 1
    &&& forall|i: int| 0 <= i < u.len() ==> is_ascii_letter(#[trigger] u[i])
}

/// The two groups of the leftmost match of `([1-9]\d*)([A-Za-z]+)` in a text.
pub uninterp spec fn count_unit_groups(s: Seq<char>) -> Option<(Seq<char>, Seq<char>)>;

pub open spec fn groups_view(r: Option<(Vec<char>, Vec<char>)>) -> Option<(Seq<char>, Seq<char>)> {
    match r {
        Some(p) => Some((p.0@, p.1@)),
        None => None,
    }
}

/// What any match of the pattern looks like: a nonzero digit first, ASCII
/// letters last; and there is none in a text without a nonzero digit.
pub open spec fn groups_plausible(s: Seq<char>, g: Option<(Seq<char>, Seq<char>)>) -> bool {
    match g {
        None => true,
        Some(p) => {
            &&& p.0.len() >= 1
            &&& '1' <= p.0[0] && p.0[0] <= '9'
            &&& p.1.len() >= 1
            &&& forall|i: int| 0 <= i < p.1.len() ==> is_ascii_letter(#[trigger] p.1[i])
            &&& exists|i: int| 0 <= i < s.len() && '1' <= #[trigger] s[i] && s[i] <= '9'
        },
    }
}

/// A text that is exactly digits then letters is matched whole.
pub open spec fn whole_text_matched(s: Seq<char>, g: Option<(Seq<char>, Seq<char>)>) -> bool {
    forall|d: Seq<char>, u: Seq<char>|
        #![trigger count_and_unit_shape(d, u)]
        s == d + u && count_and_unit_shape(d, u) ==> g == Some((d, u))
}

/// Relies on regex's `Regex::new` and `Regex::captures`: the leftmost match of
/// `([1-9]\d*)([A-Za-z]+)` in `s`, with its two groups as characters.
#[verifier::external_body]
fn find_count_and_unit(s: &str) -> (r: Option<(Vec<char>, Vec<char>)>)
    ensures
        groups_view(r) == count_unit_groups(s@),
        groups_plausible(s@, groups_view(r)),
        whole_text_matched(s@, groups_view(r)),
{
    let re = regex::Regex::new(r"([1-9]\d*)([A-Za-z]+)").unwrap();
    re.captures(s).map(|c| (c[1].chars().collect(), c[2].chars().collect()))
}

/// The result for a byte-count expression, given the groups found in it.
pub open spec fn byte_spec_value(groups: Option<(Seq<char>, Seq<char>)>) -> Result<nat, ByteSpecError> {
    match groups {
        None => Err(ByteSpecError::InvalidFormat),
        Some(p) => byte_count_value(p.0, p.1),
    }
}

/// Reads a byte-count expression such as `10B`, `1KB` or `5gb` into a number
/// of bytes. The count is the leftmost nonzero digit run that is followed by
/// letters, and the letters are its unit.
pub fn parse_byte_spec(spec: &str) -> (r: Result<u64, ByteSpecError>)
    ensures
        nat_result(r) == byte_spec_value(count_unit_groups(spec@)),
        forall|d: Seq<char>, u: Seq<char>|
            #![trigger count_and_unit_shape(d, u)]
            spec@ == d + u && count_and_unit_shape(d, u) ==> nat_result(r) == byte_count_value(
                d,
                u,
            ),
        (forall|i: int| 0 <= i < spec@.len() ==> !('1' <= #[trigger] spec@[i] && spec@[i] <= '9'))
            ==> r == Err::<u64, ByteSpecError>(ByteSpecError::InvalidFormat),
{
    match find_count_and_unit(spec) {
        None => Err(ByteSpecError::InvalidFormat),
        Some(p) => byte_count_of(&p.0, &p.1),
    }
}

} // verus!

use vstd::prelude::*;

use vstd::string::StringExecFns;

use crate::errors::HexDumpError;
use crate::format::DisplayMode;
use crate::render::RenderConfig;

verus! {

/// The multiplier that a suffix stands for: the SI units `K`..`P` (optionally
/// followed by `B`) are powers of 1000, the IEC units `Ki`..`Pi` (optionally
/// followed by `B`) are powers of 1024. Matching is exact and case-sensitive.
pub open spec fn suffix_multiplier(s: Seq<char>) -> Option<u64> {
    if s == seq!['K'] || s == seq!['K', 'B'] {
        Some(1000)
    } else if s == seq!['M'] || s == seq!['M', 'B'] {
        Some(1000000)
    } else if s == seq!['G'] || s == seq!['G', 'B'] {
        Some(1000000000)
    } else if s == seq!['T'] || s == seq!['T', 'B'] {
        Some(1000000000000)
    } else if s == seq!['P'] || s == seq!['P', 'B'] {
        Some(1000000000000000)
    } else if s == seq!['K', 'i'] || s == seq!['K', 'i', 'B'] {
        Some(1024)
    } else if s == seq!['M', 'i'] || s == seq!['M', 'i', 'B'] {
        Some(1048576)
    } else if s == seq!['G', 'i'] || s == seq!['G', 'i', 'B'] {
        Some(1073741824)
    } else if s == seq!['T', 'i'] || s == seq!['T', 'i', 'B'] {
        Some(1099511627776)
    } else if s == seq!['P', 'i'] || s == seq!['P', 'i', 'B'] {
        Some(1125899906842624)
    } else {
        None
    }
}

/// Copies the characters of `s` into a vector.
fn chars_of(s: &str) -> (r: Vec<char>)
    ensures
        r@ == s@,
{
    let n = s.unicode_len();
    let mut r: Vec<char> = Vec::new();
    let mut i: usize = 0;
    while i < n
        invariant
            n == s@.len(),
            i <= n,
            r@ == s@.take(i as int),
        decreases n - i,
    {
        r.push(s.get_char(i));
        i = i + 1;
        assert(r@ =~= s@.take(i as int));
    }
    assert(r@ =~= s@);
    r
}

/// The multiplier of a unit suffix held as characters.
fn multiplier_of_chars(s: &Vec<char>) -> (r: Result<u64, HexDumpError>)
    ensures
        r == (match suffix_multiplier(s@) {
            Some(m) => Ok::<u64, HexDumpError>(m),
            None => Err(HexDumpError::UnknownSuffix),
        }),
{
    let n = s.len();
    if n == 0 || n > 3 {
        assert(suffix_multiplier(s@) is None);
        return Err(HexDumpError::UnknownSuffix);
    }
    let unit = s[0];
    let binary = n >= 2 && s[1] == 'i';
    let well_formed = if binary {
        n == 2 || s[2] == 'B'
    } else {
        n == 1 || (n == 2 && s[1] == 'B')
    };
    if !well_formed {
        assert(suffix_multiplier(s@) is None);
        return Err(HexDumpError::UnknownSuffix);
    }
    let r: Result<u64, HexDumpError> = if binary {
        match unit {
            'K' => Ok(1024),
            'M' => Ok(1048576),
            'G' => Ok(1073741824),
            'T' => Ok(1099511627776),
            'P' => Ok(1125899906842624),
            _ => Err(HexDumpError::UnknownSuffix),
        }
    } else {
        match unit {
            'K' => Ok(1000),
            'M' => Ok(1000000),
            'G' => Ok(1000000000),
            'T' => Ok(1000000000000),
            'P' => Ok(1000000000000000),
            _ => Err(HexDumpError::UnknownSuffix),
        }
    };
    if n == 1 {
        assert(s@ =~= seq![unit]);
    } else if n == 2 {
        assert(s@ =~= seq![unit, s@[1]]);
    } else {
        assert(s@ =~= seq![unit, s@[1], s@[2]]);
    }
    r
}

/// Resolves a unit suffix (`K`, `KB`, `Ki`, `KiB`, ... `P`, `PB`, `Pi`, `PiB`)
/// to its multiplier.
pub fn multiplier_from_suffix(suffix: &str) -> (r: Result<u64, HexDumpError>)
    ensures
        r == (match suffix_multiplier(suffix@) {
            Some(m) => Ok::<u64, HexDumpError>(m),
            None => Err(HexDumpError::UnknownSuffix),
        }),
{
    let chars = chars_of(suffix);
    multiplier_of_chars(&chars)
}

/// The value of `c` as a digit in `base` (8, 10 or 16); hex letters may be
/// either case.
pub open spec fn digit_value(c: char, base: nat) -> Option<nat> {
    let v: Option<nat> = if '0' <= c && c <= '9' {
        Some((c as nat - '0' as nat) as nat)
    } else if 'a' <= c && c <= 'f' {
        Some((c as nat - 'a' as nat + 10) as nat)
    } else if 'A' <= c && c <= 'F' {
        Some((c as nat - 'A' as nat + 10) as nat)
    } else {
        None
    };
    match v {
        Some(d) => if d < base { Some(d) } else { None },
        None => None,
    }
}

pub open spec fn is_digit(c: char, base: nat) -> bool {
    digit_value(c, base) is Some
}

/// The number that a run of digits in `base` denotes, most significant first.
pub open spec fn digits_value(s: Seq<char>, base: nat) -> nat
    decreases s.len(),
{
    if s.len() == 0 {
        0
    } else {
        digits_value(s.drop_last(), base) * base + digit_value(s.last(), base).unwrap_or(0)
    }
}

/// The length of the longest prefix of `s` made of digits in `base`.
pub open spec fn digit_run_len(s: Seq<char>, base: nat) -> nat
    decreases s.len(),
{
    if s.len() > 0 && is_digit(s[0], base) {
        1 + digit_run_len(s.skip(1), base)
    } else {
        0
    }
}

/// The base that the prefix of `s` selects, and the text after the prefix:
/// `0x` selects hexadecimal, a leading `0` followed by more text selects
/// octal, and anything else is decimal.
pub open spec fn split_base(s: Seq<char>) -> (nat, Seq<char>) {
    if s.len() >= 2 && s[0] == '0' && s[1] == 'x' {
        (16, s.skip(2))
    } else if s.len() >= 2 && s[0] == '0' {
        (8, s.skip(1))
    } else {
        (10, s)
    }
}

/// What parsing `s` as a suffixed number gives. The unit suffix is resolved
/// first, then the digit run is checked, then the product must fit in 64 bits.
pub open spec fn parse_suffixed(s: Seq<char>) -> Result<u64, HexDumpError> {
    let (base, rest) = split_base(s);
    let run = digit_run_len(rest, base) as int;
    let digits = rest.take(run);
    let suffix = rest.skip(run);
    let mult: Option<u64> = if suffix.len() == 0 { Some(1u64) } else { suffix_multiplier(suffix) };
    match mult {
        None => Err(HexDumpError::UnknownSuffix),
        Some(m) => if digits.len() == 0 {
            Err(HexDumpError::MalformedNumber)
        } else if digits_value(digits, base) * m > u64::MAX {
            Err(HexDumpError::NumberOverflow)
        } else {
            Ok((digits_value(digits, base) * m) as u64)
        },
    }
}

proof fn lemma_digit_run_len(s: Seq<char>, base: nat, i: int)
    requires
        0 <= i <= s.len(),
        forall|j: int| 0 <= j < i ==> is_digit(#[trigger] s[j], base),
        i == s.len() || !is_digit(s[i], base),
    ensures
        digit_run_len(s, base) == i,
    decreases i,
{
    if i > 0 {
        assert forall|j: int| 0 <= j < i - 1 implies is_digit(#[trigger] s.skip(1)[j], base) by {
            assert(s.skip(1)[j] == s[j + 1]);
        }
        lemma_digit_run_len(s.skip(1), base, i - 1);
    }
}

proof fn lemma_digits_value_grows(s: Seq<char>, base: nat, k: int)
    requires
        0 <= k <= s.len(),
        base >= 1,
    ensures
        digits_value(s.take(k), base) <= digits_value(s, base),
    decreases s.len() - k,
{
    if k < s.len() {
        let t = s.take(k + 1);
        assert(t.drop_last() =~= s.take(k));
        let a = digits_value(s.take(k), base);
        assert(a <= a * base) by (nonlinear_arith)
            requires base >= 1;
        lemma_digits_value_grows(s, base, k + 1);
    } else {
        assert(s.take(k) =~= s);
    }
}

/// The numeric value of a digit character in `base`, if it is one.
fn digit_of(c: char, base: u32) -> (r: Option<u32>)
    requires
        base == 8 || base == 10 || base == 16,
    ensures
        match digit_value(c, base as nat) {
            Some(d) => r == Some(d as u32),
            None => r is None,
        },
{
    let v: u32 = if '0' <= c && c <= '9' {
        (c as u32) - ('0' as u32)
    } else if 'a' <= c && c <= 'f' {
        (c as u32) - ('a' as u32) + 10
    } else if 'A' <= c && c <= 'F' {
        (c as u32) - ('A' as u32) + 10
    } else {
        return None;
    };
    if v < base {
        Some(v)
    } else {
        None
    }
}

/// Parses a decimal, octal (leading `0`) or hexadecimal (leading `0x`)
/// number with an optional unit suffix into a 64-bit magnitude.
pub fn from_suffixed_str(input: &str) -> (r: Result<u64, HexDumpError>)
    ensures
        r == parse_suffixed(input@),
{
    let s = chars_of(input);
    let n = s.len();
    // Determine the number base from the prefix.
    let (base, start): (u32, usize) = if n >= 2 && s[0] == '0' && s[1] == 'x' {
        (16, 2)
    } else if n >= 2 && s[0] == '0' {
        (8, 1)
    } else {
        (10, 0)
    };
    let ghost rest = s@.skip(start as int);
    assert(split_base(s@) == (base as nat, rest));

    // Find the end of the digit run.
    let mut end: usize = start;
    while end < n && digit_of(s[end], base).is_some()
        invariant
            start <= end <= n,
            n == s@.len(),
            rest == s@.skip(start as int),
            base == 8 || base == 10 || base == 16,
            forall|j: int| 0 <= j < end - start ==> is_digit(#[trigger] rest[j], base as nat),
        decreases n - end,
    {
        end = end + 1;
    }
    proof {
        lemma_digit_run_len(rest, base as nat, end - start);
    }
    let ghost digits = rest.take(end - start);

    // Determine the multiplier from the suffix.
    let mult: u64 = if end < n {
        let mut suffix: Vec<char> = Vec::new();
        let mut k: usize = end;
        while k < n
            invariant
                end <= k <= n,
                n == s@.len(),
                suffix@ == s@.subrange(end as int, k as int),
            decreases n - k,
        {
            suffix.push(s[k]);
            k = k + 1;
            assert(suffix@ =~= s@.subrange(end as int, k as int));
        }
        assert(suffix@ =~= rest.skip(end - start));
        match multiplier_of_chars(&suffix) {
            Ok(m) => m,
            Err(e) => return Err(e),
        }
    } else {
        assert(rest.skip(end - start).len() == 0);
        1
    };

    assert(mult >= 1);
    if end == start {
        return Err(HexDumpError::MalformedNumber);
    }

    // Accumulate the digits, stopping as soon as the value leaves 64 bits.
    let mut value: u64 = 0;
    let mut i: usize = start;
    while i < end
        invariant
            start <= i <= end <= n,
            n == s@.len(),
            rest == s@.skip(start as int),
            digits == rest.take(end - start),
            base == 8 || base == 10 || base == 16,
            mult >= 1,
            s@ == input@,
            split_base(s@) == (base as nat, rest),
            digit_run_len(rest, base as nat) == end - start,
            (if rest.skip(end - start).len() == 0 {
                Some(1u64)
            } else {
                suffix_multiplier(rest.skip(end - start))
            }) == Some(mult),
            forall|j: int| 0 <= j < end - start ==> is_digit(#[trigger] rest[j], base as nat),
            value == digits_value(digits.take(i - start), base as nat),
        decreases end - i,
    {
        let d = match digit_of(s[i], base) {
            Some(d) => d,
            None => {
                assert(is_digit(rest[i - start], base as nat));
                return Err(HexDumpError::MalformedNumber);
            },
        };
        assert(digits.take(i - start + 1).drop_last() =~= digits.take(i - start));
        assert(rest[i - start] == s@[i as int]);
        assert(digits.take(i - start + 1).last() == s@[i as int]);
        let next = match value.checked_mul(base as u64) {
            Some(v) => v.checked_add(d as u64),
            None => None,
        };
        match next {
            Some(v) => {
                value = v;
                i = i + 1;
            },
            None => {
                proof {
                    let k = i - start + 1;
                    assert(value as nat * base as nat + d as nat > u64::MAX);
                    assert(digit_value(digits.take(k).last(), base as nat) == Some(d as nat));
                    assert(digits_value(digits.take(k), base as nat) > u64::MAX);
                    lemma_digits_value_grows(digits, base as nat, i - start + 1);
                    assert(digits.take(end - start) =~= digits);
                    let m = mult as nat;
                    let dv = digits_value(digits, base as nat);
                    assert(dv * m >= dv) by (nonlinear_arith)
                        requires m >= 1;
                }
                return Err(HexDumpError::NumberOverflow);
            },
        }
    }
    assert(digits.take(end - start) =~= digits);
    match value.checked_mul(mult) {
        Some(v) => Ok(v),
        None => Err(HexDumpError::NumberOverflow),
    }
}

/// The hint given when an offset or length does not parse.
pub const OFFSET_HINT: &'static str = "Expected a positive decimal, octal or hex integer and an optional suffix.\n[suffixes: Ki[B], Mi[B], Gi[B], Ti[B] Pi[B], K[B], M[B], G[B], T[B], P[B]]";

/// Checks that `v` parses as a suffixed number, giving a hint for the user
/// when it does not.
pub fn is_valid_offset(v: String) -> (r: Result<(), String>)
    ensures
        r is Ok <==> parse_suffixed(v@) is Ok,
        r matches Err(msg) ==> msg@ == OFFSET_HINT@,
{
    match from_suffixed_str(v.as_str()) {
        Ok(_) => Ok(()),
        Err(_) => Err(String::from_str(OFFSET_HINT)),
    }
}

/// The display mode that the three flags select: octal and decimal win over
/// uppercase, and lowercase hexadecimal is the default.
pub open spec fn mode_of_flags(uppercase: bool, octal: bool, decimal: bool) -> DisplayMode {
    if octal && !decimal {
        DisplayMode::Octal
    } else if decimal && !octal {
        DisplayMode::Decimal
    } else if uppercase && !octal && !decimal {
        DisplayMode::HexUpper
    } else {
        DisplayMode::HexLower
    }
}

/// The settings of one run of the dump.
pub struct Config {
    /// How byte values and offsets are written.
    pub mode: DisplayMode,
    /// The number of bytes per row.
    pub width: usize,
    /// The number of bytes skipped before the dump starts.
    pub skip: u64,
    /// The most bytes shown per file.
    pub length: u64,
    /// The files to dump.
    pub filenames: Vec<String>,
}

impl Config {
    /// The part of the settings that drawing a line needs.
    pub fn render_config(&self) -> (r: RenderConfig)
        ensures
            r.mode == self.mode,
            r.row_width == self.width,
    {
        RenderConfig { mode: self.mode, row_width: self.width }
    }
}

/// Selects the display mode from the three flags.
pub fn display_mode(uppercase: bool, octal: bool, decimal: bool) -> (r: DisplayMode)
    ensures
        r == mode_of_flags(uppercase, octal, decimal),
{
    if octal && !decimal {
        DisplayMode::Octal
    } else if decimal && !octal {
        DisplayMode::Decimal
    } else if uppercase && !octal && !decimal {
        DisplayMode::HexUpper
    } else {
        DisplayMode::HexLower
    }
}

/// Parses an optional suffixed value, falling back to `default` when absent.
pub fn value_or(v: Option<&str>, default: u64) -> (r: Result<u64, HexDumpError>)
    ensures
        r == value_or_spec(v, default),
{
    match v {
        Some(s) => from_suffixed_str(s),
        None => Ok(default),
    }
}

/// Builds the settings from the values given on the command line: `skip`
/// defaults to zero and `length` to no limit.
pub fn build_config(
    uppercase: bool,
    octal: bool,
    decimal: bool,
    width: usize,
    skip: Option<&str>,
    length: Option<&str>,
    filenames: Vec<String>,
) -> (r: Result<Config, HexDumpError>)
    ensures
        value_or_spec(skip, 0) is Err ==> r == Err::<Config, HexDumpError>(value_or_spec(skip, 0)->Err_0),
        value_or_spec(skip, 0) is Ok && value_or_spec(length, u64::MAX) is Err ==> r == Err::<Config, HexDumpError>(value_or_spec(length, u64::MAX)->Err_0),
        r is Ok <==> value_or_spec(skip, 0) is Ok && value_or_spec(length, u64::MAX) is Ok,
        r matches Ok(c) ==> {
            &&& c.mode == mode_of_flags(uppercase, octal, decimal)
            &&& c.width == width
            &&& Ok::<u64, HexDumpError>(c.skip) == value_or_spec(skip, 0)
            &&& Ok::<u64, HexDumpError>(c.length) == value_or_spec(length, u64::MAX)
            &&& c.filenames@ == filenames@
        },
{
    let mode = display_mode(uppercase, octal, decimal);
    let skip = match value_or(skip, 0) {
        Ok(v) => v,
        Err(e) => return Err(e),
    };
    let length = match value_or(length, u64::MAX) {
        Ok(v) => v,
        Err(e) => return Err(e),
    };
    Ok(Config { mode, width, skip, length, filenames })
}

/// What `value_or` gives.
pub open spec fn value_or_spec(v: Option<&str>, default: u64) -> Result<u64, HexDumpError> {
    match v {
        Some(s) => parse_suffixed(s@),
        None => Ok(default),
    }
}

} // verus!

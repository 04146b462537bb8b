use vstd::prelude::*;

verus! {

/// Per-request timeout, in seconds, when none is given on the command line.
pub const DEFAULT_TIMEOUT_SECS: u64 = 3;

pub open spec fn is_digit(c: char) -> bool {
    '0' <= c && c <= '9'
}

pub open spec fn digit_value(c: char) -> nat {
    (c as nat - '0' as nat) as nat
}

/// The number that a sequence of decimal digits denotes.
pub open spec fn digits_value(s: Seq<char>) -> nat
    decreases s.len(),
{
    if s.len() == 0 {
        0
    } else {
        digits_value(s.drop_last()) * 10 + digit_value(s.last())
    }
}

/// The digits of an unsigned number in text: an optional leading `+` removed.
pub open spec fn unsigned_digits(s: Seq<char>) -> Seq<char> {
    if s.len() > 0 && s[0] == '+' {
        s.drop_first()
    } else {
        s
    }
}

/// The `u64` that a text denotes: an optional `+` followed by one or more
/// decimal digits and nothing else, whose value fits in 64 bits.
pub open spec fn decimal_u64(s: Seq<char>) -> Option<u64> {
    let d = unsigned_digits(s);
    if d.len() > 0 && (forall|i: int| 0 <= i < d.len() ==> is_digit(#[trigger] d[i]))
        && digits_value(d) <= u64::MAX {
        Some(digits_value(d) as u64)
    } else {
        None
    }
}

/// Errors of the command line that stop the program before any probe.
#[derive(Debug, Clone, Copy, PartialEq, Eq)]
pub enum ConfigError {
    /// The timeout is not a decimal number of seconds that fits in a `u64`.
    InvalidTimeout,
}

/// Where the lines to probe come from.
#[derive(Debug, PartialEq, Eq)]
pub enum InputSource {
    Stdin,
    File(String),
}

/// The input that a positional argument names: `-` for standard input,
/// anything else a file path.
pub fn input_source(arg: &str) -> (r: InputSource)
    ensures
        arg@ == seq!['-'] ==> r == InputSource::Stdin,
        arg@ != seq!['-'] ==> (r matches InputSource::File(p) && p@ == arg@),
{
    if arg.unicode_len() == 1 && arg.get_char(0) == '-' {
        assert(arg@ =~= seq!['-']);
        InputSource::Stdin
    } else {
        InputSource::File(String::from_str(arg))
    }
}

/// Appending a digit never makes the value smaller.
proof fn lemma_digits_value_grows(s: Seq<char>, c: char)
    requires
        is_digit(c),
    ensures
        digits_value(s.push(c)) >= digits_value(s),
{
    assert(s.push(c).drop_last() =~= s);
}

/// A prefix of a sequence of digits denotes no more than the whole.
proof fn lemma_digits_value_prefix(s: Seq<char>, n: int)
    requires
        0 <= n <= s.len(),
        forall|i: int| 0 <= i < s.len() ==> is_digit(#[trigger] s[i]),
    ensures
        digits_value(s.subrange(0, n)) <= digits_value(s),
    decreases s.len() - n,
{
    if n < s.len() {
        let p = s.subrange(0, n);
        assert(s.subrange(0, n + 1) =~= p.push(s[n]));
        lemma_digits_value_grows(p, s[n]);
        lemma_digits_value_prefix(s, n + 1);
    } else {
        assert(s.subrange(0, n) =~= s);
    }
}

/// The number of seconds that a timeout argument gives; without an
/// argument, the default of three seconds.
pub fn parse_timeout(arg: Option<&str>) -> (r: Result<u64, ConfigError>)
    ensures
        arg is None ==> r == Ok::<u64, ConfigError>(DEFAULT_TIMEOUT_SECS),
        arg matches Some(s) ==> match decimal_u64(s@) {
            Some(v) => r == Ok::<u64, ConfigError>(v),
            None => r == Err::<u64, ConfigError>(ConfigError::InvalidTimeout),
        },
{
    match arg {
        None => Ok(DEFAULT_TIMEOUT_SECS),
        Some(s) => match parse_decimal_u64(s) {
            Some(v) => Ok(v),
            None => Err(ConfigError::InvalidTimeout),
        },
    }
}

/// Reads an unsigned decimal number: an optional `+`, then digits only.
pub fn parse_decimal_u64(s: &str) -> (r: Option<u64>)
    ensures
        r == decimal_u64(s@),
{
    let len = s.unicode_len();
    let mut start: usize = 0;
    if len > 0 && s.get_char(0) == '+' {
        start = 1;
    }
    let ghost d = unsigned_digits(s@);
    assert(d =~= s@.subrange(start as int, len as int));
    if start == len {
        return None;
    }
    let mut acc: u64 = 0;
    let mut i: usize = start;
    while i < len
        invariant
            start <= i <= len,
            len == s@.len(),
            d == s@.subrange(start as int, len as int),
            d == unsigned_digits(s@),
            forall|k: int| 0 <= k < i - start ==> is_digit(#[trigger] d[k]),
            acc as nat == digits_value(d.subrange(0, i - start)),
        decreases len - i,
    {
        let c = s.get_char(i);
        let ghost p = d.subrange(0, i - start);
        assert(d.subrange(0, i - start + 1) =~= p.push(c));
        assert(p.push(c).drop_last() =~= p);
        if !('0' <= c && c <= '9') {
            assert(!is_digit(d[i - start]));
            return None;
        }
        let v = (c as u32 - '0' as u32) as u64;
        let next = match acc.checked_mul(10) {
            Some(m) => m.checked_add(v),
            None => None,
        };
        match next {
            Some(n) => {
                acc = n;
            },
            None => {
                proof {
                    let q = d.subrange(0, i - start + 1);
                    assert(digits_value(q) == acc as nat * 10 + v as nat);
                    if decimal_u64(s@) is Some {
                        lemma_digits_value_prefix(d, i - start + 1);
                    }
                }
                return None;
            },
        }
        i = i + 1;
    }
    assert(d.subrange(0, len - start) =~= d);
    Some(acc)
}

} // verus!

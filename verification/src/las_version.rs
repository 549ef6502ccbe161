use crate::error::Error;
use vstd::prelude::*;
use vstd::string::{StringExecFns, StringSliceAdditionalSpecFns};

verus! {

/// A supported `(major, minor)` pair: 1.0 through 1.4.
pub open spec fn spec_version_allowed(major: u8, minor: u8) -> bool {
    major == 1 && minor <= 4
}

/// An ASCII decimal digit.
pub open spec fn spec_is_digit(b: u8) -> bool {
    48 <= b <= 57
}

/// The value of a sequence of ASCII digits, most significant first.
pub open spec fn spec_digits_value(s: Seq<u8>) -> int
    decreases s.len(),
{
    if s.len() == 0 {
        0
    } else {
        spec_digits_value(s.drop_last()) * 10 + (s.last() - 48)
    }
}

/// Every byte of the sequence is an ASCII digit.
pub open spec fn spec_all_digits(s: Seq<u8>) -> bool {
    forall|i: int| 0 <= i < s.len() ==> spec_is_digit(#[trigger] s[i])
}

/// What a byte sequence parses to as an 8-bit number: at least one digit,
/// digits only, and a value that fits.
pub open spec fn spec_parse_u8(s: Seq<u8>) -> Option<u8> {
    if s.len() >= 1 && spec_all_digits(s) && spec_digits_value(s) <= 255 {
        Some(spec_digits_value(s) as u8)
    } else {
        None
    }
}

/// The position of the first dot at or after `i`.
pub open spec fn spec_first_dot_from(s: Seq<u8>, i: int) -> Option<int>
    decreases s.len() - i,
    when 0 <= i <= s.len()
{
    if i >= s.len() {
        None
    } else if s[i] == 46 {
        Some(i)
    } else {
        spec_first_dot_from(s, i + 1)
    }
}

/// What a byte sequence parses to as a version: exactly one dot, and an
/// 8-bit number on each side of it.
pub open spec fn spec_parse_version(s: Seq<u8>) -> Option<(u8, u8)> {
    match spec_first_dot_from(s, 0) {
        None => None,
        Some(dot) => {
            if spec_first_dot_from(s, dot + 1) is Some {
                None
            } else {
                match (spec_parse_u8(s.take(dot)), spec_parse_u8(s.skip(dot + 1))) {
                    (Some(major), Some(minor)) => Some((major, minor)),
                    _ => None,
                }
            }
        },
    }
}

/// A dot at `k`, with none between `i` and `k`, is the first dot from `i`.
proof fn lemma_first_dot_found(s: Seq<u8>, i: int, k: int)
    requires
        0 <= i <= k < s.len(),
        s[k] == 46,
        forall|j: int| i <= j < k ==> s[j] != 46,
    ensures
        spec_first_dot_from(s, i) == Some(k),
    decreases k - i,
{
    if i < k {
        lemma_first_dot_found(s, i + 1, k);
    }
}

/// No dot at or after `i` means no first dot from `i`.
proof fn lemma_first_dot_none(s: Seq<u8>, i: int)
    requires
        0 <= i <= s.len(),
        forall|j: int| i <= j < s.len() ==> s[j] != 46,
    ensures
        spec_first_dot_from(s, i) is None,
    decreases s.len() - i,
{
    if i < s.len() {
        lemma_first_dot_none(s, i + 1);
    }
}

/// Parse the byte range `[start, end)` as an 8-bit decimal number: `None`
/// where the range is empty, holds a non-digit, or exceeds 255.
fn parse_u8_range(bytes: &[u8], start: usize, end: usize) -> (r: Option<u8>)
    requires
        start <= end <= bytes@.len(),
    ensures
        r == spec_parse_u8(bytes@.subrange(start as int, end as int)),
{
    let ghost sub = bytes@.subrange(start as int, end as int);
    if start == end {
        return None;
    }
    let mut acc: u16 = 0;
    let mut i: usize = start;
    while i < end
        invariant
            start <= i <= end <= bytes@.len(),
            end > start,
            sub == bytes@.subrange(start as int, end as int),
            spec_all_digits(sub.take(i - start)),
            acc <= 256,
            acc as int == crate::pointcloud::spec_min2(spec_digits_value(sub.take(i - start)), 256),
        decreases end - i,
    {
        let b = bytes[i];
        let ghost k = i - start;
        proof {
            assert(sub.take(k + 1).drop_last() =~= sub.take(k as int));
            assert(sub.take(k + 1).last() == sub[k as int]);
            assert(sub[k as int] == bytes@[i as int]);
        }
        if b < 48 || b > 57 {
            proof {
                assert(!spec_is_digit(sub[k as int]));
            }
            return None;
        }
        let t: u16 = acc * 10 + (b - 48) as u16;
        acc = if t > 255 {
            256
        } else {
            t
        };
        i = i + 1;
    }
    proof {
        assert(sub.take(end - start) =~= sub);
    }
    if acc > 255 {
        None
    } else {
        Some(acc as u8)
    }
}

/// An output format version, validated to one this library can write.
#[derive(Clone, Copy, Debug, PartialEq, Eq, Structural)]
pub struct Version {
    /// The major number; always 1.
    pub major: u8,
    /// The minor number; 0 through 4.
    pub minor: u8,
}

impl Version {
    /// Validate a `(major, minor)` pair: `Ok` exactly for versions 1.0
    /// through 1.4.
    pub fn new(major: u8, minor: u8) -> (r: Result<Version, Error>)
        ensures
            r is Ok <==> spec_version_allowed(major, minor),
            r is Ok ==> r->Ok_0 == (Version { major, minor }),
            r is Err ==> r->Err_0 is InvalidLasVersion,
    {
        if !(major == 1 && minor <= 4) {
            return Err(
                Error::InvalidLasVersion(
                    String::from_str("must be between ").concat(
                        format_version((1, 0)).as_str(),
                    ).concat(" and ").concat(format_version((1, 4)).as_str()),
                ),
            );
        }
        Ok(Version { major, minor })
    }

    /// Parse a version from text in the form `major.minor` (for example
    /// `1.4`) and validate it. `Ok` exactly where the text holds one dot,
    /// an 8-bit decimal number on each side, and the pair is supported.
    pub fn try_from(value: &str) -> (r: Result<Version, Error>)
        ensures
            (match spec_parse_version(value.spec_bytes()) {
                Some((major, minor)) => {
                    &&& r is Ok <==> spec_version_allowed(major, minor)
                    &&& r is Ok ==> r->Ok_0 == (Version { major, minor })
                },
                None => r is Err,
            }),
            r is Err ==> r->Err_0 is InvalidLasVersion,
    {
        let bytes = value.as_bytes();
        let n = bytes.len();
        let mut dot: Option<usize> = None;
        let mut i: usize = 0;
        while i < n
            invariant
                0 <= i <= n == bytes@.len(),
                bytes@ == value.spec_bytes(),
                (match dot {
                    None => forall|j: int| 0 <= j < i ==> bytes@[j] != 46,
                    Some(k) => {
                        &&& 0 <= k < i
                        &&& bytes@[k as int] == 46
                        &&& forall|j: int| 0 <= j < k ==> bytes@[j] != 46
                        &&& forall|j: int| k < j < i ==> bytes@[j] != 46
                    },
                }),
            decreases n - i,
        {
            if bytes[i] == 46 {
                match dot {
                    None => {
                        dot = Some(i);
                    },
                    Some(k) => {
                        // A second dot: the text is not `major.minor`.
                        proof {
                            lemma_first_dot_found(bytes@, 0, k as int);
                            lemma_first_dot_found(bytes@, k + 1, i as int);
                        }
                        return Err(
                            Error::InvalidLasVersion(
                                "expected format `major.minor` (e.g. 1.4)".to_owned(),
                            ),
                        );
                    },
                }
            }
            i = i + 1;
        }
        let k = match dot {
            None => {
                proof {
                    lemma_first_dot_none(bytes@, 0);
                }
                return Err(
                    Error::InvalidLasVersion("expected format `major.minor` (e.g. 1.4)".to_owned()),
                );
            },
            Some(k) => k,
        };
        proof {
            lemma_first_dot_found(bytes@, 0, k as int);
            lemma_first_dot_none(bytes@, k + 1);
            assert(bytes@.subrange(0, k as int) =~= bytes@.take(k as int));
            assert(bytes@.subrange(k + 1, n as int) =~= bytes@.skip(k + 1));
        }
        let major = match parse_u8_range(bytes, 0, k) {
            Some(v) => v,
            None => {
                return Err(Error::InvalidLasVersion("invalid major number".to_owned()));
            },
        };
        let minor = match parse_u8_range(bytes, k + 1, n) {
            Some(v) => v,
            None => {
                return Err(Error::InvalidLasVersion("invalid minor number".to_owned()));
            },
        };
        Version::new(major, minor)
    }
}

/// The character of one decimal digit.
pub open spec fn spec_digit_char(d: int) -> char
    recommends
        0 <= d <= 9,
{
    if d == 0 {
        '0'
    } else if d == 1 {
        '1'
    } else if d == 2 {
        '2'
    } else if d == 3 {
        '3'
    } else if d == 4 {
        '4'
    } else if d == 5 {
        '5'
    } else if d == 6 {
        '6'
    } else if d == 7 {
        '7'
    } else if d == 8 {
        '8'
    } else {
        '9'
    }
}

/// The decimal digits of an 8-bit number, most significant first and
/// without leading zeros.
pub open spec fn spec_u8_chars(n: int) -> Seq<char>
    recommends
        0 <= n <= 255,
{
    if n >= 100 {
        seq![spec_digit_char(n / 100), spec_digit_char(n / 10 % 10), spec_digit_char(n % 10)]
    } else if n >= 10 {
        seq![spec_digit_char(n / 10), spec_digit_char(n % 10)]
    } else {
        seq![spec_digit_char(n)]
    }
}

/// The text of a `(major, minor)` version: the two numbers in decimal,
/// joined by a dot.
pub open spec fn spec_format_version(major: int, minor: int) -> Seq<char>
    recommends
        0 <= major <= 255,
        0 <= minor <= 255,
{
    spec_u8_chars(major) + seq!['.'] + spec_u8_chars(minor)
}

/// The text of one decimal digit.
fn digit_str(d: u8) -> (r: &'static str)
    requires
        d <= 9,
    ensures
        r@ == seq![spec_digit_char(d as int)],
{
    proof {
        reveal_strlit("0");
        reveal_strlit("1");
        reveal_strlit("2");
        reveal_strlit("3");
        reveal_strlit("4");
        reveal_strlit("5");
        reveal_strlit("6");
        reveal_strlit("7");
        reveal_strlit("8");
        reveal_strlit("9");
    }
    match d {
        0 => "0",
        1 => "1",
        2 => "2",
        3 => "3",
        4 => "4",
        5 => "5",
        6 => "6",
        7 => "7",
        8 => "8",
        _ => "9",
    }
}

/// The decimal text of an 8-bit number.
fn u8_string(n: u8) -> (r: String)
    ensures
        r@ == spec_u8_chars(n as int),
{
    let mut s = String::new();
    if n >= 100 {
        s.append(digit_str(n / 100));
        s.append(digit_str(n / 10 % 10));
        s.append(digit_str(n % 10));
    } else if n >= 10 {
        s.append(digit_str(n / 10));
        s.append(digit_str(n % 10));
    } else {
        s.append(digit_str(n));
    }
    proof {
        assert(s@ =~= spec_u8_chars(n as int));
    }
    s
}

/// Format a `(major, minor)` version pair as `major.minor`.
pub fn format_version(version: (u8, u8)) -> (r: String)
    ensures
        r@ == spec_format_version(version.0 as int, version.1 as int),
{
    let (major, minor) = version;
    proof {
        reveal_strlit(".");
    }
    let mut s = u8_string(major);
    s.append(".");
    let minor_text = u8_string(minor);
    s.append(minor_text.as_str());
    proof {
        assert(s@ =~= spec_format_version(major as int, minor as int));
    }
    s
}

} // verus!

//! Exact structured extraction of the `"challenge"` member from
//! client-data JSON text.
//!
//! The text must be valid UTF-8 and parse as a JSON object whose members
//! are scanned left to right; the first member keyed `"challenge"` must
//! hold a string value, whose raw bytes (escape sequences are kept as
//! written, not unescaped — a base64url challenge never needs escaping)
//! are the extracted challenge text.  Values of other members are skipped
//! structurally: strings with escape handling, nested objects and arrays by
//! bracket depth (closing brackets are not matched against their opener),
//! and primitive tokens up to the next delimiter, without validating their
//! own syntax.  A comma after a member may be followed by the closing
//! brace.  Bytes after the object's closing brace are ignored.  This is an
//! exact byte-level grammar, not a substring heuristic.

use vstd::prelude::*;

use crate::base64_url;
use crate::errors::AuthError;

verus! {

/// JSON insignificant whitespace.
pub open spec fn is_json_ws(c: u8) -> bool {
    c == 32 || c == 9 || c == 10 || c == 13
}

/// A UTF-8 continuation byte.
pub open spec fn is_cont(b: u8) -> bool {
    0x80 <= b <= 0xBF
}

/// Whether `s` is well-formed UTF-8 (RFC 3629: no surrogates, no overlong
/// forms, no code points above U+10FFFF).
pub open spec fn is_utf8(s: Seq<u8>) -> bool
    decreases s.len(),
{
    if s.len() == 0 {
        true
    } else {
        let b0 = s[0];
        if b0 < 0x80 {
            is_utf8(s.skip(1))
        } else if 0xC2 <= b0 <= 0xDF {
            if s.len() < 2 {
                false
            } else {
                is_cont(s[1]) && is_utf8(s.skip(2))
            }
        } else if b0 == 0xE0 {
            if s.len() < 3 {
                false
            } else {
                0xA0 <= s[1] <= 0xBF && is_cont(s[2]) && is_utf8(s.skip(3))
            }
        } else if 0xE1 <= b0 <= 0xEC {
            if s.len() < 3 {
                false
            } else {
                is_cont(s[1]) && is_cont(s[2]) && is_utf8(s.skip(3))
            }
        } else if b0 == 0xED {
            if s.len() < 3 {
                false
            } else {
                0x80 <= s[1] <= 0x9F && is_cont(s[2]) && is_utf8(s.skip(3))
            }
        } else if 0xEE <= b0 <= 0xEF {
            if s.len() < 3 {
                false
            } else {
                is_cont(s[1]) && is_cont(s[2]) && is_utf8(s.skip(3))
            }
        } else if b0 == 0xF0 {
            if s.len() < 4 {
                false
            } else {
                0x90 <= s[1] <= 0xBF && is_cont(s[2]) && is_cont(s[3]) && is_utf8(s.skip(4))
            }
        } else if 0xF1 <= b0 <= 0xF3 {
            if s.len() < 4 {
                false
            } else {
                is_cont(s[1]) && is_cont(s[2]) && is_cont(s[3]) && is_utf8(s.skip(4))
            }
        } else if b0 == 0xF4 {
            if s.len() < 4 {
                false
            } else {
                0x80 <= s[1] <= 0x8F && is_cont(s[2]) && is_cont(s[3]) && is_utf8(s.skip(4))
            }
        } else {
            false
        }
    }
}

/// The bytes of the member key `"challenge"`.
pub open spec fn challenge_key() -> Seq<u8> {
    seq![99u8, 104u8, 97u8, 108u8, 108u8, 101u8, 110u8, 103u8, 101u8]
}

/// Outcome of scanning the top-level object for the `"challenge"` member.
pub enum Extraction {
    /// The member exists with a string value holding these raw bytes.
    Found(Seq<u8>),
    /// The object is well formed but has no `"challenge"` member.
    Missing,
    /// The text is not well-formed enough to parse.
    Malformed,
}

/// Scanner state: where in the object grammar the next byte falls.
pub enum SMode {
    /// Before the opening `{`.
    ExpectObj,
    /// Before a member key or the closing `}`.
    ExpectKeyOrEnd,
    /// Inside a member key string that opened at `start`.
    Key { start: int, esc: bool },
    /// Between a key and its `:`; the key was `"challenge"` iff `challenge`.
    ExpectColon { challenge: bool },
    /// Before a member value.
    ExpectValue { challenge: bool },
    /// Inside a string value that opened at `start`.
    StrVal { challenge: bool, start: int, esc: bool },
    /// Inside a primitive (non-string, non-container) value.
    PrimVal,
    /// Inside a skipped object or array, `depth` brackets deep.
    Container { depth: int, in_str: bool, esc: bool },
    /// After a member value, before `,` or `}`.
    ExpectCommaOrEnd,
}

/// One-byte-at-a-time scan of `s` from position `i` in state `m`.
pub open spec fn scan(s: Seq<u8>, i: int, m: SMode) -> Extraction
    decreases s.len() - i,
{
    if i < 0 || i >= s.len() {
        Extraction::Malformed
    } else {
        let c = s[i];
        match m {
            SMode::ExpectObj => {
                if is_json_ws(c) {
                    scan(s, i + 1, m)
                } else if c == 123 {
                    scan(s, i + 1, SMode::ExpectKeyOrEnd)
                } else {
                    Extraction::Malformed
                }
            },
            SMode::ExpectKeyOrEnd => {
                if is_json_ws(c) {
                    scan(s, i + 1, m)
                } else if c == 34 {
                    scan(s, i + 1, SMode::Key { start: i + 1, esc: false })
                } else if c == 125 {
                    Extraction::Missing
                } else {
                    Extraction::Malformed
                }
            },
            SMode::Key { start, esc } => {
                if esc {
                    scan(s, i + 1, SMode::Key { start, esc: false })
                } else if c == 92 {
                    scan(s, i + 1, SMode::Key { start, esc: true })
                } else if c == 34 {
                    scan(
                        s,
                        i + 1,
                        SMode::ExpectColon { challenge: s.subrange(start, i) == challenge_key() },
                    )
                } else {
                    scan(s, i + 1, m)
                }
            },
            SMode::ExpectColon { challenge } => {
                if is_json_ws(c) {
                    scan(s, i + 1, m)
                } else if c == 58 {
                    scan(s, i + 1, SMode::ExpectValue { challenge })
                } else {
                    Extraction::Malformed
                }
            },
            SMode::ExpectValue { challenge } => {
                if is_json_ws(c) {
                    scan(s, i + 1, m)
                } else if c == 34 {
                    scan(s, i + 1, SMode::StrVal { challenge, start: i + 1, esc: false })
                } else if challenge {
                    Extraction::Malformed
                } else if c == 123 || c == 91 {
                    scan(s, i + 1, SMode::Container { depth: 1, in_str: false, esc: false })
                } else if c == 44 || c == 125 || c == 93 || c == 58 {
                    Extraction::Malformed
                } else {
                    scan(s, i + 1, SMode::PrimVal)
                }
            },
            SMode::StrVal { challenge, start, esc } => {
                if esc {
                    scan(s, i + 1, SMode::StrVal { challenge, start, esc: false })
                } else if c == 92 {
                    scan(s, i + 1, SMode::StrVal { challenge, start, esc: true })
                } else if c == 34 {
                    if challenge {
                        Extraction::Found(s.subrange(start, i))
                    } else {
                        scan(s, i + 1, SMode::ExpectCommaOrEnd)
                    }
                } else {
                    scan(s, i + 1, m)
                }
            },
            SMode::PrimVal => {
                if c == 44 {
                    scan(s, i + 1, SMode::ExpectKeyOrEnd)
                } else if c == 125 {
                    Extraction::Missing
                } else if is_json_ws(c) {
                    scan(s, i + 1, SMode::ExpectCommaOrEnd)
                } else if c == 93 {
                    Extraction::Malformed
                } else {
                    scan(s, i + 1, m)
                }
            },
            SMode::Container { depth, in_str, esc } => {
                if in_str {
                    if esc {
                        scan(s, i + 1, SMode::Container { depth, in_str, esc: false })
                    } else if c == 92 {
                        scan(s, i + 1, SMode::Container { depth, in_str, esc: true })
                    } else if c == 34 {
                        scan(s, i + 1, SMode::Container { depth, in_str: false, esc: false })
                    } else {
                        scan(s, i + 1, m)
                    }
                } else if c == 34 {
                    scan(s, i + 1, SMode::Container { depth, in_str: true, esc: false })
                } else if c == 123 || c == 91 {
                    scan(s, i + 1, SMode::Container { depth: depth + 1, in_str: false, esc: false })
                } else if c == 125 || c == 93 {
                    if depth == 1 {
                        scan(s, i + 1, SMode::ExpectCommaOrEnd)
                    } else {
                        scan(s, i + 1, SMode::Container { depth: depth - 1, in_str: false, esc: false })
                    }
                } else {
                    scan(s, i + 1, m)
                }
            },
            SMode::ExpectCommaOrEnd => {
                if is_json_ws(c) {
                    scan(s, i + 1, m)
                } else if c == 44 {
                    scan(s, i + 1, SMode::ExpectKeyOrEnd)
                } else if c == 125 {
                    Extraction::Missing
                } else {
                    Extraction::Malformed
                }
            },
        }
    }
}

/// What `extract_challenge_text` returns: the raw bytes of the
/// `"challenge"` string value, or the reason no such value exists.
pub open spec fn challenge_text_spec(s: Seq<u8>) -> Result<Seq<u8>, AuthError> {
    if !is_utf8(s) {
        Err(AuthError::JsonParseError)
    } else {
        match scan(s, 0, SMode::ExpectObj) {
            Extraction::Found(c) => Ok(c),
            Extraction::Missing => Err(AuthError::ChallengeFieldMissing),
            Extraction::Malformed => Err(AuthError::JsonParseError),
        }
    }
}

/// What `extract_challenge` returns: the challenge text, base64url-decoded.
pub open spec fn extract_challenge_spec(s: Seq<u8>) -> Result<Seq<u8>, AuthError> {
    match challenge_text_spec(s) {
        Ok(c) => match base64_url::decode_spec(c) {
            Some(v) => Ok(v),
            None => Err(AuthError::InvalidBase64Character),
        },
        Err(e) => Err(e),
    }
}

/// Whether the bytes of `s` form well-formed UTF-8.
pub fn check_utf8(s: &Vec<u8>) -> (r: bool)
    ensures
        r == is_utf8(s@),
{
    let n = s.len();
    let mut i: usize = 0;
    proof {
        assert(s@.skip(0) =~= s@);
    }
    while i < n
        invariant
            i <= n == s@.len(),
            is_utf8(s@) == is_utf8(s@.skip(i as int)),
        decreases n - i,
    {
        let ghost sk = s@.skip(i as int);
        proof {
            assert(sk[0] == s@[i as int]);
        }
        let b0 = s[i];
        if b0 < 0x80 {
            proof {
                assert(sk.skip(1) =~= s@.skip(i + 1));
            }
            i = i + 1;
        } else if 0xC2 <= b0 && b0 <= 0xDF {
            if n - i < 2 {
                return false;
            }
            proof {
                assert(sk[1] == s@[i + 1]);
            }
            let b1 = s[i + 1];
            if !(0x80 <= b1 && b1 <= 0xBF) {
                return false;
            }
            proof {
                assert(sk.skip(2) =~= s@.skip(i + 2));
            }
            i = i + 2;
        } else if b0 == 0xE0 || (0xE1 <= b0 && b0 <= 0xEC) || b0 == 0xED || (0xEE <= b0 && b0
            <= 0xEF) {
            if n - i < 3 {
                return false;
            }
            proof {
                assert(sk[1] == s@[i + 1] && sk[2] == s@[i + 2]);
            }
            let b1 = s[i + 1];
            let b2 = s[i + 2];
            let lo: u8 = if b0 == 0xE0 {
                0xA0
            } else {
                0x80
            };
            let hi: u8 = if b0 == 0xED {
                0x9F
            } else {
                0xBF
            };
            if !(lo <= b1 && b1 <= hi) {
                return false;
            }
            if !(0x80 <= b2 && b2 <= 0xBF) {
                return false;
            }
            proof {
                assert(sk.skip(3) =~= s@.skip(i + 3));
            }
            i = i + 3;
        } else if b0 == 0xF0 || (0xF1 <= b0 && b0 <= 0xF3) || b0 == 0xF4 {
            if n - i < 4 {
                return false;
            }
            proof {
                assert(sk[1] == s@[i + 1] && sk[2] == s@[i + 2] && sk[3] == s@[i + 3]);
            }
            let b1 = s[i + 1];
            let b2 = s[i + 2];
            let b3 = s[i + 3];
            let lo: u8 = if b0 == 0xF0 {
                0x90
            } else {
                0x80
            };
            let hi: u8 = if b0 == 0xF4 {
                0x8F
            } else {
                0xBF
            };
            if !(lo <= b1 && b1 <= hi) {
                return false;
            }
            if !(0x80 <= b2 && b2 <= 0xBF) {
                return false;
            }
            if !(0x80 <= b3 && b3 <= 0xBF) {
                return false;
            }
            proof {
                assert(sk.skip(4) =~= s@.skip(i + 4));
            }
            i = i + 4;
        } else {
            return false;
        }
    }
    proof {
        assert(s@.skip(n as int) =~= Seq::<u8>::empty());
    }
    true
}

/// Scanner state with concrete positions; viewed as `SMode`.
#[derive(Clone, Copy)]
enum Mode {
    ExpectObj,
    ExpectKeyOrEnd,
    Key { start: usize, esc: bool },
    ExpectColon { challenge: bool },
    ExpectValue { challenge: bool },
    StrVal { challenge: bool, start: usize, esc: bool },
    PrimVal,
    Container { depth: usize, in_str: bool, esc: bool },
    ExpectCommaOrEnd,
}

spec fn mode_view(m: Mode) -> SMode {
    match m {
        Mode::ExpectObj => SMode::ExpectObj,
        Mode::ExpectKeyOrEnd => SMode::ExpectKeyOrEnd,
        Mode::Key { start, esc } => SMode::Key { start: start as int, esc },
        Mode::ExpectColon { challenge } => SMode::ExpectColon { challenge },
        Mode::ExpectValue { challenge } => SMode::ExpectValue { challenge },
        Mode::StrVal { challenge, start, esc } => SMode::StrVal {
            challenge,
            start: start as int,
            esc,
        },
        Mode::PrimVal => SMode::PrimVal,
        Mode::Container { depth, in_str, esc } => SMode::Container {
            depth: depth as int,
            in_str,
            esc,
        },
        Mode::ExpectCommaOrEnd => SMode::ExpectCommaOrEnd,
    }
}

/// Positions held in the state stay in bounds as the scan advances.
spec fn mode_wf(m: Mode, i: int) -> bool {
    match m {
        Mode::Key { start, esc } => start <= i,
        Mode::StrVal { challenge, start, esc } => start <= i,
        Mode::Container { depth, in_str, esc } => 1 <= depth <= i,
        _ => true,
    }
}

/// Whether `s[start..end]` spells `challenge`.
fn is_challenge_key(s: &Vec<u8>, start: usize, end: usize) -> (r: bool)
    requires
        start <= end <= s@.len(),
    ensures
        r == (s@.subrange(start as int, end as int) == challenge_key()),
{
    if end - start != 9 {
        proof {
            assert(s@.subrange(start as int, end as int).len() != challenge_key().len());
        }
        return false;
    }
    let r = s[start] == 99 && s[start + 1] == 104 && s[start + 2] == 97 && s[start + 3] == 108
        && s[start + 4] == 108 && s[start + 5] == 101 && s[start + 6] == 110 && s[start + 7]
        == 103 && s[start + 8] == 101;
    proof {
        let sub = s@.subrange(start as int, end as int);
        if r {
            assert(sub =~= challenge_key());
        } else {
            assert(sub != challenge_key());
        }
    }
    r
}

/// Copy `s[start..end]` out as a fresh vector.
fn subrange_vec(s: &Vec<u8>, start: usize, end: usize) -> (r: Vec<u8>)
    requires
        start <= end <= s@.len(),
    ensures
        r@ == s@.subrange(start as int, end as int),
{
    let mut out: Vec<u8> = Vec::new();
    let mut j: usize = start;
    while j < end
        invariant
            start <= j <= end <= s@.len(),
            out@ == s@.subrange(start as int, j as int),
        decreases end - j,
    {
        out.push(s[j]);
        proof {
            assert(s@.subrange(start as int, j + 1) =~= s@.subrange(start as int, j as int).push(
                s@[j as int],
            ));
        }
        j = j + 1;
    }
    out
}

/// Run the scanner over the whole text.
fn scan_challenge(s: &Vec<u8>) -> (r: Result<Vec<u8>, AuthError>)
    ensures
        match r {
            Ok(c) => scan(s@, 0, SMode::ExpectObj) == Extraction::Found(c@),
            Err(e) => {
                ||| (scan(s@, 0, SMode::ExpectObj) == Extraction::Missing && e
                    == AuthError::ChallengeFieldMissing)
                ||| (scan(s@, 0, SMode::ExpectObj) == Extraction::Malformed && e
                    == AuthError::JsonParseError)
            },
        },
{
    let n = s.len();
    let mut i: usize = 0;
    let mut m = Mode::ExpectObj;
    while i < n
        invariant
            i <= n == s@.len(),
            scan(s@, 0, SMode::ExpectObj) == scan(s@, i as int, mode_view(m)),
            mode_wf(m, i as int),
        decreases n - i,
    {
        let ghost m0 = mode_view(m);
        let c = s[i];
        match m {
            Mode::ExpectObj => {
                if c == 32 || c == 9 || c == 10 || c == 13 {
                } else if c == 123 {
                    m = Mode::ExpectKeyOrEnd;
                } else {
                    proof {
                        assert(scan(s@, i as int, m0) == Extraction::Malformed);
                    }
                    return Err(AuthError::JsonParseError);
                }
            },
            Mode::ExpectKeyOrEnd => {
                if c == 32 || c == 9 || c == 10 || c == 13 {
                } else if c == 34 {
                    m = Mode::Key { start: i + 1, esc: false };
                } else if c == 125 {
                    proof {
                        assert(scan(s@, i as int, m0) == Extraction::Missing);
                    }
                    return Err(AuthError::ChallengeFieldMissing);
                } else {
                    proof {
                        assert(scan(s@, i as int, m0) == Extraction::Malformed);
                    }
                    return Err(AuthError::JsonParseError);
                }
            },
            Mode::Key { start, esc } => {
                if esc {
                    m = Mode::Key { start, esc: false };
                } else if c == 92 {
                    m = Mode::Key { start, esc: true };
                } else if c == 34 {
                    let is_ch = is_challenge_key(s, start, i);
                    m = Mode::ExpectColon { challenge: is_ch };
                }
            },
            Mode::ExpectColon { challenge } => {
                if c == 32 || c == 9 || c == 10 || c == 13 {
                } else if c == 58 {
                    m = Mode::ExpectValue { challenge };
                } else {
                    proof {
                        assert(scan(s@, i as int, m0) == Extraction::Malformed);
                    }
                    return Err(AuthError::JsonParseError);
                }
            },
            Mode::ExpectValue { challenge } => {
                if c == 32 || c == 9 || c == 10 || c == 13 {
                } else if c == 34 {
                    m = Mode::StrVal { challenge, start: i + 1, esc: false };
                } else if challenge {
                    proof {
                        assert(scan(s@, i as int, m0) == Extraction::Malformed);
                    }
                    return Err(AuthError::JsonParseError);
                } else if c == 123 || c == 91 {
                    m = Mode::Container { depth: 1, in_str: false, esc: false };
                } else if c == 44 || c == 125 || c == 93 || c == 58 {
                    proof {
                        assert(scan(s@, i as int, m0) == Extraction::Malformed);
                    }
                    return Err(AuthError::JsonParseError);
                } else {
                    m = Mode::PrimVal;
                }
            },
            Mode::StrVal { challenge, start, esc } => {
                if esc {
                    m = Mode::StrVal { challenge, start, esc: false };
                } else if c == 92 {
                    m = Mode::StrVal { challenge, start, esc: true };
                } else if c == 34 {
                    if challenge {
                        let text = subrange_vec(s, start, i);
                        proof {
                            assert(scan(s@, i as int, m0) == Extraction::Found(text@));
                        }
                        return Ok(text);
                    } else {
                        m = Mode::ExpectCommaOrEnd;
                    }
                }
            },
            Mode::PrimVal => {
                if c == 44 {
                    m = Mode::ExpectKeyOrEnd;
                } else if c == 125 {
                    proof {
                        assert(scan(s@, i as int, m0) == Extraction::Missing);
                    }
                    return Err(AuthError::ChallengeFieldMissing);
                } else if c == 32 || c == 9 || c == 10 || c == 13 {
                    m = Mode::ExpectCommaOrEnd;
                } else if c == 93 {
                    proof {
                        assert(scan(s@, i as int, m0) == Extraction::Malformed);
                    }
                    return Err(AuthError::JsonParseError);
                }
            },
            Mode::Container { depth, in_str, esc } => {
                if in_str {
                    if esc {
                        m = Mode::Container { depth, in_str, esc: false };
                    } else if c == 92 {
                        m = Mode::Container { depth, in_str, esc: true };
                    } else if c == 34 {
                        m = Mode::Container { depth, in_str: false, esc: false };
                    }
                } else if c == 34 {
                    m = Mode::Container { depth, in_str: true, esc: false };
                } else if c == 123 || c == 91 {
                    m = Mode::Container { depth: depth + 1, in_str: false, esc: false };
                } else if c == 125 || c == 93 {
                    if depth == 1 {
                        m = Mode::ExpectCommaOrEnd;
                    } else {
                        m = Mode::Container { depth: depth - 1, in_str: false, esc: false };
                    }
                }
            },
            Mode::ExpectCommaOrEnd => {
                if c == 32 || c == 9 || c == 10 || c == 13 {
                } else if c == 44 {
                    m = Mode::ExpectKeyOrEnd;
                } else if c == 125 {
                    proof {
                        assert(scan(s@, i as int, m0) == Extraction::Missing);
                    }
                    return Err(AuthError::ChallengeFieldMissing);
                } else {
                    proof {
                        assert(scan(s@, i as int, m0) == Extraction::Malformed);
                    }
                    return Err(AuthError::JsonParseError);
                }
            },
        }
        proof {
            assert(scan(s@, i as int, m0) == scan(s@, i + 1, mode_view(m)));
        }
        i = i + 1;
    }
    proof {
        assert(scan(s@, i as int, mode_view(m)) == Extraction::Malformed);
    }
    Err(AuthError::JsonParseError)
}

/// Extract the raw `"challenge"` string value from client-data text.
pub fn extract_challenge_text(client_data: &Vec<u8>) -> (r: Result<Vec<u8>, AuthError>)
    ensures
        match r {
            Ok(c) => challenge_text_spec(client_data@) == Ok::<Seq<u8>, AuthError>(c@),
            Err(e) => challenge_text_spec(client_data@) == Err::<Seq<u8>, AuthError>(e),
        },
{
    if !check_utf8(client_data) {
        return Err(AuthError::JsonParseError);
    }
    scan_challenge(client_data)
}

/// Extract and base64url-decode the challenge from client-data text.
pub fn extract_challenge(client_data: &Vec<u8>) -> (r: Result<Vec<u8>, AuthError>)
    ensures
        match r {
            Ok(c) => extract_challenge_spec(client_data@) == Ok::<Seq<u8>, AuthError>(c@),
            Err(e) => extract_challenge_spec(client_data@) == Err::<Seq<u8>, AuthError>(e),
        },
{
    match extract_challenge_text(client_data) {
        Ok(text) => match base64_url::decode(&text) {
            Ok(v) => Ok(v),
            Err(e) => Err(e),
        },
        Err(e) => Err(e),
    }
}

} // verus!

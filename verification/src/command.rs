//! The request decoder: it splits the raw request on the CRLF delimiter and
//! reads the command name and its arguments at the fixed offsets that the
//! array-of-bulk-strings framing puts them at (the name at segment 2, the
//! first argument at 4, the second at 6, and so on in steps of two).
use crate::resp::{CR, LF};
use vstd::prelude::*;
use vstd::slice::{slice_subrange, slice_to_vec};

verus! {

/// The arguments of a write request: a key, a value, and an optional
/// relative expiry in milliseconds.
pub struct SetParams {
    pub key: Vec<u8>,
    pub value: Vec<u8>,
    pub expiry: Option<i64>,
}

/// A decoded client request.
pub enum Command {
    Ping,
    Echo(Vec<u8>),
    Get(Vec<u8>),
    SetValue(SetParams),
    Info(Option<Vec<u8>>),
}

/// Why a request failed to decode.
#[derive(Clone, Copy, PartialEq, Eq, Structural, Debug)]
pub enum DecodeError {
    /// The segment that should hold the command name is missing.
    MissingCommand,
    /// An ECHO request without its message.
    MissingEchoValue,
    /// A GET or SET request without its key.
    MissingKey,
    /// A SET request without its value.
    MissingValue,
    /// The command name is none of the supported ones.
    UnsupportedCommand,
}

/// The mathematical model of a decoded request.
pub enum SpecCommand {
    Ping,
    Echo(Seq<u8>),
    Get(Seq<u8>),
    SetValue { key: Seq<u8>, value: Seq<u8>, expiry: Option<int> },
    Info(Option<Seq<u8>>),
}

impl View for SetParams {
    type V = SpecCommand;

    open spec fn view(&self) -> SpecCommand {
        SpecCommand::SetValue {
            key: self.key@,
            value: self.value@,
            expiry: match self.expiry {
                Some(ms) => Some(ms as int),
                None => None,
            },
        }
    }
}

impl View for Command {
    type V = SpecCommand;

    open spec fn view(&self) -> SpecCommand {
        match self {
            Command::Ping => SpecCommand::Ping,
            Command::Echo(m) => SpecCommand::Echo(m@),
            Command::Get(k) => SpecCommand::Get(k@),
            Command::SetValue(p) => p@,
            Command::Info(s) => SpecCommand::Info(
                match s {
                    Some(sec) => Some(sec@),
                    None => None,
                },
            ),
        }
    }
}

/// The position of the first CRLF pair in `s`, or -1 if there is none.
pub open spec fn spec_find_crlf(s: Seq<u8>) -> int
    decreases s.len(),
{
    if s.len() < 2 {
        -1
    } else if s[0] == CR && s[1] == LF {
        0
    } else {
        let r = spec_find_crlf(s.drop_first());
        if r < 0 {
            -1
        } else {
            r + 1
        }
    }
}

/// The segments of `s` between consecutive CRLF delimiters, leftmost first.
/// A string without the delimiter is one single segment.
pub open spec fn spec_split_crlf(s: Seq<u8>) -> Seq<Seq<u8>>
    decreases s.len(),
{
    let i = spec_find_crlf(s);
    if 0 <= i && i + 2 <= s.len() {
        seq![s.take(i)] + spec_split_crlf(s.skip(i + 2))
    } else {
        seq![s]
    }
}

/// The views of a vector of byte vectors.
pub open spec fn views_of(s: Seq<Vec<u8>>) -> Seq<Seq<u8>> {
    s.map_values(|v: Vec<u8>| v@)
}

proof fn lemma_find_crlf_at(s: Seq<u8>, i: int)
    requires
        0 <= i,
        i + 2 <= s.len(),
        s[i] == CR,
        s[i + 1] == LF,
        forall|j: int| #![trigger s[j]] 0 <= j < i ==> !(s[j] == CR && s[j + 1] == LF),
    ensures
        spec_find_crlf(s) == i,
    decreases i,
{
    if i == 0 {
    } else {
        let t = s.drop_first();
        assert(!(s[0] == CR && s[1] == LF));
        assert forall|j: int| #![trigger t[j]] 0 <= j < i - 1 implies !(t[j] == CR && t[j + 1] == LF) by {
            assert(t[j] == s[j + 1]);
            assert(t[j + 1] == s[j + 2]);
        }
        assert(t[i - 1] == s[i as int]);
        assert(t[i] == s[i + 1]);
        lemma_find_crlf_at(t, i - 1);
    }
}

proof fn lemma_find_crlf_none(s: Seq<u8>)
    requires
        forall|j: int| #![trigger s[j]] 0 <= j && j + 2 <= s.len() ==> !(s[j] == CR && s[j + 1] == LF),
    ensures
        spec_find_crlf(s) == -1,
    decreases s.len(),
{
    if s.len() < 2 {
    } else {
        let t = s.drop_first();
        assert(!(s[0] == CR && s[1] == LF));
        assert forall|j: int| #![trigger t[j]] 0 <= j && j + 2 <= t.len() implies !(t[j] == CR && t[j + 1] == LF) by {
            assert(t[j] == s[j + 1]);
            assert(t[j + 1] == s[j + 2]);
        }
        lemma_find_crlf_none(t);
    }
}

/// Splits a request on each CRLF delimiter, leftmost first.
pub fn split_crlf(input: &[u8]) -> (r: Vec<Vec<u8>>)
    ensures
        views_of(r@) == spec_split_crlf(input@),
{
    let n = input.len();
    let mut parts: Vec<Vec<u8>> = Vec::new();
    let mut start: usize = 0;
    proof {
        assert(input@.skip(0) =~= input@);
        assert(views_of(parts@) + spec_split_crlf(input@) =~= spec_split_crlf(input@));
    }
    loop
        invariant
            start <= n,
            n == input@.len(),
            spec_split_crlf(input@) == views_of(parts@) + spec_split_crlf(
                input@.skip(start as int),
            ),
        decreases n - start,
    {
        let mut i: usize = start;
        let mut found: bool = false;
        while !found && i < n && i + 1 < n
            invariant
                n == input@.len(),
                start <= i <= n,
                forall|j: int| #![trigger input@[j]] start <= j < i ==> !(input@[j] == CR && input@[j + 1] == LF),
                found ==> i + 1 < n && input@[i as int] == CR && input@[i + 1] == LF,
            decreases n - i + (if found { 0int } else { 1int }),
        {
            if input[i] == CR && input[i + 1] == LF {
                found = true;
            } else {
                i = i + 1;
            }
        }
        let ghost rest = input@.skip(start as int);
        let ghost before = parts@;
        if found {
            proof {
                assert forall|j: int| #![trigger rest[j]] 0 <= j < i - start implies !(rest[j] == CR && rest[j + 1]
                    == LF) by {
                    assert(rest[j] == input@[start + j]);
                    assert(rest[j + 1] == input@[start + j + 1]);
                }
                assert(rest[i - start] == input@[i as int]);
                assert(rest[i - start + 1] == input@[i + 1]);
                lemma_find_crlf_at(rest, i - start);
                assert(rest.take(i - start) =~= input@.subrange(start as int, i as int));
                assert(rest.skip(i - start + 2) =~= input@.skip(i + 2));
            }
            let ghost s0 = start as int;
            let seg = slice_to_vec(slice_subrange(input, start, i));
            parts.push(seg);
            start = i + 2;
            proof {
                assert(spec_split_crlf(rest) == seq![rest.take(i - s0)] + spec_split_crlf(
                    rest.skip(i - s0 + 2),
                ));
                assert(views_of(parts@) =~= views_of(before).push(input@.subrange(s0, i as int)));
                assert(spec_split_crlf(input@) =~= views_of(parts@) + spec_split_crlf(
                    input@.skip(start as int),
                ));
            }
        } else {
            proof {
                assert forall|j: int| #![trigger rest[j]] 0 <= j && j + 2 <= rest.len() implies !(rest[j] == CR
                    && rest[j + 1] == LF) by {
                    assert(rest[j] == input@[start + j]);
                    assert(rest[j + 1] == input@[start + j + 1]);
                }
                lemma_find_crlf_none(rest);
                assert(rest.take(rest.len() as int) =~= rest);
            }
            let seg = slice_to_vec(slice_subrange(input, start, n));
            parts.push(seg);
            proof {
                assert(input@.subrange(start as int, n as int) =~= rest);
                assert(views_of(parts@) =~= views_of(before).push(rest));
                assert(spec_split_crlf(input@) =~= views_of(parts@));
            }
            return parts;
        }
    }
}

/// A byte after ASCII upper-casing: lower-case letters lose 32, all else stays.
pub open spec fn spec_upper_byte(b: u8) -> u8 {
    if ('a' as u8) <= b && b <= ('z' as u8) {
        (b - 32) as u8
    } else {
        b
    }
}

/// A byte string after ASCII upper-casing.
pub open spec fn spec_upper(s: Seq<u8>) -> Seq<u8> {
    s.map_values(|b: u8| spec_upper_byte(b))
}

/// Does `s`, upper-cased, equal the (already upper-case) keyword `kw`?
fn upper_eq(s: &[u8], kw: &[u8]) -> (r: bool)
    ensures
        r == (spec_upper(s@) == kw@),
{
    if s.len() != kw.len() {
        return false;
    }
    let mut i: usize = 0;
    while i < s.len()
        invariant
            s@.len() == kw@.len(),
            i <= s@.len(),
            forall|j: int| 0 <= j < i ==> spec_upper(s@)[j] == kw@[j],
        decreases s@.len() - i,
    {
        let mut c = s[i];
        if c >= ('a' as u8) && c <= ('z' as u8) {
            c = c - 32;
        }
        if c != kw[i] {
            proof {
                assert(spec_upper(s@)[i as int] == spec_upper_byte(s@[i as int]));
            }
            return false;
        }
        i = i + 1;
    }
    proof {
        assert(spec_upper(s@) =~= kw@);
    }
    true
}

/// Is `b` an ASCII decimal digit?
pub open spec fn spec_is_digit(b: u8) -> bool {
    ('0' as u8) <= b && b <= ('9' as u8)
}

/// Is every byte of `s` an ASCII decimal digit?
pub open spec fn spec_all_digits(s: Seq<u8>) -> bool {
    forall|i: int| 0 <= i < s.len() ==> spec_is_digit(s[i])
}

/// The number that a digit string denotes, most significant digit first.
pub open spec fn spec_digits_val(s: Seq<u8>) -> nat
    decreases s.len(),
{
    if s.len() == 0 {
        0
    } else {
        spec_digits_val(s.drop_last()) * 10 + (s.last() - ('0' as u8)) as nat
    }
}

/// The signed value of an all-digit string, or nothing when a byte is no
/// digit, the string is empty, or the value falls outside i64's range.
pub open spec fn spec_parse_signed(digits: Seq<u8>, neg: bool) -> Option<int> {
    if digits.len() == 0 || !spec_all_digits(digits) {
        None
    } else {
        let v = if neg {
            -(spec_digits_val(digits) as int)
        } else {
            spec_digits_val(digits) as int
        };
        if v < (i64::MIN as int) || (i64::MAX as int) < v {
            None
        } else {
            Some(v)
        }
    }
}

/// The i64 that `s` denotes under an optional leading sign, or nothing when
/// `s` is no well-formed in-range decimal integer.
pub open spec fn spec_parse_i64(s: Seq<u8>) -> Option<int> {
    if s.len() > 0 && (s[0] == ('+' as u8) || s[0] == ('-' as u8)) {
        spec_parse_signed(s.skip(1), s[0] == ('-' as u8))
    } else {
        spec_parse_signed(s, false)
    }
}

proof fn lemma_digits_val_mono(s: Seq<u8>, k: int)
    requires
        0 <= k <= s.len(),
    ensures
        spec_digits_val(s.take(k)) <= spec_digits_val(s),
    decreases s.len() - k,
{
    if k < s.len() {
        assert(s.take(k + 1).drop_last() =~= s.take(k));
        assert(s.take(k + 1).last() == s[k]);
        assert(spec_digits_val(s.take(k)) <= spec_digits_val(s.take(k + 1)));
        lemma_digits_val_mono(s, k + 1);
    } else {
        assert(s.take(k) =~= s);
    }
}

/// Reads a decimal integer as Rust's i64 parser does: an optional sign, then
/// one or more digits, nothing else, and the value within i64's range.
pub fn parse_i64(s: &[u8]) -> (r: Option<i64>)
    ensures
        match r {
            Some(v) => spec_parse_i64(s@) == Some(v as int),
            None => spec_parse_i64(s@) is None,
        },
{
    if s.len() == 0 {
        return None;
    }
    let neg: bool;
    let idx: usize;
    if s[0] == ('+' as u8) {
        neg = false;
        idx = 1;
    } else if s[0] == ('-' as u8) {
        neg = true;
        idx = 1;
    } else {
        neg = false;
        idx = 0;
    }
    if idx >= s.len() {
        return None;
    }
    let ghost digits = s@.skip(idx as int);
    let limit: u64 = if neg {
        9223372036854775808u64
    } else {
        9223372036854775807u64
    };
    let mut mag: u64 = 0;
    let mut i: usize = idx;
    proof {
        if idx == 0 {
            assert(s@.skip(0) =~= s@);
        }
        assert(digits.take(0) =~= Seq::<u8>::empty());
    }
    while i < s.len()
        invariant
            idx <= i <= s@.len(),
            idx <= 1,
            idx < s@.len(),
            digits == s@.skip(idx as int),
            spec_all_digits(digits.take(i - idx)),
            mag as nat == spec_digits_val(digits.take(i - idx)),
            mag <= limit,
            limit == (if neg {
                9223372036854775808u64
            } else {
                9223372036854775807u64
            }),
            spec_parse_i64(s@) == spec_parse_signed(digits, neg),
        decreases s@.len() - i,
    {
        let c = s[i];
        proof {
            assert(digits[i - idx] == s@[i as int]);
        }
        if c < ('0' as u8) || c > ('9' as u8) {
            proof {
                assert(!spec_is_digit(digits[i - idx]));
            }
            return None;
        }
        let d = (c - ('0' as u8)) as u64;
        let ghost prefix = digits.take(i - idx);
        proof {
            assert(digits.take(i - idx + 1).drop_last() =~= prefix);
            assert(digits.take(i - idx + 1).last() == digits[i - idx]);
        }
        if mag > (limit - d) / 10 {
            proof {
                vstd::arithmetic::div_mod::lemma_fundamental_div_mod((limit - d) as int, 10);
                let q = ((limit - d) / 10) as int;
                assert(mag * 10 >= (q + 1) * 10) by (nonlinear_arith)
                    requires
                        mag >= q + 1,
                ;
                assert(spec_digits_val(digits.take(i - idx + 1)) > limit);
                if spec_all_digits(digits) {
                    lemma_digits_val_mono(digits, i - idx + 1);
                    assert(spec_digits_val(digits) > limit);
                    assert(spec_parse_signed(digits, neg) is None);
                }
            }
            return None;
        }
        proof {
            vstd::arithmetic::div_mod::lemma_fundamental_div_mod((limit - d) as int, 10);
            let q = ((limit - d) / 10) as int;
            assert(mag * 10 <= q * 10) by (nonlinear_arith)
                requires
                    mag <= q,
            ;
        }
        mag = mag * 10 + d;
        i = i + 1;
    }
    proof {
        assert(digits.take(i - idx) =~= digits);
        assert(spec_all_digits(digits));
        assert(mag as nat == spec_digits_val(digits));
    }
    if neg {
        if mag == 9223372036854775808u64 {
            Some(i64::MIN)
        } else {
            let m = mag as i64;
            Some(-m)
        }
    } else {
        Some(mag as i64)
    }
}

/// The PING keyword.
pub open spec fn spec_kw_ping() -> Seq<u8> {
    seq![('P' as u8), ('I' as u8), ('N' as u8), ('G' as u8)]
}

/// The ECHO keyword.
pub open spec fn spec_kw_echo() -> Seq<u8> {
    seq![('E' as u8), ('C' as u8), ('H' as u8), ('O' as u8)]
}

/// The GET keyword.
pub open spec fn spec_kw_get() -> Seq<u8> {
    seq![('G' as u8), ('E' as u8), ('T' as u8)]
}

/// The SET keyword.
pub open spec fn spec_kw_set() -> Seq<u8> {
    seq![('S' as u8), ('E' as u8), ('T' as u8)]
}

/// The INFO keyword.
pub open spec fn spec_kw_info() -> Seq<u8> {
    seq![('I' as u8), ('N' as u8), ('F' as u8), ('O' as u8)]
}

fn kw_ping() -> (r: Vec<u8>)
    ensures
        r@ == spec_kw_ping(),
{
    let mut v: Vec<u8> = Vec::new();
    v.push('P' as u8);
    v.push('I' as u8);
    v.push('N' as u8);
    v.push('G' as u8);
    proof {
        assert(v@ =~= spec_kw_ping());
    }
    v
}

fn kw_echo() -> (r: Vec<u8>)
    ensures
        r@ == spec_kw_echo(),
{
    let mut v: Vec<u8> = Vec::new();
    v.push('E' as u8);
    v.push('C' as u8);
    v.push('H' as u8);
    v.push('O' as u8);
    proof {
        assert(v@ =~= spec_kw_echo());
    }
    v
}

fn kw_get() -> (r: Vec<u8>)
    ensures
        r@ == spec_kw_get(),
{
    let mut v: Vec<u8> = Vec::new();
    v.push('G' as u8);
    v.push('E' as u8);
    v.push('T' as u8);
    proof {
        assert(v@ =~= spec_kw_get());
    }
    v
}

fn kw_set() -> (r: Vec<u8>)
    ensures
        r@ == spec_kw_set(),
{
    let mut v: Vec<u8> = Vec::new();
    v.push('S' as u8);
    v.push('E' as u8);
    v.push('T' as u8);
    proof {
        assert(v@ =~= spec_kw_set());
    }
    v
}

fn kw_info() -> (r: Vec<u8>)
    ensures
        r@ == spec_kw_info(),
{
    let mut v: Vec<u8> = Vec::new();
    v.push('I' as u8);
    v.push('N' as u8);
    v.push('F' as u8);
    v.push('O' as u8);
    proof {
        assert(v@ =~= spec_kw_info());
    }
    v
}

/// What decoding a raw request yields: a command, or the error naming the
/// first missing field, or the unsupported-command error.
pub open spec fn spec_parse(input: Seq<u8>) -> Result<SpecCommand, DecodeError> {
    let parts = spec_split_crlf(input);
    if parts.len() <= 2 {
        Err(DecodeError::MissingCommand)
    } else {
        let cmd = spec_upper(parts[2]);
        if cmd == spec_kw_ping() {
            Ok(SpecCommand::Ping)
        } else if cmd == spec_kw_echo() {
            if parts.len() <= 4 {
                Err(DecodeError::MissingEchoValue)
            } else {
                Ok(SpecCommand::Echo(parts[4]))
            }
        } else if cmd == spec_kw_get() {
            if parts.len() <= 4 {
                Err(DecodeError::MissingKey)
            } else {
                Ok(SpecCommand::Get(parts[4]))
            }
        } else if cmd == spec_kw_set() {
            if parts.len() <= 4 {
                Err(DecodeError::MissingKey)
            } else if parts.len() <= 6 {
                Err(DecodeError::MissingValue)
            } else {
                Ok(
                    SpecCommand::SetValue {
                        key: parts[4],
                        value: parts[6],
                        expiry: if parts.len() <= 10 {
                            None
                        } else {
                            spec_parse_i64(parts[10])
                        },
                    },
                )
            }
        } else if cmd == spec_kw_info() {
            Ok(
                SpecCommand::Info(
                    if parts.len() <= 4 {
                        None
                    } else {
                        Some(parts[4])
                    },
                ),
            )
        } else {
            Err(DecodeError::UnsupportedCommand)
        }
    }
}

impl Command {
    /// Decodes one request framed as an array of bulk strings. The name is
    /// matched case-insensitively; the expiry argument of SET is best-effort:
    /// absent or unparseable means no expiry, never an error.
    pub fn parse_redis_format(incoming: &[u8]) -> (r: Result<Command, DecodeError>)
        ensures
            match r {
                Ok(c) => spec_parse(incoming@) == Ok::<SpecCommand, DecodeError>(c@),
                Err(e) => spec_parse(incoming@) == Err::<SpecCommand, DecodeError>(e),
            },
    {
        let parts = split_crlf(incoming);
        proof {
            assert(views_of(parts@).len() == parts@.len());
        }
        if parts.len() <= 2 {
            return Err(DecodeError::MissingCommand);
        }
        let cmd = &parts[2];
        let ping = kw_ping();
        let echo = kw_echo();
        let get = kw_get();
        let set = kw_set();
        let info = kw_info();
        if upper_eq(cmd.as_slice(), ping.as_slice()) {
            Ok(Command::Ping)
        } else if upper_eq(cmd.as_slice(), echo.as_slice()) {
            if parts.len() <= 4 {
                Err(DecodeError::MissingEchoValue)
            } else {
                Ok(Command::Echo(slice_to_vec(parts[4].as_slice())))
            }
        } else if upper_eq(cmd.as_slice(), get.as_slice()) {
            if parts.len() <= 4 {
                Err(DecodeError::MissingKey)
            } else {
                Ok(Command::Get(slice_to_vec(parts[4].as_slice())))
            }
        } else if upper_eq(cmd.as_slice(), set.as_slice()) {
            if parts.len() <= 4 {
                Err(DecodeError::MissingKey)
            } else if parts.len() <= 6 {
                Err(DecodeError::MissingValue)
            } else {
                let key = slice_to_vec(parts[4].as_slice());
                let value = slice_to_vec(parts[6].as_slice());
                let expiry: Option<i64> = if parts.len() <= 10 {
                    None
                } else {
                    parse_i64(parts[10].as_slice())
                };
                Ok(Command::SetValue(SetParams { key, value, expiry }))
            }
        } else if upper_eq(cmd.as_slice(), info.as_slice()) {
            let section: Option<Vec<u8>> = if parts.len() <= 4 {
                None
            } else {
                Some(slice_to_vec(parts[4].as_slice()))
            };
            Ok(Command::Info(section))
        } else {
            Err(DecodeError::UnsupportedCommand)
        }
    }
}

} // verus!

//! The simulator's command line: flags with decimal values, parsed the way
//! the standard integer parsers read them.
use crate::sim::kernel::{DEFAULT_GROUP_JOIN_US, DEFAULT_SYNC_START_US};
use crate::Micros;
use vstd::prelude::*;
use vstd::string::{StrSliceExecFns, StringExecFns};

verus! {

/// The value of a string of decimal digits.
pub open spec fn digits_value(s: Seq<char>) -> int
    decreases s.len(),
{
    if s.len() == 0 {
        0
    } else {
        digits_value(s.drop_last()) * 10 + (s.last() as int - 48)
    }
}

/// A non-empty string of decimal digits.
pub open spec fn is_digits(s: Seq<char>) -> bool {
    s.len() > 0 && forall|i: int| 0 <= i < s.len() ==> '0' <= #[trigger] s[i] <= '9'
}

/// The number an unsigned decimal reads as: digits after an optional plus
/// sign.
pub open spec fn unsigned_text(s: Seq<char>) -> Option<int> {
    let body = if s.len() > 0 && s[0] == '+' {
        s.drop_first()
    } else {
        s
    };
    if is_digits(body) {
        Some(digits_value(body))
    } else {
        None
    }
}

/// The number a signed decimal reads as: digits after an optional plus or
/// minus sign.
pub open spec fn signed_text(s: Seq<char>) -> Option<int> {
    if s.len() > 0 && s[0] == '-' {
        if is_digits(s.drop_first()) {
            Some(-digits_value(s.drop_first()))
        } else {
            None
        }
    } else {
        unsigned_text(s)
    }
}

proof fn lemma_digits_grow(s: Seq<char>, n: int)
    requires
        0 <= n <= s.len(),
        forall|i: int| 0 <= i < s.len() ==> '0' <= #[trigger] s[i] <= '9',
    ensures
        digits_value(s.subrange(0, n)) <= digits_value(s),
        0 <= digits_value(s.subrange(0, n)),
    decreases s.len() - n,
{
    if n < s.len() {
        lemma_digits_grow(s, n + 1);
        assert(s.subrange(0, n + 1).drop_last() == s.subrange(0, n));
    } else {
        assert(s.subrange(0, n) == s);
        lemma_digits_nonneg(s);
    }
}

proof fn lemma_digits_nonneg(s: Seq<char>)
    requires
        forall|i: int| 0 <= i < s.len() ==> '0' <= #[trigger] s[i] <= '9',
    ensures
        0 <= digits_value(s),
    decreases s.len(),
{
    if s.len() > 0 {
        lemma_digits_nonneg(s.drop_last());
    }
}

/// The digits of `s` from `start` on, read as a number up to `limit`; none
/// when one is not a digit, there are none, or the number exceeds `limit`.
fn read_digits(s: &str, start: usize, limit: u64) -> (r: Option<u64>)
    requires
        start <= s@.len(),
    ensures
        ({
            let body = s@.subrange(start as int, s@.len() as int);
            match r {
                Some(v) => is_digits(body) && v == digits_value(body) && v <= limit,
                None => !is_digits(body) || digits_value(body) > limit,
            }
        }),
{
    let n = s.unicode_len();
    let ghost body = s@.subrange(start as int, s@.len() as int);
    if start >= n {
        return None;
    }
    let mut value: u64 = 0;
    let mut i = start;
    while i < n
        invariant
            start <= i <= n,
            n == s@.len(),
            body == s@.subrange(start as int, n as int),
            forall|k: int| 0 <= k < i - start ==> '0' <= #[trigger] body[k] <= '9',
            value == digits_value(body.subrange(0, i - start)),
            value <= limit,
        decreases n - i,
    {
        let c = s.get_char(i);
        assert(c == body[i - start]);
        if c < '0' || c > '9' {
            assert(!is_digits(body));
            return None;
        }
        assert(body.subrange(0, i + 1 - start).drop_last() == body.subrange(0, i - start));
        let d = (c as u32 - '0' as u32) as u64;
        if d > limit || value > (limit - d) / 10 {
            proof {
                assert(value * 10 + d > limit) by (nonlinear_arith)
                    requires
                        d > limit || value > (limit - d) / 10,
                        0 <= d <= 9,
                        0 <= value,
                ;
                if is_digits(body) {
                    lemma_digits_grow(body, i + 1 - start);
                }
            }
            return None;
        }
        proof {
            assert(value * 10 + d <= limit) by (nonlinear_arith)
                requires
                    value <= (limit - d) / 10,
                    0 <= d <= 9,
            ;
        }
        value = value * 10 + d;
        i = i + 1;
    }
    assert(body.subrange(0, n - start) == body);
    Some(value)
}

/// Whether two strings hold the same characters.
pub fn text_is(s: &str, lit: &str) -> (r: bool)
    ensures
        r == (s@ == lit@),
{
    let n = s.unicode_len();
    if n != lit.unicode_len() {
        return false;
    }
    let mut i: usize = 0;
    while i < n
        invariant
            i <= n,
            n == s@.len(),
            n == lit@.len(),
            forall|k: int| 0 <= k < i ==> s@[k] == lit@[k],
        decreases n - i,
    {
        if s.get_char(i) != lit.get_char(i) {
            return false;
        }
        i = i + 1;
    }
    assert(s@ == lit@);
    true
}

/// An unsigned 64-bit decimal, as `u64` parses it.
pub fn parse_u64(s: &str) -> (r: Option<u64>)
    ensures
        r is Some <==> (unsigned_text(s@) matches Some(v) && v <= u64::MAX),
        r matches Some(v) ==> unsigned_text(s@) == Some(v as int),
{
    let start: usize = if s.unicode_len() > 0 && s.get_char(0) == '+' {
        1
    } else {
        0
    };
    proof {
        if start == 1 {
            assert(s@.drop_first() == s@.subrange(1, s@.len() as int));
        } else {
            assert(s@ == s@.subrange(0, s@.len() as int));
        }
    }
    read_digits(s, start, u64::MAX)
}

/// An unsigned machine-word decimal, as `usize` parses it.
pub fn parse_usize(s: &str) -> (r: Option<usize>)
    ensures
        r is Some <==> (unsigned_text(s@) matches Some(v) && v <= usize::MAX),
        r matches Some(v) ==> unsigned_text(s@) == Some(v as int),
{
    let start: usize = if s.unicode_len() > 0 && s.get_char(0) == '+' {
        1
    } else {
        0
    };
    proof {
        if start == 1 {
            assert(s@.drop_first() == s@.subrange(1, s@.len() as int));
        } else {
            assert(s@ == s@.subrange(0, s@.len() as int));
        }
    }
    match read_digits(s, start, usize::MAX as u64) {
        Some(v) => Some(v as usize),
        None => None,
    }
}

/// A signed 64-bit decimal, as `i64` parses it.
pub fn parse_i64(s: &str) -> (r: Option<i64>)
    ensures
        r is Some <==> (signed_text(s@) matches Some(v) && i64::MIN <= v <= i64::MAX),
        r matches Some(v) ==> signed_text(s@) == Some(v as int),
{
    let n = s.unicode_len();
    if n > 0 && s.get_char(0) == '-' {
        assert(s@.drop_first() == s@.subrange(1, s@.len() as int));
        match read_digits(s, 1, 0x8000_0000_0000_0000) {
            Some(v) => {
                if v == 0x8000_0000_0000_0000 {
                    Some(i64::MIN)
                } else {
                    Some(-(v as i64))
                }
            },
            None => None,
        }
    } else {
        let start: usize = if n > 0 && s.get_char(0) == '+' {
            1
        } else {
            0
        };
        proof {
            if start == 1 {
                assert(s@.drop_first() == s@.subrange(1, s@.len() as int));
            } else {
                assert(s@ == s@.subrange(0, s@.len() as int));
            }
        }
        match read_digits(s, start, i64::MAX as u64) {
            Some(v) => Some(v as i64),
            None => None,
        }
    }
}

/// The simulator's settings.
#[derive(Clone, Debug)]
pub struct Args {
    pub nodes: usize,
    pub duration_ms: Micros,
    pub settle_ms: Micros,
    pub sync_start_ms: Micros,
    pub group_join_ms: Micros,
    pub seed: u64,
    pub wav_path: String,
}

/// Why a command line was not accepted: a flag missing its value, a value
/// that does not parse, an unknown argument, or a request for help.
#[derive(Clone, Debug)]
pub enum ArgsError {
    MissingValue(String),
    InvalidValue(String),
    Unknown(String),
    Help,
}

/// The settings, as values.
pub ghost struct ArgsSpec {
    pub nodes: int,
    pub duration_ms: int,
    pub settle_ms: int,
    pub sync_start_ms: int,
    pub group_join_ms: int,
    pub seed: int,
    pub wav: Seq<char>,
}

/// A refusal, as values.
pub ghost enum ArgsFault {
    Missing(Seq<char>),
    Invalid(Seq<char>),
    Unknown(Seq<char>),
    Help,
}

impl Args {
    pub open spec fn spec(self) -> ArgsSpec {
        ArgsSpec {
            nodes: self.nodes as int,
            duration_ms: self.duration_ms as int,
            settle_ms: self.settle_ms as int,
            sync_start_ms: self.sync_start_ms as int,
            group_join_ms: self.group_join_ms as int,
            seed: self.seed as int,
            wav: self.wav_path@,
        }
    }
}

impl ArgsError {
    pub open spec fn fault(self) -> ArgsFault {
        match self {
            ArgsError::MissingValue(f) => ArgsFault::Missing(f@),
            ArgsError::InvalidValue(f) => ArgsFault::Invalid(f@),
            ArgsError::Unknown(a) => ArgsFault::Unknown(a@),
            ArgsError::Help => ArgsFault::Help,
        }
    }
}

/// The settings before any flag: eight boxes, eighteen seconds, no
/// settling, the default sync start and cluster join, seed 0x10f1.
pub open spec fn default_args() -> ArgsSpec {
    ArgsSpec {
        nodes: 8,
        duration_ms: 18_000,
        settle_ms: 0,
        sync_start_ms: 2_500,
        group_join_ms: 8_000,
        seed: 0x10f1,
        wav: "target/lofi-two-clusters-merge.wav"@,
    }
}

/// A flag's integer value, within `lo` to `hi`, read as a signed decimal
/// when `signed`.
pub open spec fn flag_value(text: Seq<char>, signed: bool, lo: int, hi: int) -> Option<int> {
    let v = if signed { signed_text(text) } else { unsigned_text(text) };
    match v {
        Some(x) => if lo <= x <= hi { Some(x) } else { None },
        None => None,
    }
}

/// The flags from `i` on, applied in order to `acc`.
pub open spec fn parse_from(args: Seq<Seq<char>>, i: int, acc: ArgsSpec) -> Result<ArgsSpec, ArgsFault>
    decreases args.len() - i,
{
    if i < 0 || i >= args.len() {
        Ok(acc)
    } else {
        let a = args[i];
        let has_value = i + 1 < args.len();
        let v = if has_value { args[i + 1] } else { Seq::empty() };
        if a == "--nodes"@ || a == "--duration-ms"@ || a == "--settle-ms"@ || a == "--sync-start-ms"@ || a
            == "--group-join-ms"@ || a == "--seed"@ {
            if !has_value {
                Err(ArgsFault::Missing(a))
            } else {
                let parsed = if a == "--nodes"@ {
                    flag_value(v, false, 0, usize::MAX as int)
                } else if a == "--seed"@ {
                    flag_value(v, false, 0, u64::MAX as int)
                } else {
                    flag_value(v, true, i64::MIN as int, i64::MAX as int)
                };
                match parsed {
                    None => Err(ArgsFault::Invalid(a)),
                    Some(x) => parse_from(
                        args,
                        i + 2,
                        if a == "--nodes"@ {
                            ArgsSpec { nodes: x, ..acc }
                        } else if a == "--duration-ms"@ {
                            ArgsSpec { duration_ms: x, ..acc }
                        } else if a == "--settle-ms"@ {
                            ArgsSpec { settle_ms: x, ..acc }
                        } else if a == "--sync-start-ms"@ {
                            ArgsSpec { sync_start_ms: x, ..acc }
                        } else if a == "--group-join-ms"@ {
                            ArgsSpec { group_join_ms: x, ..acc }
                        } else {
                            ArgsSpec { seed: x, ..acc }
                        },
                    ),
                }
            }
        } else if a == "--wav"@ {
            if !has_value {
                Err(ArgsFault::Missing(a))
            } else {
                parse_from(args, i + 2, ArgsSpec { wav: v, ..acc })
            }
        } else if a == "--help"@ || a == "-h"@ {
            Err(ArgsFault::Help)
        } else {
            Err(ArgsFault::Unknown(a))
        }
    }
}

/// The settings a command line asks for (at least one box).
pub open spec fn parse_spec(args: Seq<Seq<char>>) -> Result<ArgsSpec, ArgsFault> {
    match parse_from(args, 0, default_args()) {
        Ok(a) => Ok(ArgsSpec { nodes: if a.nodes < 1 { 1 } else { a.nodes }, ..a }),
        Err(e) => Err(e),
    }
}

/// The characters of each argument.
pub open spec fn views(args: Seq<String>) -> Seq<Seq<char>> {
    Seq::new(args.len(), |i: int| args[i]@)
}

/// Read the simulator's settings from its arguments (the program name
/// left out).
pub fn parse_args(args: &[String]) -> (r: Result<Args, ArgsError>)
    ensures
        match r {
            Ok(a) => parse_spec(views(args@)) == Ok::<ArgsSpec, ArgsFault>(a.spec()),
            Err(e) => parse_spec(views(args@)) == Err::<ArgsSpec, ArgsFault>(e.fault()),
        },
{
    let ghost vs = views(args@);
    let mut out = Args {
        nodes: 8,
        duration_ms: 18_000,
        settle_ms: 0,
        sync_start_ms: DEFAULT_SYNC_START_US / 1_000,
        group_join_ms: DEFAULT_GROUP_JOIN_US / 1_000,
        seed: 0x10f1,
        wav_path: String::from_str("target/lofi-two-clusters-merge.wav"),
    };
    let n = args.len();
    let mut i: usize = 0;
    while i < n
        invariant
            n == args@.len(),
            vs == views(args@),
            i <= n,
            parse_from(vs, 0, default_args()) == parse_from(vs, i as int, out.spec()),
        decreases n - i,
    {
        let a = args[i].as_str();
        assert(a@ == vs[i as int]);
        proof {
            reveal_strlit("--nodes");
            reveal_strlit("--duration-ms");
            reveal_strlit("--settle-ms");
            reveal_strlit("--sync-start-ms");
            reveal_strlit("--group-join-ms");
            reveal_strlit("--seed");
            reveal_strlit("--wav");
            reveal_strlit("--help");
            reveal_strlit("-h");
        }
        let has_value = i + 1 < n;
        if text_is(a, "--nodes") || text_is(a, "--duration-ms") || text_is(a, "--settle-ms") || text_is(
            a,
            "--sync-start-ms",
        ) || text_is(a, "--group-join-ms") || text_is(a, "--seed") {
            if !has_value {
                return Err(ArgsError::MissingValue(args[i].clone()));
            }
            let v = args[i + 1].as_str();
            assert(v@ == vs[i + 1]);
            if text_is(a, "--nodes") {
                match parse_usize(v) {
                    Some(x) => out.nodes = x,
                    None => return Err(ArgsError::InvalidValue(args[i].clone())),
                }
            } else if text_is(a, "--seed") {
                match parse_u64(v) {
                    Some(x) => out.seed = x,
                    None => return Err(ArgsError::InvalidValue(args[i].clone())),
                }
            } else {
                let x = match parse_i64(v) {
                    Some(x) => x,
                    None => return Err(ArgsError::InvalidValue(args[i].clone())),
                };
                if text_is(a, "--duration-ms") {
                    out.duration_ms = x;
                } else if text_is(a, "--settle-ms") {
                    out.settle_ms = x;
                } else if text_is(a, "--sync-start-ms") {
                    out.sync_start_ms = x;
                } else {
                    out.group_join_ms = x;
                }
            }
            i = i + 2;
        } else if text_is(a, "--wav") {
            if !has_value {
                return Err(ArgsError::MissingValue(args[i].clone()));
            }
            out.wav_path = args[i + 1].clone();
            assert(out.wav_path@ == vs[i + 1]);
            i = i + 2;
        } else if text_is(a, "--help") || text_is(a, "-h") {
            return Err(ArgsError::Help);
        } else {
            return Err(ArgsError::Unknown(args[i].clone()));
        }
    }
    if out.nodes < 1 {
        out.nodes = 1;
    }
    Ok(out)
}

} // verus!

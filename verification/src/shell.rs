//! The debugger shell's command grammar.
//!
//! After the target halts, the host offers a small prompt. A line is first
//! trimmed of surrounding whitespace, then cut at the first `#` (a comment).
//! What remains is `help`, `quit`, a `show` command — an address (decimal, or
//! hexadecimal with a `0x` prefix and optional `_` separators) followed by
//! either one word count or a negative and a non-negative word count — or
//! nothing, or an unknown command.

use vstd::prelude::*;
use vstd::string::StrSliceExecFns;

use crate::diag::{hex_val, is_hex_digit};

verus! {

/// One parsed prompt line.
#[derive(Clone, Copy, Debug, PartialEq, Eq, Structural)]
pub enum Command {
    /// Display the command summary.
    Help,
    /// Leave the prompt.
    Quit,
    /// Display memory: words `start..end` (in word offsets, possibly
    /// negative) around `addr`.
    Show { addr: u32, start: i32, end: i32 },
    /// A blank line or a comment: nothing to do.
    Empty,
    /// A `show` command whose address or range does not parse.
    Invalid,
    /// Any other command word.
    Unknown,
}

/// The whitespace the prompt trims.
pub open spec fn is_shell_space(c: char) -> bool {
    c == ' ' || c == '\t' || c == '\r' || c == '\n'
}

/// `s` without leading whitespace.
pub open spec fn trim_front(s: Seq<char>) -> Seq<char>
    decreases s.len(),
{
    if s.len() > 0 && is_shell_space(s[0]) {
        trim_front(s.skip(1))
    } else {
        s
    }
}

/// `s` without trailing whitespace.
pub open spec fn trim_back(s: Seq<char>) -> Seq<char>
    decreases s.len(),
{
    if s.len() > 0 && is_shell_space(s.last()) {
        trim_back(s.drop_last())
    } else {
        s
    }
}

/// `s` without surrounding whitespace.
pub open spec fn trimmed(s: Seq<char>) -> Seq<char> {
    trim_back(trim_front(s))
}

/// The part of `s` before the first `#`.
pub open spec fn before_comment(s: Seq<char>) -> Seq<char>
    decreases s.len(),
{
    if s.len() == 0 {
        s
    } else if s[0] == '#' {
        Seq::empty()
    } else {
        seq![s[0]] + before_comment(s.skip(1))
    }
}

/// The index of the first space in `s`, or its length when it has none.
pub open spec fn first_space(s: Seq<char>) -> int
    decreases s.len(),
{
    if s.len() == 0 {
        0
    } else if s[0] == ' ' {
        0
    } else {
        1 + first_space(s.skip(1))
    }
}

/// `s` split at the first two spaces into at most three fields, the third
/// keeping any further spaces.
pub open spec fn split3(s: Seq<char>) -> (Seq<char>, Option<Seq<char>>, Option<Seq<char>>) {
    let k1 = first_space(s);
    if k1 >= s.len() {
        (s, None, None)
    } else {
        let rest = s.skip(k1 + 1);
        let k2 = first_space(rest);
        if k2 >= rest.len() {
            (s.take(k1), Some(rest), None)
        } else {
            (s.take(k1), Some(rest.take(k2)), Some(rest.skip(k2 + 1)))
        }
    }
}

/// True when `c` is a decimal digit.
pub open spec fn is_dec_digit(c: char) -> bool {
    '0' <= c && c <= '9'
}

/// The number written by a sequence of decimal digits.
pub open spec fn dec_value(s: Seq<char>) -> int
    decreases s.len(),
{
    if s.len() == 0 {
        0
    } else {
        dec_value(s.drop_last()) * 10 + (s.last() as int - '0' as int)
    }
}

/// How many hexadecimal digits a digits-and-separators body holds.
pub open spec fn hexu_digits(s: Seq<char>) -> int
    decreases s.len(),
{
    if s.len() == 0 {
        0
    } else {
        hexu_digits(s.drop_last()) + if s.last() == '_' {
            0int
        } else {
            1int
        }
    }
}

/// The number written by hexadecimal digits interleaved with `_` separators.
pub open spec fn hexu_value(s: Seq<char>) -> int
    decreases s.len(),
{
    if s.len() == 0 {
        0
    } else if s.last() == '_' {
        hexu_value(s.drop_last())
    } else {
        hexu_value(s.drop_last()) * 16 + hex_val(s.last())
    }
}

/// The body of a number token after its optional leading plus sign.
pub open spec fn after_plus(s: Seq<char>) -> Seq<char> {
    if s.len() > 0 && s[0] == '+' {
        s.skip(1)
    } else {
        s
    }
}

/// The body of a number token after its optional leading sign.
pub open spec fn after_sign(s: Seq<char>) -> Seq<char> {
    if s.len() > 0 && (s[0] == '-' || s[0] == '+') {
        s.skip(1)
    } else {
        s
    }
}

/// A 32-bit unsigned decimal number: an optional plus sign, then at least one
/// decimal digit, writing a value that fits.
pub open spec fn parse_u32_dec(s: Seq<char>) -> Option<u32> {
    let b = after_plus(s);
    if b.len() >= 1 && (forall|i: int| 0 <= i < b.len() ==> is_dec_digit(#[trigger] b[i]))
        && dec_value(b) <= 0xffff_ffff {
        Some(dec_value(b) as u32)
    } else {
        None
    }
}

/// A `show` address: `0x` followed by hexadecimal digits with optional `_`
/// separators (and an optional plus sign), or a plain decimal number.
pub open spec fn parse_show_addr(s: Seq<char>) -> Option<u32> {
    if s.len() >= 2 && s[0] == '0' && s[1] == 'x' {
        let b = after_plus(s.skip(2));
        if hexu_digits(b) >= 1 && (forall|i: int|
            0 <= i < b.len() ==> (is_hex_digit(#[trigger] b[i]) || b[i] == '_')) && hexu_value(b)
            <= 0xffff_ffff {
            Some(hexu_value(b) as u32)
        } else {
            None
        }
    } else {
        parse_u32_dec(s)
    }
}

/// A signed 32-bit decimal number: an optional sign, then at least one
/// decimal digit, writing a value that fits.
pub open spec fn parse_i32_dec(s: Seq<char>) -> Option<i32> {
    let negative = s.len() > 0 && s[0] == '-';
    let b = after_sign(s);
    if b.len() >= 1 && (forall|i: int| 0 <= i < b.len() ==> is_dec_digit(#[trigger] b[i])) {
        if negative && dec_value(b) <= 0x8000_0000 {
            Some((-dec_value(b)) as i32)
        } else if !negative && dec_value(b) <= 0x7fff_ffff {
            Some(dec_value(b) as i32)
        } else {
            None
        }
    } else {
        None
    }
}

/// What a `show` command's arguments mean: an address and then either a
/// single word count `n` — displaying `n..1` when it is negative and `0..n`
/// otherwise — or an explicitly negative start and a non-negative end,
/// displaying `start..end + 1`.
pub open spec fn parse_show(args: Seq<char>) -> Command {
    let t = trimmed(args);
    let (tok1, tok2, tok3) = split3(t);
    let addr = parse_show_addr(tok1);
    let range: Option<(i32, i32)> = match (tok2, tok3) {
        (Some(ntok), None) => match parse_i32_dec(ntok) {
            Some(n) => if n < 0 {
                Some((n, 1))
            } else {
                Some((0, n))
            },
            None => None,
        },
        (Some(mtok), Some(ntok)) => {
            if (mtok.len() > 0 && mtok[0] == '-') && !(ntok.len() > 0 && ntok[0] == '-') {
                match (parse_i32_dec(mtok), parse_i32_dec(ntok)) {
                    (Some(m), Some(n)) => if n < 0x7fff_ffff {
                        Some((m, (n + 1) as i32))
                    } else {
                        None
                    },
                    _ => None,
                }
            } else {
                None
            }
        },
        (None, _) => None,
    };
    match (addr, range) {
        (Some(a), Some((start, end))) => Command::Show { addr: a, start, end },
        _ => Command::Invalid,
    }
}

/// Appending characters never shrinks the decimal value they write.
proof fn lemma_dec_value_grows(s: Seq<char>, i: int)
    requires
        0 <= i <= s.len(),
        forall|j: int| 0 <= j < s.len() ==> is_dec_digit(#[trigger] s[j]),
    ensures
        dec_value(s) >= dec_value(s.take(i)),
        dec_value(s) >= 0,
    decreases s.len() - i,
{
    if i == s.len() {
        assert(s.take(i) =~= s);
        lemma_dec_value_nonneg(s);
    } else {
        lemma_dec_value_grows(s, i + 1);
        assert(s.take(i + 1).drop_last() =~= s.take(i));
        lemma_dec_value_nonneg(s.take(i));
    }
}

proof fn lemma_dec_value_nonneg(s: Seq<char>)
    requires
        forall|j: int| 0 <= j < s.len() ==> is_dec_digit(#[trigger] s[j]),
    ensures
        dec_value(s) >= 0,
    decreases s.len(),
{
    if s.len() > 0 {
        lemma_dec_value_nonneg(s.drop_last());
    }
}

/// Appending characters never shrinks the hexadecimal value they write.
proof fn lemma_hexu_value_grows(s: Seq<char>, i: int)
    requires
        0 <= i <= s.len(),
        forall|j: int| 0 <= j < s.len() ==> is_hex_digit(#[trigger] s[j]) || s[j] == '_',
    ensures
        hexu_value(s) >= hexu_value(s.take(i)),
        hexu_value(s) >= 0,
    decreases s.len() - i,
{
    if i == s.len() {
        assert(s.take(i) =~= s);
        lemma_hexu_value_nonneg(s);
    } else {
        lemma_hexu_value_grows(s, i + 1);
        assert(s.take(i + 1).drop_last() =~= s.take(i));
        lemma_hexu_value_nonneg(s.take(i));
    }
}

proof fn lemma_hexu_value_nonneg(s: Seq<char>)
    requires
        forall|j: int| 0 <= j < s.len() ==> is_hex_digit(#[trigger] s[j]) || s[j] == '_',
    ensures
        hexu_value(s) >= 0,
    decreases s.len(),
{
    if s.len() > 0 {
        lemma_hexu_value_nonneg(s.drop_last());
    }
}

/// `first_space` is pinned by a witness: the first space's position, or the
/// length when no space occurs.
proof fn lemma_first_space(s: Seq<char>, i: int)
    requires
        0 <= i <= s.len(),
        forall|j: int| 0 <= j < i ==> s[j] != ' ',
        i < s.len() ==> s[i] == ' ',
    ensures
        first_space(s) == i,
    decreases s.len(),
{
    if s.len() == 0 {
    } else if s[0] == ' ' {
    } else {
        assert(i >= 1);
        lemma_first_space(s.skip(1), i - 1);
    }
}

/// What one prompt line means.
pub open spec fn command_of(line: Seq<char>) -> Command {
    let core = before_comment(trimmed(line));
    if core.len() == 0 {
        Command::Empty
    } else if core == seq!['h', 'e', 'l', 'p'] {
        Command::Help
    } else if core == seq!['q', 'u', 'i', 't'] {
        Command::Quit
    } else if core.len() >= 5 && core.take(5) == seq!['s', 'h', 'o', 'w', ' '] {
        parse_show(core.skip(5))
    } else {
        Command::Unknown
    }
}

/// Collects a string's characters.
fn chars_of(s: &str) -> (r: Vec<char>)
    ensures
        r@ == s@,
{
    let n = s.unicode_len();
    let mut out: Vec<char> = Vec::new();
    let mut i: usize = 0;
    while i < n
        invariant
            i <= n,
            n == s@.len(),
            out@ == s@.take(i as int),
        decreases n - i,
    {
        out.push(s.get_char(i));
        proof {
            assert(out@ =~= s@.take(i + 1));
        }
        i = i + 1;
    }
    proof {
        assert(out@ =~= s@);
    }
    out
}

/// Whether the prompt trims `c`.
fn shell_space(c: char) -> (r: bool)
    ensures
        r == is_shell_space(c),
{
    c == ' ' || c == '\t' || c == '\r' || c == '\n'
}

/// Parses `cs[lo..hi]` as a signed 32-bit decimal number.
fn parse_i32_tok(cs: &Vec<char>, lo: usize, hi: usize) -> (r: Option<i32>)
    requires
        lo <= hi <= cs@.len(),
    ensures
        r == parse_i32_dec(cs@.subrange(lo as int, hi as int)),
{
    let ghost tok = cs@.subrange(lo as int, hi as int);
    let mut i = lo;
    let mut negative = false;
    if i < hi && (cs[i] == '-' || cs[i] == '+') {
        negative = cs[i] == '-';
        i = i + 1;
    }
    let ghost b = after_sign(tok);
    proof {
        assert(b =~= cs@.subrange(i as int, hi as int));
    }
    if i >= hi {
        return None;
    }
    let start = i;
    let mut value: u64 = 0;
    while i < hi
        invariant
            lo <= start <= i <= hi <= cs@.len(),
            tok == cs@.subrange(lo as int, hi as int),
            b == after_sign(tok),
            b == cs@.subrange(start as int, hi as int),
            negative == (tok.len() > 0 && tok[0] == '-'),
            value as int == dec_value(b.take(i - start)),
            value <= 0x8000_0000,
            forall|j: int| 0 <= j < i - start ==> is_dec_digit(#[trigger] b[j]),
        decreases hi - i,
    {
        let c = cs[i];
        if c < '0' || c > '9' {
            proof {
                assert(!is_dec_digit(b[i - start]));
            }
            return None;
        }
        let d: u64 = c as u64 - '0' as u64;
        proof {
            assert(b[i - start] == cs@[i as int]);
            assert(b.take(i - start + 1).drop_last() =~= b.take(i - start));
            assert(b.take(i - start + 1).last() == b[i - start]);
        }
        value = value * 10 + d;
        i = i + 1;
        proof {
            assert(value as int == dec_value(b.take(i - start)));
        }
        if value > 0x8000_0000 {
            proof {
                if forall|j: int| 0 <= j < b.len() ==> is_dec_digit(#[trigger] b[j]) {
                    lemma_dec_value_grows(b, i - start);
                }
            }
            return None;
        }
    }
    proof {
        assert(b.take(hi - start) =~= b);
    }
    if negative {
        if value <= 0x7fff_ffff {
            Some(-(value as i32))
        } else {
            Some(i32::MIN)
        }
    } else {
        if value <= 0x7fff_ffff {
            Some(value as i32)
        } else {
            None
        }
    }
}

/// Parses `cs[lo..hi]` as a 32-bit unsigned decimal number.
fn parse_u32_dec_tok(cs: &Vec<char>, lo: usize, hi: usize) -> (r: Option<u32>)
    requires
        lo <= hi <= cs@.len(),
    ensures
        r == parse_u32_dec(cs@.subrange(lo as int, hi as int)),
{
    let ghost tok = cs@.subrange(lo as int, hi as int);
    let mut i = lo;
    if i < hi && cs[i] == '+' {
        i = i + 1;
    }
    let ghost b = after_plus(tok);
    proof {
        assert(b =~= cs@.subrange(i as int, hi as int));
    }
    if i >= hi {
        return None;
    }
    let start = i;
    let mut value: u64 = 0;
    while i < hi
        invariant
            lo <= start <= i <= hi <= cs@.len(),
            tok == cs@.subrange(lo as int, hi as int),
            b == after_plus(tok),
            b == cs@.subrange(start as int, hi as int),
            value as int == dec_value(b.take(i - start)),
            value <= 0xffff_ffff,
            forall|j: int| 0 <= j < i - start ==> is_dec_digit(#[trigger] b[j]),
        decreases hi - i,
    {
        let c = cs[i];
        if c < '0' || c > '9' {
            proof {
                assert(!is_dec_digit(b[i - start]));
            }
            return None;
        }
        let d: u64 = c as u64 - '0' as u64;
        proof {
            assert(b[i - start] == cs@[i as int]);
            assert(b.take(i - start + 1).drop_last() =~= b.take(i - start));
            assert(b.take(i - start + 1).last() == b[i - start]);
        }
        value = value * 10 + d;
        i = i + 1;
        proof {
            assert(value as int == dec_value(b.take(i - start)));
        }
        if value > 0xffff_ffff {
            proof {
                if forall|j: int| 0 <= j < b.len() ==> is_dec_digit(#[trigger] b[j]) {
                    lemma_dec_value_grows(b, i - start);
                }
            }
            return None;
        }
    }
    proof {
        assert(b.take(hi - start) =~= b);
    }
    Some(value as u32)
}

/// Parses `cs[lo..hi]` as a `show` address.
fn parse_addr_tok(cs: &Vec<char>, lo: usize, hi: usize) -> (r: Option<u32>)
    requires
        lo <= hi <= cs@.len(),
    ensures
        r == parse_show_addr(cs@.subrange(lo as int, hi as int)),
{
    let ghost tok = cs@.subrange(lo as int, hi as int);
    if hi - lo >= 2 && cs[lo] == '0' && cs[lo + 1] == 'x' {
        let mut i = lo + 2;
        if i < hi && cs[i] == '+' {
            i = i + 1;
        }
        let ghost b = after_plus(tok.skip(2));
        proof {
            assert(tok.skip(2) =~= cs@.subrange(lo + 2, hi as int));
            assert(b =~= cs@.subrange(i as int, hi as int));
        }
        let start = i;
        let mut value: u64 = 0;
        let mut digits = false;
        while i < hi
            invariant
                lo <= start <= i <= hi <= cs@.len(),
                tok == cs@.subrange(lo as int, hi as int),
                tok.len() >= 2 && tok[0] == '0' && tok[1] == 'x',
                b == after_plus(tok.skip(2)),
                b == cs@.subrange(start as int, hi as int),
                value as int == hexu_value(b.take(i - start)),
                value <= 0xffff_ffff,
                digits == (hexu_digits(b.take(i - start)) >= 1),
                hexu_digits(b.take(i - start)) >= 0,
                forall|j: int|
                    0 <= j < i - start ==> is_hex_digit(#[trigger] b[j]) || b[j] == '_',
            decreases hi - i,
        {
            let c = cs[i];
            proof {
                assert(b[i - start] == cs@[i as int]);
                assert(b.take(i - start + 1).drop_last() =~= b.take(i - start));
                assert(b.take(i - start + 1).last() == b[i - start]);
            }
            if c == '_' {
                i = i + 1;
                proof {
                    assert(value as int == hexu_value(b.take(i - start)));
                }
                continue ;
            }
            let d: u64;
            if c >= '0' && c <= '9' {
                d = c as u64 - '0' as u64;
            } else if c >= 'a' && c <= 'f' {
                d = c as u64 - 'a' as u64 + 10;
            } else if c >= 'A' && c <= 'F' {
                d = c as u64 - 'A' as u64 + 10;
            } else {
                proof {
                    assert(!(is_hex_digit(b[i - start]) || b[i - start] == '_'));
                }
                return None;
            }
            proof {
                assert(hex_val(b[i - start]) == d as int);
            }
            value = value * 16 + d;
            digits = true;
            i = i + 1;
            proof {
                assert(value as int == hexu_value(b.take(i - start)));
                assert(hexu_digits(b.take(i - start)) >= 1);
            }
            if value > 0xffff_ffff {
                proof {
                    if forall|j: int|
                        0 <= j < b.len() ==> is_hex_digit(#[trigger] b[j]) || b[j] == '_' {
                        lemma_hexu_value_grows(b, i - start);
                    }
                }
                return None;
            }
        }
        proof {
            assert(b.take(hi - start) =~= b);
        }
        if digits {
            Some(value as u32)
        } else {
            None
        }
    } else {
        proof {
            if tok.len() >= 2 {
                assert(tok[0] == cs@[lo as int] && tok[1] == cs@[lo + 1]);
            }
        }
        parse_u32_dec_tok(cs, lo, hi)
    }
}

/// Parses the arguments of a `show` command, `cs[lo..hi]`.
#[verifier::rlimit(30)]
fn parse_show_args(cs: &Vec<char>, lo: usize, hi: usize) -> (r: Command)
    requires
        lo <= hi <= cs@.len(),
    ensures
        r == parse_show(cs@.subrange(lo as int, hi as int)),
{
    let ghost args = cs@.subrange(lo as int, hi as int);
    // trim the argument list
    let mut a = lo;
    while a < hi && shell_space(cs[a])
        invariant
            lo <= a <= hi <= cs@.len(),
            trim_front(cs@.subrange(lo as int, hi as int)) == trim_front(
                cs@.subrange(a as int, hi as int),
            ),
        decreases hi - a,
    {
        proof {
            assert(cs@.subrange(a as int, hi as int).skip(1) =~= cs@.subrange(a + 1, hi as int));
        }
        a = a + 1;
    }
    proof {
        assert(trim_front(args) == cs@.subrange(a as int, hi as int));
    }
    let mut b = hi;
    while b > a && shell_space(cs[b - 1])
        invariant
            a <= b <= hi <= cs@.len(),
            trim_back(cs@.subrange(a as int, hi as int)) == trim_back(
                cs@.subrange(a as int, b as int),
            ),
        decreases b,
    {
        proof {
            assert(cs@.subrange(a as int, b as int).drop_last() =~= cs@.subrange(
                a as int,
                b - 1,
            ));
        }
        b = b - 1;
    }
    let ghost t = cs@.subrange(a as int, b as int);
    proof {
        assert(trimmed(args) == t);
    }
    // the first two spaces split the arguments into at most three fields
    let mut k1 = a;
    while k1 < b && cs[k1] != ' '
        invariant
            a <= k1 <= b,
            b <= cs@.len(),
            forall|j: int| a <= j < k1 ==> cs@[j] != ' ',
        decreases b - k1,
    {
        k1 = k1 + 1;
    }
    proof {
        lemma_first_space(t, k1 - a);
    }
    if k1 >= b {
        return Command::Invalid;
    }
    let addr = parse_addr_tok(cs, a, k1);
    proof {
        assert(t.take(k1 - a) =~= cs@.subrange(a as int, k1 as int));
    }
    let ghost rest = t.skip(k1 - a + 1);
    proof {
        assert(rest =~= cs@.subrange(k1 + 1, b as int));
    }
    let mut k2 = k1 + 1;
    while k2 < b && cs[k2] != ' '
        invariant
            k1 + 1 <= k2 <= b,
            b <= cs@.len(),
            forall|j: int| k1 + 1 <= j < k2 ==> cs@[j] != ' ',
        decreases b - k2,
    {
        k2 = k2 + 1;
    }
    proof {
        lemma_first_space(rest, k2 - (k1 + 1));
    }
    if k2 >= b {
        // two fields: address and one word count
        let n = parse_i32_tok(cs, k1 + 1, b);
        match (addr, n) {
            (Some(addr), Some(n)) => {
                if n < 0 {
                    Command::Show { addr, start: n, end: 1 }
                } else {
                    Command::Show { addr, start: 0, end: n }
                }
            },
            _ => Command::Invalid,
        }
    } else {
        // three fields: address, negative start, non-negative end
        proof {
            assert(rest.take(k2 - (k1 + 1)) =~= cs@.subrange(k1 + 1, k2 as int));
            assert(rest.skip(k2 - (k1 + 1) + 1) =~= cs@.subrange(k2 + 1, b as int));
        }
        let m_minus = k1 + 1 < k2 && cs[k1 + 1] == '-';
        let n_minus = k2 + 1 < b && cs[k2 + 1] == '-';
        if !(m_minus && !n_minus) {
            return Command::Invalid;
        }
        let m = parse_i32_tok(cs, k1 + 1, k2);
        let n = parse_i32_tok(cs, k2 + 1, b);
        match (addr, m, n) {
            (Some(addr), Some(m), Some(n)) => {
                if n < 0x7fff_ffff {
                    Command::Show { addr, start: m, end: n + 1 }
                } else {
                    Command::Invalid
                }
            },
            _ => Command::Invalid,
        }
    }
}

/// Parses one prompt line into the command it means.
pub fn parse_command(line: &str) -> (r: Command)
    ensures
        r == command_of(line@),
{
    let cs = chars_of(line);
    let n = cs.len();
    // trim the line
    proof {
        assert(cs@.subrange(0, n as int) =~= cs@);
    }
    let mut a: usize = 0;
    while a < n && shell_space(cs[a])
        invariant
            a <= n,
            n == cs@.len(),
            cs@ == line@,
            trim_front(line@) == trim_front(cs@.subrange(a as int, n as int)),
        decreases n - a,
    {
        proof {
            assert(cs@.subrange(a as int, n as int).skip(1) =~= cs@.subrange(a + 1, n as int));
        }
        a = a + 1;
    }
    proof {
        assert(cs@.subrange(0, n as int) =~= cs@);
        assert(trim_front(line@) == cs@.subrange(a as int, n as int));
    }
    let mut b: usize = n;
    while b > a && shell_space(cs[b - 1])
        invariant
            a <= b <= n,
            n == cs@.len(),
            cs@ == line@,
            trim_back(cs@.subrange(a as int, n as int)) == trim_back(
                cs@.subrange(a as int, b as int),
            ),
        decreases b,
    {
        proof {
            assert(cs@.subrange(a as int, b as int).drop_last() =~= cs@.subrange(
                a as int,
                b - 1,
            ));
        }
        b = b - 1;
    }
    let ghost t = cs@.subrange(a as int, b as int);
    proof {
        assert(trimmed(line@) == t);
    }
    // cut the line at the first comment sign
    proof {
        assert(t.skip(0) =~= t);
        assert(t.take(0) + before_comment(t) =~= before_comment(t));
    }
    let mut k = a;
    while k < b && cs[k] != '#'
        invariant
            a <= k <= b,
            b <= cs@.len(),
            cs@ == line@,
            t == cs@.subrange(a as int, b as int),
            before_comment(t) == t.take(k - a) + before_comment(t.skip(k - a)),
        decreases b - k,
    {
        proof {
            let r0 = t.skip(k - a);
            assert(r0[0] == cs@[k as int]);
            assert(r0.skip(1) =~= t.skip(k - a + 1));
            assert(t.take(k - a) + (seq![r0[0]] + before_comment(r0.skip(1))) =~= t.take(
                k - a + 1,
            ) + before_comment(t.skip(k - a + 1)));
        }
        k = k + 1;
    }
    let ghost core = before_comment(t);
    proof {
        if k < b {
            assert(t.skip(k - a)[0] == cs@[k as int]);
        }
        assert(before_comment(t.skip(k - a)) =~= Seq::<char>::empty());
        assert(core =~= t.take(k - a));
        assert(core =~= cs@.subrange(a as int, k as int));
    }
    let m = k - a;
    if m == 0 {
        return Command::Empty;
    }
    proof {
        assert forall|j: int| 0 <= j < m implies core[j] == cs@[a + j] by {}
    }
    let is_help = m == 4 && cs[a] == 'h' && cs[a + 1] == 'e' && cs[a + 2] == 'l' && cs[a + 3]
        == 'p';
    proof {
        assert(is_help == (core == seq!['h', 'e', 'l', 'p'])) by {
            if is_help {
                assert(core =~= seq!['h', 'e', 'l', 'p']);
            } else if core == seq!['h', 'e', 'l', 'p'] {
                assert(core[0] == 'h' && core[1] == 'e' && core[2] == 'l' && core[3] == 'p');
            }
        }
    }
    if is_help {
        return Command::Help;
    }
    let is_quit = m == 4 && cs[a] == 'q' && cs[a + 1] == 'u' && cs[a + 2] == 'i' && cs[a + 3]
        == 't';
    proof {
        assert(is_quit == (core == seq!['q', 'u', 'i', 't'])) by {
            if is_quit {
                assert(core =~= seq!['q', 'u', 'i', 't']);
            } else if core == seq!['q', 'u', 'i', 't'] {
                assert(core[0] == 'q' && core[1] == 'u' && core[2] == 'i' && core[3] == 't');
            }
        }
    }
    if is_quit {
        return Command::Quit;
    }
    let is_show = m >= 5 && cs[a] == 's' && cs[a + 1] == 'h' && cs[a + 2] == 'o' && cs[a + 3]
        == 'w' && cs[a + 4] == ' ';
    proof {
        assert(is_show == (m >= 5 && core.take(5) == seq!['s', 'h', 'o', 'w', ' '])) by {
            if is_show {
                assert(core.take(5) =~= seq!['s', 'h', 'o', 'w', ' ']);
            } else if m >= 5 && core.take(5) == seq!['s', 'h', 'o', 'w', ' '] {
                assert(core.take(5)[0] == 's' && core.take(5)[1] == 'h' && core.take(5)[2] == 'o'
                    && core.take(5)[3] == 'w' && core.take(5)[4] == ' ');
            }
        }
    }
    if is_show {
        proof {
            assert(core.skip(5) =~= cs@.subrange(a + 5, k as int));
        }
        return parse_show_args(&cs, a + 5, k);
    }
    Command::Unknown
}

} // verus!

use vstd::prelude::*;
use crate::glyph::{Char, index_of_char};

verus! {

pub open spec fn is_ws(b: u8) -> bool {
    b == 32 || b == 9 || b == 13
}

/// Operands are separated by commas or white space.
pub open spec fn is_sep(b: u8) -> bool {
    is_ws(b) || b == 44
}

/// A comment starts at `;` or `/` and runs to the end of the line.
pub open spec fn is_comment(b: u8) -> bool {
    b == 59 || b == 47
}

pub open spec fn is_digit(b: u8) -> bool {
    48 <= b <= 57
}

/// Letters, digits, `_` and `.` make up names.
pub open spec fn is_ident(b: u8) -> bool {
    is_digit(b) || (65 <= b <= 90) || (97 <= b <= 122) || b == 95 || b == 46
}

pub open spec fn upper(b: u8) -> u8 {
    if 97 <= b <= 122 {
        (b - 32) as u8
    } else {
        b
    }
}

pub open spec fn hex_digit(b: u8) -> Option<u8> {
    if is_digit(b) {
        Some((b - 48) as u8)
    } else if 65 <= b <= 70 {
        Some((b - 55) as u8)
    } else if 97 <= b <= 102 {
        Some((b - 87) as u8)
    } else {
        None
    }
}

/// Index of the first newline at or after `i`, or the length.
pub open spec fn find_nl(s: Seq<u8>, i: int) -> int
    decreases s.len() - i,
{
    if i >= s.len() {
        s.len() as int
    } else if s[i] == 10 {
        i
    } else {
        find_nl(s, i + 1)
    }
}

/// Index of the first comment byte in `[i, e)`, or `e`.
pub open spec fn comment_start(s: Seq<u8>, i: int, e: int) -> int
    decreases e - i,
{
    if i >= e {
        e
    } else if is_comment(s[i]) {
        i
    } else {
        comment_start(s, i + 1, e)
    }
}

/// Index of the first byte in `[i, e)` that is not white space, or `e`.
pub open spec fn skip_ws(s: Seq<u8>, i: int, e: int) -> int
    decreases e - i,
{
    if i >= e {
        e
    } else if is_ws(s[i]) {
        skip_ws(s, i + 1, e)
    } else {
        i
    }
}

/// End of `[lo, hi)` with trailing white space taken off.
pub open spec fn trim_back(s: Seq<u8>, lo: int, hi: int) -> int
    decreases hi - lo,
{
    if hi <= lo {
        lo
    } else if is_ws(s[hi - 1]) {
        trim_back(s, lo, hi - 1)
    } else {
        hi
    }
}

/// Index of the first separator in `[i, e)`, or `e`.
pub open spec fn token_end(s: Seq<u8>, i: int, e: int) -> int
    decreases e - i,
{
    if i >= e {
        e
    } else if is_sep(s[i]) {
        i
    } else {
        token_end(s, i + 1, e)
    }
}

/// Index of the first byte in `[i, e)` that is not a separator, or `e`.
pub open spec fn skip_sep(s: Seq<u8>, i: int, e: int) -> int
    decreases e - i,
{
    if i >= e {
        e
    } else if is_sep(s[i]) {
        skip_sep(s, i + 1, e)
    } else {
        i
    }
}

/// The decimal number in `[i, e)` read on from `acc`, if it is all digits and
/// fits 16 bits.
pub open spec fn dec_from(s: Seq<u8>, i: int, e: int, acc: nat) -> Option<u16>
    decreases e - i,
{
    if i >= e {
        if acc <= 0xFFFF { Some(acc as u16) } else { None }
    } else if !is_digit(s[i]) {
        None
    } else {
        let v = acc * 10 + (s[i] - 48);
        if v > 0xFFFF {
            None
        } else {
            dec_from(s, i + 1, e, v as nat)
        }
    }
}

/// The hexadecimal number in `[i, e)` read on from `acc`, if it is all hex
/// digits and fits 16 bits.
pub open spec fn hex_from(s: Seq<u8>, i: int, e: int, acc: nat) -> Option<u16>
    decreases e - i,
{
    if i >= e {
        if acc <= 0xFFFF { Some(acc as u16) } else { None }
    } else {
        match hex_digit(s[i]) {
            None => None,
            Some(d) => {
                let v = acc * 16 + d;
                if v > 0xFFFF {
                    None
                } else {
                    hex_from(s, i + 1, e, v as nat)
                }
            },
        }
    }
}

pub open spec fn all_ident(s: Seq<u8>, lo: int, hi: int) -> bool {
    forall|k: int| lo <= k < hi ==> is_ident(#[trigger] s[k])
}

/// An operand before labels are resolved.
#[derive(Debug)]
pub enum Operand {
    Number(u16),
    Label(Vec<u8>),
}

pub enum OperandV {
    Number(u16),
    Label(Seq<u8>),
}

impl View for Operand {
    type V = OperandV;

    open spec fn view(&self) -> OperandV {
        match self {
            Operand::Number(n) => OperandV::Number(*n),
            Operand::Label(l) => OperandV::Label(l@),
        }
    }
}

/// What is wrong with a line of source.
#[derive(Debug, Copy, Clone, PartialEq, Eq, Structural)]
pub enum LexError {
    /// A label definition whose name holds other than letters, digits, `_`, `.`.
    BadLabel,
    /// A number that is malformed or does not fit 16 bits.
    BadNumber,
    /// A character literal that is malformed or has no glyph.
    BadChar,
    /// An operand that is neither a number, register, character nor name.
    BadOperand,
    /// A mnemonic that names no instruction or alias.
    UnknownMnemonic,
}

/// The operand written in `[p, e)`: a character literal `'c'`, a decimal or
/// `0x` hexadecimal number, a register `r<n>`, or a label name.
pub open spec fn operand_of(s: Seq<u8>, p: int, e: int) -> Result<OperandV, LexError> {
    if s[p] == 39 {
        if e - p == 3 && s[p + 2] == 39 {
            match index_of_char(s[p + 1] as char) {
                Some(i) => Ok(OperandV::Number(i as u16)),
                None => Err(LexError::BadChar),
            }
        } else {
            Err(LexError::BadChar)
        }
    } else if is_digit(s[p]) {
        let v = if e - p > 2 && s[p] == 48 && (s[p + 1] == 120 || s[p + 1] == 88) {
            hex_from(s, p + 2, e, 0)
        } else {
            dec_from(s, p, e, 0)
        };
        match v {
            Some(n) => Ok(OperandV::Number(n)),
            None => Err(LexError::BadNumber),
        }
    } else if (s[p] == 114 || s[p] == 82) && e - p >= 2 && is_digit(s[p + 1]) {
        match dec_from(s, p + 1, e, 0) {
            Some(n) => Ok(OperandV::Number(n)),
            None => Err(LexError::BadNumber),
        }
    } else if all_ident(s, p, e) {
        Ok(OperandV::Label(s.subrange(p, e)))
    } else {
        Err(LexError::BadOperand)
    }
}

/// The operands in `[i, e)`, separated by commas or white space.
pub open spec fn operands_from(s: Seq<u8>, i: int, e: int) -> Result<Seq<OperandV>, LexError>
    decreases e - i,
{
    let p = skip_sep(s, i, e);
    if i >= e || p >= e {
        Ok(Seq::empty())
    } else {
        let t = token_end(s, p, e);
        if t <= p || t <= i || t > e {
            Ok(Seq::empty())
        } else {
            match operand_of(s, p, t) {
                Err(err) => Err(err),
                Ok(o) => match operands_from(s, t, e) {
                    Err(err) => Err(err),
                    Ok(rest) => Ok(seq![o] + rest),
                },
            }
        }
    }
}

pub fn find_nl_exec(s: &[u8], i: usize) -> (r: usize)
    requires
        i <= s@.len(),
    ensures
        r == find_nl(s@, i as int),
        i <= r <= s@.len(),
{
    let mut k = i;
    while k < s.len() && s[k] != 10
        invariant
            i <= k <= s@.len(),
            find_nl(s@, k as int) == find_nl(s@, i as int),
        decreases s@.len() - k,
    {
        k = k + 1;
    }
    k
}

pub fn comment_start_exec(s: &[u8], i: usize, e: usize) -> (r: usize)
    requires
        i <= e <= s@.len(),
    ensures
        r == comment_start(s@, i as int, e as int),
        i <= r <= e,
{
    let mut k = i;
    while k < e && s[k] != 59 && s[k] != 47
        invariant
            i <= k <= e,
            e <= s@.len(),
            comment_start(s@, k as int, e as int) == comment_start(s@, i as int, e as int),
        decreases e - k,
    {
        k = k + 1;
    }
    k
}

pub fn skip_ws_exec(s: &[u8], i: usize, e: usize) -> (r: usize)
    requires
        i <= e <= s@.len(),
    ensures
        r == skip_ws(s@, i as int, e as int),
        i <= r <= e,
{
    let mut k = i;
    while k < e && (s[k] == 32 || s[k] == 9 || s[k] == 13)
        invariant
            i <= k <= e,
            e <= s@.len(),
            skip_ws(s@, k as int, e as int) == skip_ws(s@, i as int, e as int),
        decreases e - k,
    {
        k = k + 1;
    }
    k
}

pub fn trim_back_exec(s: &[u8], lo: usize, hi: usize) -> (r: usize)
    requires
        lo <= hi <= s@.len(),
    ensures
        r == trim_back(s@, lo as int, hi as int),
        lo <= r <= hi,
{
    let mut k = hi;
    while k > lo && (s[k - 1] == 32 || s[k - 1] == 9 || s[k - 1] == 13)
        invariant
            lo <= k <= hi,
            hi <= s@.len(),
            trim_back(s@, lo as int, k as int) == trim_back(s@, lo as int, hi as int),
        decreases k - lo,
    {
        k = k - 1;
    }
    k
}

pub fn token_end_exec(s: &[u8], i: usize, e: usize) -> (r: usize)
    requires
        i <= e <= s@.len(),
    ensures
        r == token_end(s@, i as int, e as int),
        i <= r <= e,
{
    let mut k = i;
    while k < e && !(s[k] == 32 || s[k] == 9 || s[k] == 13 || s[k] == 44)
        invariant
            i <= k <= e,
            e <= s@.len(),
            token_end(s@, k as int, e as int) == token_end(s@, i as int, e as int),
        decreases e - k,
    {
        k = k + 1;
    }
    k
}

pub fn skip_sep_exec(s: &[u8], i: usize, e: usize) -> (r: usize)
    requires
        i <= e <= s@.len(),
    ensures
        r == skip_sep(s@, i as int, e as int),
        i <= r <= e,
{
    let mut k = i;
    while k < e && (s[k] == 32 || s[k] == 9 || s[k] == 13 || s[k] == 44)
        invariant
            i <= k <= e,
            e <= s@.len(),
            skip_sep(s@, k as int, e as int) == skip_sep(s@, i as int, e as int),
        decreases e - k,
    {
        k = k + 1;
    }
    k
}

pub fn dec_exec(s: &[u8], i: usize, e: usize) -> (r: Option<u16>)
    requires
        i <= e <= s@.len(),
    ensures
        r == dec_from(s@, i as int, e as int, 0),
{
    let mut k = i;
    let mut acc: u32 = 0;
    while k < e
        invariant
            i <= k <= e,
            e <= s@.len(),
            acc <= 0xFFFF,
            dec_from(s@, k as int, e as int, acc as nat) == dec_from(s@, i as int, e as int, 0),
        decreases e - k,
    {
        let b = s[k];
        if !(48 <= b && b <= 57) {
            return None;
        }
        let v = acc * 10 + (b - 48) as u32;
        if v > 0xFFFF {
            return None;
        }
        acc = v;
        k = k + 1;
    }
    Some(acc as u16)
}

pub fn hex_exec(s: &[u8], i: usize, e: usize) -> (r: Option<u16>)
    requires
        i <= e <= s@.len(),
    ensures
        r == hex_from(s@, i as int, e as int, 0),
{
    let mut k = i;
    let mut acc: u32 = 0;
    while k < e
        invariant
            i <= k <= e,
            e <= s@.len(),
            acc <= 0xFFFF,
            hex_from(s@, k as int, e as int, acc as nat) == hex_from(s@, i as int, e as int, 0),
        decreases e - k,
    {
        let b = s[k];
        let d: u32 = if 48 <= b && b <= 57 {
            (b - 48) as u32
        } else if 65 <= b && b <= 70 {
            (b - 55) as u32
        } else if 97 <= b && b <= 102 {
            (b - 87) as u32
        } else {
            return None;
        };
        let v = acc * 16 + d;
        if v > 0xFFFF {
            return None;
        }
        acc = v;
        k = k + 1;
    }
    Some(acc as u16)
}

pub fn all_ident_exec(s: &[u8], lo: usize, hi: usize) -> (r: bool)
    requires
        lo <= hi <= s@.len(),
    ensures
        r == all_ident(s@, lo as int, hi as int),
{
    let mut k = lo;
    while k < hi
        invariant
            lo <= k <= hi,
            hi <= s@.len(),
            all_ident(s@, lo as int, k as int),
        decreases hi - k,
    {
        let b = s[k];
        if !((48 <= b && b <= 57) || (65 <= b && b <= 90) || (97 <= b && b <= 122) || b == 95
            || b == 46) {
            return false;
        }
        k = k + 1;
    }
    true
}

pub fn copy_range(s: &[u8], lo: usize, hi: usize) -> (r: Vec<u8>)
    requires
        lo <= hi <= s@.len(),
    ensures
        r@ == s@.subrange(lo as int, hi as int),
{
    let mut r: Vec<u8> = Vec::new();
    let mut k = lo;
    while k < hi
        invariant
            lo <= k <= hi,
            hi <= s@.len(),
            r@ == s@.subrange(lo as int, k as int),
        decreases hi - k,
    {
        r.push(s[k]);
        k = k + 1;
        assert(r@ =~= s@.subrange(lo as int, k as int));
    }
    r
}

/// Reads the operand written in `[p, e)`.
pub fn operand_exec(s: &[u8], p: usize, e: usize) -> (r: Result<Operand, LexError>)
    requires
        p < e <= s@.len(),
    ensures
        match r {
            Ok(o) => operand_of(s@, p as int, e as int) == Ok::<OperandV, LexError>(o@),
            Err(err) => operand_of(s@, p as int, e as int) == Err::<OperandV, LexError>(err),
        },
{
    let b = s[p];
    if b == 39 {
        if e - p == 3 && s[p + 2] == 39 {
            match Char::from_char(s[p + 1] as char) {
                Ok(c) => Ok(Operand::Number(c.0 as u16)),
                Err(_) => Err(LexError::BadChar),
            }
        } else {
            Err(LexError::BadChar)
        }
    } else if 48 <= b && b <= 57 {
        let v = if e - p > 2 && b == 48 && (s[p + 1] == 120 || s[p + 1] == 88) {
            hex_exec(s, p + 2, e)
        } else {
            dec_exec(s, p, e)
        };
        match v {
            Some(n) => Ok(Operand::Number(n)),
            None => Err(LexError::BadNumber),
        }
    } else if (b == 114 || b == 82) && e - p >= 2 && 48 <= s[p + 1] && s[p + 1] <= 57 {
        match dec_exec(s, p + 1, e) {
            Some(n) => Ok(Operand::Number(n)),
            None => Err(LexError::BadNumber),
        }
    } else if all_ident_exec(s, p, e) {
        Ok(Operand::Label(copy_range(s, p, e)))
    } else {
        Err(LexError::BadOperand)
    }
}

/// Reads the operands in `[i, e)`.
pub fn operands_exec(s: &[u8], i: usize, e: usize) -> (r: Result<Vec<Operand>, LexError>)
    requires
        i <= e <= s@.len(),
    ensures
        match r {
            Ok(v) => operands_from(s@, i as int, e as int) == Ok::<Seq<OperandV>, LexError>(
                v@.map_values(|o: Operand| o@),
            ),
            Err(err) => operands_from(s@, i as int, e as int) == Err::<Seq<OperandV>, LexError>(
                err,
            ),
        },
{
    let mut out: Vec<Operand> = Vec::new();
    let mut k = i;
    while k < e
        invariant
            i <= k <= e,
            e <= s@.len(),
            operands_from(s@, i as int, e as int) == (match operands_from(s@, k as int, e as int) {
                Err(err) => Err(err),
                Ok(rest) => Ok(out@.map_values(|o: Operand| o@) + rest),
            }),
        decreases e - k,
    {
        let p = skip_sep_exec(s, k, e);
        if p >= e {
            proof {
                assert(out@.map_values(|o: Operand| o@) + Seq::<OperandV>::empty() =~= out@.map_values(
                    |o: Operand| o@,
                ));
            }
            return Ok(out);
        }
        let t = token_end_exec(s, p, e);
        if t <= p {
            proof {
                assert(out@.map_values(|o: Operand| o@) + Seq::<OperandV>::empty() =~= out@.map_values(
                    |o: Operand| o@,
                ));
            }
            return Ok(out);
        }
        let o = operand_exec(s, p, t);
        match o {
            Err(err) => {
                return Err(err);
            },
            Ok(o) => {
                let ghost before = out@;
                let ghost ov = o@;
                out.push(o);
                assert(out@.map_values(|o: Operand| o@) =~= before.map_values(|o: Operand| o@)
                    + seq![ov]);
                proof {
                    match operands_from(s@, t as int, e as int) {
                        Ok(rest) => {
                            assert(before.map_values(|o: Operand| o@) + (seq![ov] + rest)
                                =~= out@.map_values(|o: Operand| o@) + rest);
                        },
                        Err(_) => {},
                    }
                }
                k = t;
            },
        }
    }
    proof {
        assert(out@.map_values(|o: Operand| o@) + Seq::<OperandV>::empty() =~= out@.map_values(
            |o: Operand| o@,
        ));
    }
    Ok(out)
}

} // verus!

use vstd::prelude::*;
use vstd::string::StringSliceAdditionalSpecFns;
use crate::isa::{Instruction, lemma_decode_total, lemma_encode_decode};
use crate::lex::{find_nl, skip_ws, trim_back, is_ws, find_nl_exec, skip_ws_exec, trim_back_exec};

verus! {

pub open spec fn two_pow(n: nat) -> nat
    decreases n,
{
    if n == 0 {
        1
    } else {
        2 * two_pow((n - 1) as nat)
    }
}

/// The value of the binary digits in `[lo, hi)`, most significant first.
pub open spec fn bits_value(s: Seq<u8>, lo: int, hi: int) -> nat
    decreases hi - lo,
{
    if hi <= lo {
        0
    } else {
        bits_value(s, lo, hi - 1) * 2 + if s[hi - 1] == 49 { 1nat } else { 0nat }
    }
}

pub open spec fn all_bits(s: Seq<u8>, lo: int, hi: int) -> bool {
    forall|k: int| lo <= k < hi ==> (#[trigger] s[k] == 48 || s[k] == 49)
}

/// The low `n` bits of `w` as digits `0`/`1`, most significant first.
pub open spec fn bits_of(w: nat, n: nat) -> Seq<u8>
    decreases n,
{
    if n == 0 {
        Seq::empty()
    } else {
        bits_of(w / 2, (n - 1) as nat).push(if w % 2 == 1 { 49u8 } else { 48u8 })
    }
}

/// The text of a program: one line of sixteen binary digits per instruction.
pub open spec fn mc_text(p: Seq<Instruction>) -> Seq<u8> {
    Seq::new(
        17 * p.len(),
        |k: int| if k % 17 == 16 { 10u8 } else { bits_of(p[k / 17].encode() as nat, 16)[k % 17] },
    )
}

/// A line of machine-code text that is not sixteen binary digits.
#[derive(Debug, Copy, Clone, PartialEq, Eq, Structural)]
pub struct McError {
    /// The 1-based number of the line.
    pub line: usize,
}

pub open spec fn prefixed(p: Seq<Instruction>, r: Result<Seq<Instruction>, McError>) -> Result<Seq<Instruction>, McError> {
    match r {
        Ok(q) => Ok(p + q),
        Err(e) => Err(e),
    }
}

/// The program written in `s` from byte `pos` on, numbered from `line`: blank
/// lines are skipped, every other line (trimmed) is sixteen binary digits.
pub open spec fn mc_lines(s: Seq<u8>, pos: int, line: nat) -> Result<Seq<Instruction>, McError>
    decreases s.len() + 1 - pos,
{
    if pos >= s.len() || pos < 0 {
        Ok(Seq::empty())
    } else {
        let e = find_nl(s, pos);
        let lo = skip_ws(s, pos, e);
        let hi = trim_back(s, lo, e);
        if e < pos || e > s.len() {
            Ok(Seq::empty())
        } else if lo >= hi {
            mc_lines(s, e + 1, line + 1)
        } else if hi - lo == 16 && all_bits(s, lo, hi) {
            prefixed(
                seq![Instruction::decode(bits_value(s, lo, hi) as u16)],
                mc_lines(s, e + 1, line + 1),
            )
        } else {
            Err(McError { line: line as usize })
        }
    }
}

proof fn lemma_p2_16(n: nat)
    requires
        n <= 16,
    ensures
        two_pow(n) <= 65536,
    decreases 16 - n,
{
    if n == 16 {
        reveal_with_fuel(two_pow, 17);
    } else {
        lemma_p2_16(n + 1);
        assert(two_pow(n + 1) == 2 * two_pow(n));
    }
}

/// Reads the program in machine-code text given as bytes.
pub fn from_mc_bytes(s: &[u8]) -> (r: Result<Vec<Instruction>, McError>)
    requires
        s@.len() < usize::MAX,
    ensures
        match r {
            Ok(v) => mc_lines(s@, 0, 1) == Ok::<Seq<Instruction>, McError>(v@),
            Err(e) => mc_lines(s@, 0, 1) == Err::<Seq<Instruction>, McError>(e),
        },
{
    let mut out: Vec<Instruction> = Vec::new();
    let mut pos: usize = 0;
    let mut line: usize = 1;
    while pos < s.len()
        invariant
            pos <= s@.len() + 1,
            line <= pos + 1,
            s@.len() < usize::MAX,
            mc_lines(s@, 0, 1) == prefixed(out@, mc_lines(s@, pos as int, line as nat)),
        decreases s@.len() + 1 - pos,
    {
        let e = find_nl_exec(s, pos);
        let lo = skip_ws_exec(s, pos, e);
        let hi = trim_back_exec(s, lo, e);
        if lo < hi {
            if hi - lo != 16 {
                return Err(McError { line });
            }
            let mut acc: u32 = 0;
            let mut k = lo;
            while k < hi
                invariant
                    lo <= k <= hi,
                    hi == lo + 16,
                    hi <= s@.len(),
                    acc == bits_value(s@, lo as int, k as int),
                    acc < two_pow((k - lo) as nat),
                    all_bits(s@, lo as int, k as int),
                    pos < s@.len(),
                    line <= pos + 1,
                    s@.len() < usize::MAX,
                    mc_lines(s@, 0, 1) == prefixed(out@, mc_lines(s@, pos as int, line as nat)),
                    e == find_nl(s@, pos as int),
                    pos <= e <= s@.len(),
                    lo == skip_ws(s@, pos as int, e as int),
                    hi == trim_back(s@, lo as int, e as int),
                decreases hi - k,
            {
                proof {
                    lemma_p2_16((k - lo) as nat);
                    assert(two_pow((k + 1 - lo) as nat) == 2 * two_pow((k - lo) as nat));
                }
                let b = s[k];
                if b == 48 {
                    acc = acc * 2;
                } else if b == 49 {
                    acc = acc * 2 + 1;
                } else {
                    assert(!all_bits(s@, lo as int, hi as int)) by {
                        assert(!(s@[k as int] == 48 || s@[k as int] == 49));
                    }
                    return Err(McError { line });
                }
                k = k + 1;
            }
            proof {
                lemma_p2_16(16);
            }
            let ins = Instruction::from_u16(acc as u16);
            let ghost before = out@;
            out.push(ins);
            proof {
                match mc_lines(s@, e + 1, (line + 1) as nat) {
                    Ok(q) => {
                        assert(before + (seq![ins] + q) =~= out@ + q);
                    },
                    Err(_) => {},
                }
            }
        }
        pos = e + 1;
        line = line + 1;
    }
    assert(out@ + Seq::<Instruction>::empty() =~= out@);
    Ok(out)
}

/// Reads the program in machine-code text.
pub fn from_mc(text: &str) -> (r: Result<Vec<Instruction>, McError>)
    requires
        text.spec_bytes().len() < usize::MAX,
    ensures
        match r {
            Ok(v) => mc_lines(text.spec_bytes(), 0, 1) == Ok::<Seq<Instruction>, McError>(v@),
            Err(e) => mc_lines(text.spec_bytes(), 0, 1) == Err::<Seq<Instruction>, McError>(e),
        },
{
    from_mc_bytes(text.as_bytes())
}

fn bits_exec(w: u16, n: usize) -> (r: Vec<u8>)
    requires
        n <= 16,
    ensures
        r@ == bits_of(w as nat, n as nat),
    decreases n,
{
    if n == 0 {
        Vec::new()
    } else {
        let mut r = bits_exec(w / 2, n - 1);
        r.push(if w % 2 == 1 { 49u8 } else { 48u8 });
        r
    }
}

proof fn lemma_bits_len(w: nat, n: nat)
    ensures
        bits_of(w, n).len() == n,
        forall|j: int| 0 <= j < n ==> (#[trigger] bits_of(w, n)[j] == 48 || bits_of(w, n)[j] == 49),
    decreases n,
{
    if n > 0 {
        lemma_bits_len(w / 2, (n - 1) as nat);
    }
}

proof fn lemma_div17(i: int, j: int)
    requires
        0 <= i,
        0 <= j < 17,
    ensures
        (17 * i + j) / 17 == i,
        (17 * i + j) % 17 == j,
{
    assert((17 * i + j) / 17 == i) by (nonlinear_arith)
        requires 0 <= i, 0 <= j < 17;
    assert((17 * i + j) % 17 == j) by (nonlinear_arith)
        requires 0 <= i, 0 <= j < 17;
}

/// Writes a program as machine-code text, one line per instruction.
pub fn to_mc(program: &[Instruction]) -> (r: Vec<u8>)
    requires
        forall|i: int| 0 <= i < program@.len() ==> (#[trigger] program@[i]).wf(),
        program@.len() * 17 <= usize::MAX,
    ensures
        r@ == mc_text(program@),
{
    let mut out: Vec<u8> = Vec::new();
    let mut i: usize = 0;
    while i < program.len()
        invariant
            i <= program@.len(),
            program@.len() * 17 <= usize::MAX,
            forall|k: int| 0 <= k < program@.len() ==> (#[trigger] program@[k]).wf(),
            out@ =~= mc_text(program@.subrange(0, i as int)),
        decreases program@.len() - i,
    {
        let ins = program[i];
        let line = bits_exec(ins.as_u16(), 16);
        proof {
            lemma_bits_len(ins.encode() as nat, 16);
        }
        let ghost before = out@;
        let mut j: usize = 0;
        while j < 16
            invariant
                j <= 16,
                line@.len() == 16,
                out@ == before + line@.subrange(0, j as int),
            decreases 16 - j,
        {
            out.push(line[j]);
            j = j + 1;
            assert(out@ =~= before + line@.subrange(0, j as int));
        }
        out.push(10u8);
        proof {
            let p = program@.subrange(0, i + 1);
            let q = program@.subrange(0, i as int);
            assert forall|k: int| 0 <= k < 17 * p.len() implies out@[k] == mc_text(p)[k] by {
                if k < 17 * i {
                    lemma_div17(k / 17, k % 17);
                    assert(p[k / 17] == q[k / 17]);
                } else {
                    lemma_div17(i as int, k - 17 * i);
                }
            }
            assert(out@ =~= mc_text(p));
        }
        i = i + 1;
    }
    assert(program@.subrange(0, program@.len() as int) =~= program@);
    out
}

/// Why a program text does not load.
#[derive(Debug, Copy, Clone, PartialEq, Eq, Structural)]
pub enum ProgramError {
    Asm(crate::assembler::AsmError),
}

/// Loads a program from text: machine-code text when every non-blank line is
/// sixteen binary digits, assembly source otherwise.
pub fn load(text: &str) -> (r: Result<Vec<Instruction>, ProgramError>)
    requires
        text.spec_bytes().len() < usize::MAX,
    ensures
        r is Ok ==> forall|i: int| 0 <= i < r->Ok_0@.len() ==> (#[trigger] r->Ok_0@[i]).wf(),
        mc_lines(text.spec_bytes(), 0, 1) is Ok ==> r is Ok && r->Ok_0@ == mc_lines(text.spec_bytes(), 0, 1)->Ok_0,
        mc_lines(text.spec_bytes(), 0, 1) is Err ==> match crate::assembler::assembled(text.spec_bytes()) {
            Ok(p) => r is Ok && r->Ok_0@ == p,
            Err(e) => r == Err::<Vec<Instruction>, ProgramError>(ProgramError::Asm(e)),
        },
{
    match from_mc(text) {
        Ok(p) => {
            proof {
                lemma_mc_wf(text.spec_bytes(), 0, 1);
                assert(p@ == mc_lines(text.spec_bytes(), 0, 1)->Ok_0);
                assert(forall|i: int| 0 <= i < p@.len() ==> (#[trigger] p@[i]).wf());
            }
            Ok(p)
        },
        Err(_) => match crate::assembler::assemble(text) {
            Ok(p) => {
                proof {
                    crate::assembler::lemma_assembled_wf(text.spec_bytes());
                    assert(p@ == crate::assembler::assembled(text.spec_bytes())->Ok_0);
                    assert(forall|i: int| 0 <= i < p@.len() ==> (#[trigger] p@[i]).wf());
                }
                Ok(p)
            },
            Err(e) => Err(ProgramError::Asm(e)),
        },
    }
}

/// Whether text is machine-code text: every non-blank line, trimmed, is
/// sixteen binary digits.
pub fn is_machine_code(text: &str) -> (r: bool)
    requires
        text.spec_bytes().len() < usize::MAX,
    ensures
        r == mc_lines(text.spec_bytes(), 0, 1) is Ok,
{
    from_mc(text).is_ok()
}

proof fn lemma_find_nl_at(s: Seq<u8>, a: int, b: int)
    requires
        0 <= a <= b < s.len(),
        s[b] == 10,
        forall|k: int| a <= k < b ==> s[k] != 10,
    ensures
        find_nl(s, a) == b,
    decreases b - a,
{
    if a < b {
        lemma_find_nl_at(s, a + 1, b);
    }
}

proof fn lemma_bits_value(s: Seq<u8>, lo: int, w: nat, n: nat)
    requires
        0 <= lo,
        lo + n <= s.len(),
        w < two_pow(n),
        forall|j: int| 0 <= j < n ==> s[lo + j] == #[trigger] bits_of(w, n)[j],
    ensures
        bits_value(s, lo, lo + n) == w,
    decreases n,
{
    if n > 0 {
        let m = (n - 1) as nat;
        lemma_bits_len(w / 2, m);
        assert forall|j: int| 0 <= j < m implies s[lo + j] == #[trigger] bits_of(w / 2, m)[j] by {
            assert(bits_of(w, n)[j] == bits_of(w / 2, m)[j]);
        }
        assert(bits_of(w, n)[m as int] == if w % 2 == 1 { 49u8 } else { 48u8 });
        lemma_bits_value(s, lo, w / 2, m);
    }
}

proof fn lemma_mc_lines_from(p: Seq<Instruction>, i: int)
    requires
        0 <= i <= p.len(),
        forall|k: int| 0 <= k < p.len() ==> (#[trigger] p[k]).wf(),
    ensures
        mc_lines(mc_text(p), 17 * i, (i + 1) as nat) == Ok::<Seq<Instruction>, McError>(p.subrange(i, p.len() as int)),
    decreases p.len() - i,
{
    let s = mc_text(p);
    if i == p.len() {
        assert(p.subrange(i, p.len() as int) =~= Seq::<Instruction>::empty());
    } else {
        let a = 17 * i;
        let w = p[i].encode() as nat;
        lemma_encode_decode(p[i]);
        lemma_bits_len(w, 16);
        assert forall|j: int| 0 <= j < 16 implies s[a + j] == #[trigger] bits_of(w, 16)[j] by {
            lemma_div17(i, j);
        }
        lemma_div17(i, 16);
        assert forall|k: int| a <= k < a + 16 implies s[k] != 10 by {
            assert(s[a + (k - a)] == bits_of(w, 16)[k - a]);
        }
        lemma_find_nl_at(s, a, a + 16);
        assert(s[a + 0] == bits_of(w, 16)[0]);
        assert(s[a + 15] == bits_of(w, 16)[15]);
        assert(skip_ws(s, a, a + 16) == a);
        assert(trim_back(s, a, a + 16) == a + 16);
        assert forall|k: int| a <= k < a + 16 implies (#[trigger] s[k] == 48 || s[k] == 49) by {
            assert(s[a + (k - a)] == bits_of(w, 16)[k - a]);
        }
        reveal_with_fuel(two_pow, 17);
        lemma_bits_value(s, a, w, 16);
        lemma_mc_lines_from(p, i + 1);
        assert(17 * (i + 1) == a + 17);
        assert(seq![p[i]] + p.subrange(i + 1, p.len() as int) =~= p.subrange(i, p.len() as int));
    }
}

/// Reading back the text that a well-formed program is written as gives the
/// program.
pub proof fn lemma_mc_round_trip(p: Seq<Instruction>)
    requires
        forall|k: int| 0 <= k < p.len() ==> (#[trigger] p[k]).wf(),
    ensures
        mc_lines(mc_text(p), 0, 1) == Ok::<Seq<Instruction>, McError>(p),
{
    lemma_mc_lines_from(p, 0);
    assert(p.subrange(0, p.len() as int) =~= p);
}

/// Every instruction read from machine-code text is well formed.
pub proof fn lemma_mc_wf(s: Seq<u8>, pos: int, line: nat)
    requires
        mc_lines(s, pos, line) is Ok,
    ensures
        forall|i: int| 0 <= i < mc_lines(s, pos, line)->Ok_0.len() ==> (#[trigger] mc_lines(s, pos, line)->Ok_0[i]).wf(),
    decreases s.len() + 1 - pos,
{
    if 0 <= pos < s.len() {
        let e = find_nl(s, pos);
        let lo = skip_ws(s, pos, e);
        let hi = trim_back(s, lo, e);
        if pos <= e <= s.len() {
            lemma_mc_wf(s, e + 1, line + 1);
            if lo < hi {
                let w = bits_value(s, lo, hi) as u16;
                lemma_decode_total(w);
                let rest = mc_lines(s, e + 1, line + 1)->Ok_0;
                let all = mc_lines(s, pos, line)->Ok_0;
                assert forall|i: int| 0 <= i < all.len() implies (#[trigger] all[i]).wf() by {
                    if i > 0 {
                        assert(all[i] == rest[i - 1]);
                    }
                }
            }
        }
    }
}

} // verus!

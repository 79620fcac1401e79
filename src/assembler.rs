use vstd::prelude::*;
use vstd::string::StringSliceAdditionalSpecFns;
use crate::isa::{Instruction, IsaError, Mnemonic, build, lemma_build_wf, mnemonic_of_name, PROGRAM_CAPACITY};
use crate::lex::{
    LexError, Operand, OperandV, all_ident, all_ident_exec, copy_range, operands_exec,
    operands_from, skip_ws_exec, token_end, token_end_exec, trim_back_exec, upper, find_nl_exec,
    comment_start_exec, find_nl, comment_start, skip_ws, trim_back,
};

verus! {

/// What a non-blank line of source holds.
#[derive(Debug)]
pub enum LineKind {
    /// `name:` defines a label at the address of the next instruction.
    Label(Vec<u8>),
    /// A mnemonic and its operands.
    Instr(Mnemonic, Vec<Operand>),
}

pub enum LineKindV {
    Label(Seq<u8>),
    Instr(Mnemonic, Seq<OperandV>),
}

impl View for LineKind {
    type V = LineKindV;

    open spec fn view(&self) -> LineKindV {
        match self {
            LineKind::Label(n) => LineKindV::Label(n@),
            LineKind::Instr(m, ops) => LineKindV::Instr(*m, ops@.map_values(|o: Operand| o@)),
        }
    }
}

/// A non-blank line with its 1-based line number.
#[derive(Debug)]
pub struct SourceLine {
    pub line: usize,
    pub kind: LineKind,
}

pub struct LineV {
    pub line: nat,
    pub kind: LineKindV,
}

impl View for SourceLine {
    type V = LineV;

    open spec fn view(&self) -> LineV {
        LineV { line: self.line as nat, kind: self.kind@ }
    }
}

/// Why source does not assemble.
#[derive(Debug, Copy, Clone, PartialEq, Eq, Structural)]
pub enum AsmErrorKind {
    Lex(LexError),
    /// A label is defined a second time.
    DuplicateLabel,
    /// An operand names a label that no line defines.
    UndefinedLabel,
    /// More instructions than program memory holds.
    TooLong,
    /// The operands do not fit the mnemonic.
    Isa(IsaError),
}

/// An assembly error and the 1-based line it was found on.
#[derive(Debug, Copy, Clone, PartialEq, Eq, Structural)]
pub struct AsmError {
    pub line: usize,
    pub kind: AsmErrorKind,
}

/// The upper-cased bytes of `[lo, hi)`.
pub open spec fn upper_range(s: Seq<u8>, lo: int, hi: int) -> Seq<u8> {
    Seq::new((hi - lo) as nat, |k: int| upper(s[lo + k]))
}

/// What the trimmed, non-empty line `[lo, hi)` holds.
pub open spec fn classify(s: Seq<u8>, lo: int, hi: int) -> Result<LineKindV, LexError> {
    if s[hi - 1] == 58 {
        if hi - 1 > lo && all_ident(s, lo, hi - 1) {
            Ok(LineKindV::Label(s.subrange(lo, hi - 1)))
        } else {
            Err(LexError::BadLabel)
        }
    } else {
        let m = token_end(s, lo, hi);
        match mnemonic_of_name(upper_range(s, lo, m)) {
            None => Err(LexError::UnknownMnemonic),
            Some(mn) => match operands_from(s, m, hi) {
                Ok(ops) => Ok(LineKindV::Instr(mn, ops)),
                Err(e) => Err(e),
            },
        }
    }
}

pub open spec fn prefixed<T>(p: Seq<T>, r: Result<Seq<T>, AsmError>) -> Result<Seq<T>, AsmError> {
    match r {
        Ok(q) => Ok(p + q),
        Err(e) => Err(e),
    }
}

/// The non-blank lines of `s` from byte `pos` on, numbered from `line`; the
/// first line that does not read is the error.
pub open spec fn parse_lines(s: Seq<u8>, pos: int, line: nat) -> Result<Seq<LineV>, AsmError>
    decreases s.len() + 1 - pos,
{
    if pos >= s.len() || pos < 0 {
        Ok(Seq::empty())
    } else {
        let e = find_nl(s, pos);
        let c = comment_start(s, pos, e);
        let lo = skip_ws(s, pos, c);
        let hi = trim_back(s, lo, c);
        if e < pos || e > s.len() {
            Ok(Seq::empty())
        } else if lo >= hi {
            parse_lines(s, e + 1, line + 1)
        } else {
            match classify(s, lo, hi) {
                Err(k) => Err(AsmError { line: line as usize, kind: AsmErrorKind::Lex(k) }),
                Ok(kind) => prefixed(seq![LineV { line, kind }], parse_lines(s, e + 1, line + 1)),
            }
        }
    }
}

/// The address of the first entry named `n`, from entry `i` on.
pub open spec fn lookup_from(names: Seq<Seq<u8>>, addrs: Seq<u16>, n: Seq<u8>, i: int) -> Option<
    u16,
>
    decreases names.len() - i,
{
    if i >= names.len() || i < 0 {
        None
    } else if names[i] == n {
        Some(addrs[i])
    } else {
        lookup_from(names, addrs, n, i + 1)
    }
}

pub open spec fn lookup(names: Seq<Seq<u8>>, addrs: Seq<u16>, n: Seq<u8>) -> Option<u16> {
    lookup_from(names, addrs, n, 0)
}

/// First pass from line `k`: the symbol table (names and their addresses),
/// with `addr` the address of the next instruction.
pub open spec fn scan(
    lines: Seq<LineV>,
    k: int,
    names: Seq<Seq<u8>>,
    addrs: Seq<u16>,
    addr: nat,
) -> Result<(Seq<Seq<u8>>, Seq<u16>), AsmError>
    decreases lines.len() - k,
{
    if k >= lines.len() || k < 0 {
        Ok((names, addrs))
    } else {
        match lines[k].kind {
            LineKindV::Label(n) => if lookup(names, addrs, n) is Some {
                Err(AsmError { line: lines[k].line as usize, kind: AsmErrorKind::DuplicateLabel })
            } else {
                scan(lines, k + 1, names.push(n), addrs.push(addr as u16), addr)
            },
            LineKindV::Instr(_, _) => if addr >= PROGRAM_CAPACITY {
                Err(AsmError { line: lines[k].line as usize, kind: AsmErrorKind::TooLong })
            } else {
                scan(lines, k + 1, names, addrs, addr + 1)
            },
        }
    }
}

/// The operands from `i` on as numbers, labels replaced by their addresses;
/// `None` when one names no label.
pub open spec fn resolve_from(
    ops: Seq<OperandV>,
    i: int,
    names: Seq<Seq<u8>>,
    addrs: Seq<u16>,
    acc: Seq<u16>,
) -> Option<Seq<u16>>
    decreases ops.len() - i,
{
    if i >= ops.len() || i < 0 {
        Some(acc)
    } else {
        match ops[i] {
            OperandV::Number(v) => resolve_from(ops, i + 1, names, addrs, acc.push(v)),
            OperandV::Label(l) => match lookup(names, addrs, l) {
                None => None,
                Some(a) => resolve_from(ops, i + 1, names, addrs, acc.push(a)),
            },
        }
    }
}

/// Second pass from line `k`: the instructions, after `acc`.
pub open spec fn emit(
    lines: Seq<LineV>,
    k: int,
    names: Seq<Seq<u8>>,
    addrs: Seq<u16>,
    acc: Seq<Instruction>,
) -> Result<Seq<Instruction>, AsmError>
    decreases lines.len() - k,
{
    if k >= lines.len() || k < 0 {
        Ok(acc)
    } else {
        match lines[k].kind {
            LineKindV::Label(_) => emit(lines, k + 1, names, addrs, acc),
            LineKindV::Instr(m, ops) => match resolve_from(ops, 0, names, addrs, Seq::empty()) {
                None => Err(
                    AsmError { line: lines[k].line as usize, kind: AsmErrorKind::UndefinedLabel },
                ),
                Some(vals) => match build(m, vals) {
                    Err(e) => Err(AsmError { line: lines[k].line as usize, kind: AsmErrorKind::Isa(e) }),
                    Ok(ins) => emit(lines, k + 1, names, addrs, acc.push(ins)),
                },
            },
        }
    }
}

/// The program that source text assembles to, or the first error.
pub open spec fn assembled(s: Seq<u8>) -> Result<Seq<Instruction>, AsmError> {
    match parse_lines(s, 0, 1) {
        Err(e) => Err(e),
        Ok(lines) => match scan(lines, 0, Seq::empty(), Seq::empty(), 0) {
            Err(e) => Err(e),
            Ok(t) => emit(lines, 0, t.0, t.1, Seq::empty()),
        },
    }
}

fn upper_copy(s: &[u8], lo: usize, hi: usize) -> (r: Vec<u8>)
    requires
        lo <= hi <= s@.len(),
    ensures
        r@ == upper_range(s@, lo as int, hi as int),
{
    let mut r: Vec<u8> = Vec::new();
    let mut k = lo;
    while k < hi
        invariant
            lo <= k <= hi,
            hi <= s@.len(),
            r@ == upper_range(s@, lo as int, k as int),
        decreases hi - k,
    {
        let b = s[k];
        let u = if 97 <= b && b <= 122 {
            b - 32
        } else {
            b
        };
        r.push(u);
        k = k + 1;
        assert(r@ =~= upper_range(s@, lo as int, k as int));
    }
    r
}

/// Reads the trimmed, non-empty line `[lo, hi)`.
pub fn classify_exec(s: &[u8], lo: usize, hi: usize) -> (r: Result<LineKind, LexError>)
    requires
        lo < hi <= s@.len(),
    ensures
        match r {
            Ok(k) => classify(s@, lo as int, hi as int) == Ok::<LineKindV, LexError>(k@),
            Err(e) => classify(s@, lo as int, hi as int) == Err::<LineKindV, LexError>(e),
        },
{
    if s[hi - 1] == 58 {
        if hi - 1 > lo && all_ident_exec(s, lo, hi - 1) {
            Ok(LineKind::Label(copy_range(s, lo, hi - 1)))
        } else {
            Err(LexError::BadLabel)
        }
    } else {
        let m = token_end_exec(s, lo, hi);
        let name = upper_copy(s, lo, m);
        match Mnemonic::from_name(name.as_slice()) {
            None => Err(LexError::UnknownMnemonic),
            Some(mn) => match operands_exec(s, m, hi) {
                Ok(ops) => Ok(LineKind::Instr(mn, ops)),
                Err(e) => Err(e),
            },
        }
    }
}

/// Splits source into its non-blank lines.
pub fn parse_lines_exec(s: &[u8]) -> (r: Result<Vec<SourceLine>, AsmError>)
    requires
        s@.len() < usize::MAX,
    ensures
        match r {
            Ok(v) => parse_lines(s@, 0, 1) == Ok::<Seq<LineV>, AsmError>(
                v@.map_values(|l: SourceLine| l@),
            ),
            Err(e) => parse_lines(s@, 0, 1) == Err::<Seq<LineV>, AsmError>(e),
        },
{
    let mut out: Vec<SourceLine> = Vec::new();
    let mut pos: usize = 0;
    let mut line: usize = 1;
    while pos < s.len()
        invariant
            pos <= s@.len() + 1,
            line <= pos + 1,
            s@.len() < usize::MAX,
            parse_lines(s@, 0, 1) == prefixed(
                out@.map_values(|l: SourceLine| l@),
                parse_lines(s@, pos as int, line as nat),
            ),
        decreases s@.len() + 1 - pos,
    {
        let e = find_nl_exec(s, pos);
        let c = comment_start_exec(s, pos, e);
        let lo = skip_ws_exec(s, pos, c);
        let hi = trim_back_exec(s, lo, c);
        if lo < hi {
            match classify_exec(s, lo, hi) {
                Err(k) => {
                    return Err(AsmError { line, kind: AsmErrorKind::Lex(k) });
                },
                Ok(kind) => {
                    let ghost before = out@;
                    let sl = SourceLine { line, kind };
                    let ghost lv = sl@;
                    out.push(sl);
                    proof {
                        assert(out@.map_values(|l: SourceLine| l@) =~= before.map_values(
                            |l: SourceLine| l@,
                        ) + seq![lv]);
                        match parse_lines(s@, e + 1, (line + 1) as nat) {
                            Ok(q) => {
                                assert(before.map_values(|l: SourceLine| l@) + (seq![lv] + q)
                                    =~= out@.map_values(|l: SourceLine| l@) + q);
                            },
                            Err(_) => {},
                        }
                    }
                },
            }
        }
        pos = e + 1;
        line = line + 1;
    }
    proof {
        assert(out@.map_values(|l: SourceLine| l@) + Seq::<LineV>::empty() =~= out@.map_values(
            |l: SourceLine| l@,
        ));
    }
    Ok(out)
}

fn bytes_eq(a: &[u8], b: &[u8]) -> (r: bool)
    ensures
        r == (a@ == b@),
{
    if a.len() != b.len() {
        return false;
    }
    let mut k: usize = 0;
    while k < a.len()
        invariant
            a@.len() == b@.len(),
            k <= a@.len(),
            forall|j: int| 0 <= j < k ==> a@[j] == b@[j],
        decreases a@.len() - k,
    {
        if a[k] != b[k] {
            return false;
        }
        k = k + 1;
    }
    assert(a@ =~= b@);
    true
}

/// The symbol table's names as byte sequences.
pub open spec fn names_view(names: Seq<Vec<u8>>) -> Seq<Seq<u8>> {
    names.map_values(|v: Vec<u8>| v@)
}

fn lookup_exec(names: &Vec<Vec<u8>>, addrs: &Vec<u16>, n: &[u8]) -> (r: Option<u16>)
    requires
        names@.len() == addrs@.len(),
    ensures
        r == lookup(names_view(names@), addrs@, n@),
{
    let mut i: usize = 0;
    while i < names.len()
        invariant
            i <= names@.len(),
            names@.len() == addrs@.len(),
            lookup_from(names_view(names@), addrs@, n@, i as int) == lookup(
                names_view(names@),
                addrs@,
                n@,
            ),
        decreases names@.len() - i,
    {
        if bytes_eq(names[i].as_slice(), n) {
            return Some(addrs[i]);
        }
        i = i + 1;
    }
    None
}

fn resolve_exec(ops: &Vec<Operand>, names: &Vec<Vec<u8>>, addrs: &Vec<u16>) -> (r: Option<Vec<u16>>)
    requires
        names@.len() == addrs@.len(),
    ensures
        match r {
            Some(v) => resolve_from(ops@.map_values(|o: Operand| o@), 0, names_view(names@), addrs@, Seq::empty()) == Some(v@),
            None => resolve_from(ops@.map_values(|o: Operand| o@), 0, names_view(names@), addrs@, Seq::empty()) is None,
        },
{
    let ghost ov = ops@.map_values(|o: Operand| o@);
    let mut out: Vec<u16> = Vec::new();
    let mut i: usize = 0;
    while i < ops.len()
        invariant
            i <= ops@.len(),
            names@.len() == addrs@.len(),
            ov == ops@.map_values(|o: Operand| o@),
            resolve_from(ov, i as int, names_view(names@), addrs@, out@) == resolve_from(
                ov,
                0,
                names_view(names@),
                addrs@,
                Seq::empty(),
            ),
        decreases ops@.len() - i,
    {
        match &ops[i] {
            Operand::Number(v) => {
                out.push(*v);
            },
            Operand::Label(l) => {
                match lookup_exec(names, addrs, l.as_slice()) {
                    None => {
                        return None;
                    },
                    Some(a) => {
                        out.push(a);
                    },
                }
            },
        }
        i = i + 1;
    }
    Some(out)
}

/// Assembles source text given as bytes.
pub fn assemble_bytes(s: &[u8]) -> (r: Result<Vec<Instruction>, AsmError>)
    requires
        s@.len() < usize::MAX,
    ensures
        match r {
            Ok(v) => assembled(s@) == Ok::<Seq<Instruction>, AsmError>(v@),
            Err(e) => assembled(s@) == Err::<Seq<Instruction>, AsmError>(e),
        },
{
    let lines = match parse_lines_exec(s) {
        Ok(l) => l,
        Err(e) => {
            return Err(e);
        },
    };
    let ghost lv = lines@.map_values(|l: SourceLine| l@);
    // first pass: the symbol table
    let mut names: Vec<Vec<u8>> = Vec::new();
    let mut addrs: Vec<u16> = Vec::new();
    let mut addr: usize = 0;
    let mut k: usize = 0;
    assert(names_view(names@) =~= Seq::<Seq<u8>>::empty());
    assert(addrs@ =~= Seq::<u16>::empty());
    while k < lines.len()
        invariant
            k <= lines@.len(),
            lv == lines@.map_values(|l: SourceLine| l@),
            parse_lines(s@, 0, 1) == Ok::<Seq<LineV>, AsmError>(lv),
            names@.len() == addrs@.len(),
            addr <= PROGRAM_CAPACITY,
            scan(lv, k as int, names_view(names@), addrs@, addr as nat) == scan(
                lv,
                0,
                Seq::empty(),
                Seq::empty(),
                0,
            ),
        decreases lines@.len() - k,
    {
        proof {
            assert(lv[k as int] == lines@[k as int]@);
        }
        match &lines[k].kind {
            LineKind::Label(n) => {
                if lookup_exec(&names, &addrs, n.as_slice()).is_some() {
                    return Err(AsmError { line: lines[k].line, kind: AsmErrorKind::DuplicateLabel });
                }
                let ghost before = names@;
                names.push(copy_range(n.as_slice(), 0, n.len()));
                addrs.push(addr as u16);
                proof {
                    assert(n@.subrange(0, n@.len() as int) =~= n@);
                    assert(names_view(names@) =~= names_view(before).push(n@));
                }
            },
            LineKind::Instr(_, _) => {
                if addr >= PROGRAM_CAPACITY {
                    return Err(AsmError { line: lines[k].line, kind: AsmErrorKind::TooLong });
                }
                addr = addr + 1;
            },
        }
        k = k + 1;
    }
    let ghost table = (names_view(names@), addrs@);
    // second pass: the instructions
    let mut out: Vec<Instruction> = Vec::new();
    let mut k: usize = 0;
    assert(out@ =~= Seq::<Instruction>::empty());
    while k < lines.len()
        invariant
            k <= lines@.len(),
            lv == lines@.map_values(|l: SourceLine| l@),
            parse_lines(s@, 0, 1) == Ok::<Seq<LineV>, AsmError>(lv),
            names@.len() == addrs@.len(),
            scan(lv, 0, Seq::empty(), Seq::empty(), 0) == Ok::<(Seq<Seq<u8>>, Seq<u16>), AsmError>(
                (names_view(names@), addrs@),
            ),
            emit(lv, k as int, names_view(names@), addrs@, out@) == emit(
                lv,
                0,
                names_view(names@),
                addrs@,
                Seq::empty(),
            ),
        decreases lines@.len() - k,
    {
        proof {
            assert(lv[k as int] == lines@[k as int]@);
        }
        match &lines[k].kind {
            LineKind::Label(_) => {},
            LineKind::Instr(m, ops) => {
                match resolve_exec(ops, &names, &addrs) {
                    None => {
                        return Err(AsmError { line: lines[k].line, kind: AsmErrorKind::UndefinedLabel });
                    },
                    Some(vals) => {
                        match Instruction::new(*m, vals.as_slice()) {
                            Err(e) => {
                                return Err(AsmError { line: lines[k].line, kind: AsmErrorKind::Isa(e) });
                            },
                            Ok(ins) => {
                                out.push(ins);
                            },
                        }
                    },
                }
            },
        }
        k = k + 1;
    }
    Ok(out)
}

/// Assembles source text: label definitions `name:`, one instruction per
/// line, operands separated by commas or spaces, comments from `;` or `/`.
pub fn assemble(src: &str) -> (r: Result<Vec<Instruction>, AsmError>)
    requires
        src.spec_bytes().len() < usize::MAX,
    ensures
        match r {
            Ok(v) => assembled(src.spec_bytes()) == Ok::<Seq<Instruction>, AsmError>(v@),
            Err(e) => assembled(src.spec_bytes()) == Err::<Seq<Instruction>, AsmError>(e),
        },
        r is Ok ==> forall|i: int| 0 <= i < r->Ok_0@.len() ==> (#[trigger] r->Ok_0@[i]).wf(),
{
    let b = src.as_bytes();
    let r = assemble_bytes(b);
    proof {
        if r is Ok {
            lemma_assembled_wf(src.spec_bytes());
            assert(r->Ok_0@ == assembled(src.spec_bytes())->Ok_0);
        }
    }
    r
}

/// A mnemonic with operands already resolved to numbers.
#[derive(Debug)]
pub struct ResolvedInstruction {
    pub mnemonic: String,
    pub operands: Vec<u16>,
}

impl Instruction {
    /// Builds the instruction named by its exact upper-case mnemonic.
    pub fn try_from(resolved: &ResolvedInstruction) -> (r: Result<Instruction, IsaError>)
        ensures
            r == match mnemonic_of_name(vstd::utf8::encode_utf8(resolved.mnemonic@)) {
                None => Err(IsaError::UnknownMnemonic),
                Some(m) => build(m, resolved.operands@),
            },
    {
        let name = resolved.mnemonic.as_str().as_bytes();
        match Mnemonic::from_name(name) {
            None => Err(IsaError::UnknownMnemonic),
            Some(m) => Instruction::new(m, resolved.operands.as_slice()),
        }
    }
}

/// Number of instruction lines before line `j`.
pub open spec fn instrs_before(lines: Seq<LineV>, j: int) -> nat
    decreases j,
{
    if j <= 0 || j > lines.len() {
        0
    } else {
        instrs_before(lines, j - 1) + if lines[j - 1].kind is Instr { 1nat } else { 0nat }
    }
}

proof fn lemma_lookup_push_old(names: Seq<Seq<u8>>, addrs: Seq<u16>, n: Seq<u8>, x: Seq<u8>, a: u16, i: int)
    requires
        names.len() == addrs.len(),
        0 <= i,
        lookup_from(names, addrs, n, i) is Some,
    ensures
        lookup_from(names.push(x), addrs.push(a), n, i) == lookup_from(names, addrs, n, i),
    decreases names.len() - i,
{
    if i < names.len() && names[i] != n {
        lemma_lookup_push_old(names, addrs, n, x, a, i + 1);
    }
}

proof fn lemma_lookup_push_new(names: Seq<Seq<u8>>, addrs: Seq<u16>, n: Seq<u8>, a: u16, i: int)
    requires
        names.len() == addrs.len(),
        0 <= i <= names.len(),
        lookup_from(names, addrs, n, i) is None,
    ensures
        lookup_from(names.push(n), addrs.push(a), n, i) == Some(a),
    decreases names.len() - i,
{
    if i < names.len() {
        lemma_lookup_push_new(names, addrs, n, a, i + 1);
    }
}

/// Entries already in the table keep their address through the rest of the scan.
proof fn lemma_scan_keeps(
    lines: Seq<LineV>,
    k: int,
    names: Seq<Seq<u8>>,
    addrs: Seq<u16>,
    addr: nat,
    n: Seq<u8>,
)
    requires
        0 <= k,
        names.len() == addrs.len(),
        scan(lines, k, names, addrs, addr) is Ok,
        lookup(names, addrs, n) is Some,
    ensures
        lookup(scan(lines, k, names, addrs, addr)->Ok_0.0, scan(lines, k, names, addrs, addr)->Ok_0.1, n)
            == lookup(names, addrs, n),
    decreases lines.len() - k,
{
    if k < lines.len() {
        match lines[k].kind {
            LineKindV::Label(x) => {
                lemma_lookup_push_old(names, addrs, n, x, addr as u16, 0);
                lemma_scan_keeps(lines, k + 1, names.push(x), addrs.push(addr as u16), addr, n);
            },
            LineKindV::Instr(_, _) => {
                lemma_scan_keeps(lines, k + 1, names, addrs, addr + 1, n);
            },
        }
    }
}

proof fn lemma_scan_defines(
    lines: Seq<LineV>,
    k: int,
    names: Seq<Seq<u8>>,
    addrs: Seq<u16>,
    addr: nat,
    j: int,
    n: Seq<u8>,
)
    requires
        0 <= k <= j < lines.len(),
        names.len() == addrs.len(),
        addr == instrs_before(lines, k),
        scan(lines, k, names, addrs, addr) is Ok,
        lines[j].kind == LineKindV::Label(n),
    ensures
        lookup(scan(lines, k, names, addrs, addr)->Ok_0.0, scan(lines, k, names, addrs, addr)->Ok_0.1, n)
            == Some(instrs_before(lines, j) as u16),
    decreases j - k,
{
    match lines[k].kind {
        LineKindV::Label(x) => {
            if k == j {
                lemma_lookup_push_new(names, addrs, n, addr as u16, 0);
                lemma_scan_keeps(lines, k + 1, names.push(x), addrs.push(addr as u16), addr, n);
            } else {
                lemma_scan_defines(lines, k + 1, names.push(x), addrs.push(addr as u16), addr, j, n);
            }
        },
        LineKindV::Instr(_, _) => {
            lemma_scan_defines(lines, k + 1, names, addrs, addr + 1, j, n);
        },
    }
}

/// Every label resolves to the number of instructions written before its
/// definition, wherever the references to it stand, before or after it.
pub proof fn lemma_label_resolution(lines: Seq<LineV>, j: int, n: Seq<u8>)
    requires
        scan(lines, 0, Seq::empty(), Seq::empty(), 0) is Ok,
        0 <= j < lines.len(),
        lines[j].kind == LineKindV::Label(n),
    ensures
        ({
            let t = scan(lines, 0, Seq::empty(), Seq::empty(), 0)->Ok_0;
            lookup(t.0, t.1, n) == Some(instrs_before(lines, j) as u16)
        }),
{
    lemma_scan_defines(lines, 0, Seq::empty(), Seq::empty(), 0, j, n);
}

proof fn lemma_emit_wf(
    lines: Seq<LineV>,
    k: int,
    names: Seq<Seq<u8>>,
    addrs: Seq<u16>,
    acc: Seq<Instruction>,
)
    requires
        forall|i: int| 0 <= i < acc.len() ==> (#[trigger] acc[i]).wf(),
        emit(lines, k, names, addrs, acc) is Ok,
    ensures
        forall|i: int|
            0 <= i < emit(lines, k, names, addrs, acc)->Ok_0.len() ==> (#[trigger] emit(
                lines,
                k,
                names,
                addrs,
                acc,
            )->Ok_0[i]).wf(),
    decreases lines.len() - k,
{
    if 0 <= k < lines.len() {
        match lines[k].kind {
            LineKindV::Label(_) => lemma_emit_wf(lines, k + 1, names, addrs, acc),
            LineKindV::Instr(m, ops) => {
                let vals = resolve_from(ops, 0, names, addrs, Seq::empty())->Some_0;
                lemma_build_wf(m, vals);
                let ins = build(m, vals)->Ok_0;
                assert forall|i: int| 0 <= i < acc.push(ins).len() implies (#[trigger] acc.push(
                    ins,
                )[i]).wf() by {
                    if i < acc.len() {
                        assert(acc.push(ins)[i] == acc[i]);
                    }
                }
                lemma_emit_wf(lines, k + 1, names, addrs, acc.push(ins));
            },
        }
    }
}

/// Every instruction of an assembled program is well formed.
pub proof fn lemma_assembled_wf(s: Seq<u8>)
    requires
        assembled(s) is Ok,
    ensures
        forall|i: int| 0 <= i < assembled(s)->Ok_0.len() ==> (#[trigger] assembled(s)->Ok_0[i]).wf(),
{
    let lines = parse_lines(s, 0, 1)->Ok_0;
    let t = scan(lines, 0, Seq::empty(), Seq::empty(), 0)->Ok_0;
    lemma_emit_wf(lines, 0, t.0, t.1, Seq::empty());
}

} // verus!

//! Disassembly listings of instruction words. The words are laid out as little-endian bytes,
//! the capstone crate reads them back as AArch64 instructions, and each instruction becomes
//! one line: its address as `0x` and eight or more hexadecimal digits, then a tab, the
//! mnemonic, a tab and the operands.
use vstd::prelude::*;
use capstone::arch::BuildsCapstone;
use capstone::{arch, Capstone};
use crate::text::{hex_digits, push_char, push_hex_padded, zero_padded};

verus! {

/// The four bytes of `w`, least significant first.
pub open spec fn word_bytes(w: u32) -> Seq<u8> {
    seq![w as u8, (w >> 8) as u8, (w >> 16) as u8, (w >> 24) as u8]
}

/// The little-endian bytes of a sequence of words.
pub open spec fn le_bytes(words: Seq<u32>) -> Seq<u8>
    decreases words.len(),
{
    if words.len() == 0 {
        seq![]
    } else {
        le_bytes(words.drop_last()) + word_bytes(words.last())
    }
}

/// One disassembled instruction: its address, mnemonic and operand text.
pub type AsmLine = (u64, Option<String>, Option<String>);

/// An `AsmLine` as plain values.
pub open spec fn asm_line_view(l: AsmLine) -> (u64, Option<Seq<char>>, Option<Seq<char>>) {
    (
        l.0,
        match l.1 {
            Some(m) => Some(m@),
            None => None,
        },
        match l.2 {
            Some(o) => Some(o@),
            None => None,
        },
    )
}

pub open spec fn asm_lines_view(lines: Seq<AsmLine>) -> Seq<(u64, Option<Seq<char>>, Option<Seq<char>>)> {
    lines.map_values(|l: AsmLine| asm_line_view(l))
}

/// What the capstone crate's AArch64 disassembler reads from `code` with the first
/// instruction at `address`: for each instruction its address, mnemonic and operand text, or
/// `None` where the disassembler reports an error.
pub uninterp spec fn arm64_disassembly(code: Seq<u8>, address: u64) -> Option<
    Seq<(u64, Option<Seq<char>>, Option<Seq<char>>)>,
>;

/// Disassembles `code` with capstone: a disassembler built by `Capstone::new().arm64()` in ARM
/// mode without instruction details, then `disasm_all(code, address)`, each instruction
/// given as its `address()`, `mnemonic()` and `op_str()`. The contract claims only that the
/// result is what `arm64_disassembly` names for these arguments.
#[verifier::external_body]
fn disassemble_arm64(code: &[u8], address: u64) -> (r: Option<Vec<AsmLine>>)
    ensures
        arm64_disassembly(code@, address) == match r {
            Some(v) => Some(asm_lines_view(v@)),
            None => None,
        },
{
    let cs = Capstone::new().arm64().mode(arch::arm64::ArchMode::Arm).detail(false).build().ok()?;
    let insns = cs.disasm_all(code, address).ok()?;
    Some(insns.iter().map(|i| (i.address(), i.mnemonic().map(String::from), i.op_str().map(String::from))).collect())
}

/// `s`, or nothing when absent.
pub open spec fn or_empty(s: Option<Seq<char>>) -> Seq<char> {
    match s {
        Some(t) => t,
        None => seq![],
    }
}

/// The line of one instruction: `0x{address:08x}:\t{mnemonic}\t{operands}` and a newline.
pub open spec fn listing_line(l: (u64, Option<Seq<char>>, Option<Seq<char>>)) -> Seq<char> {
    seq!['0', 'x'] + zero_padded(hex_digits(l.0 as nat), 8) + seq![':', '\t'] + or_empty(l.1) + seq!['\t']
        + or_empty(l.2) + seq!['\n']
}

/// The lines of a sequence of instructions.
pub open spec fn listing_lines(lines: Seq<(u64, Option<Seq<char>>, Option<Seq<char>>)>) -> Seq<char>
    decreases lines.len(),
{
    if lines.len() == 0 {
        seq![]
    } else {
        listing_lines(lines.drop_last()) + listing_line(lines.last())
    }
}

/// A listing: the title line, a rule of twelve `=`, then one line per instruction.
pub open spec fn listing_text(title: Seq<char>, lines: Seq<(u64, Option<Seq<char>>, Option<Seq<char>>)>) -> Seq<
    char,
> {
    title + seq!['\n'] + Seq::new(12, |i: int| '=') + seq!['\n'] + listing_lines(lines)
}

/// The little-endian bytes of `words`, as the processor reads them from memory.
pub fn code_bytes(words: &[u32]) -> (b: Vec<u8>)
    ensures
        b@ == le_bytes(words@),
{
    let mut b: Vec<u8> = Vec::new();
    let mut i: usize = 0;
    while i < words.len()
        invariant
            i <= words.len(),
            b@ == le_bytes(words@.take(i as int)),
        decreases words.len() - i,
    {
        let w = words[i];
        b.push(w as u8);
        b.push((w >> 8) as u8);
        b.push((w >> 16) as u8);
        b.push((w >> 24) as u8);
        assert(words@.take(i + 1).drop_last() =~= words@.take(i as int));
        assert(b@ =~= le_bytes(words@.take(i + 1)));
        i = i + 1;
    }
    assert(words@.take(words.len() as int) =~= words@);
    b
}

/// Append `s`, or nothing when absent.
fn push_optional(out: &mut String, s: &Option<String>)
    ensures
        final(out)@ == old(out)@ + or_empty(
            match s {
                Some(t) => Some(t@),
                None => None,
            },
        ),
{
    match s {
        Some(t) => {
            out.append(t.as_str());
        },
        None => {
            assert(old(out)@ + seq![] =~= old(out)@);
        },
    }
}

/// Append the line of one instruction.
fn push_listing_line(s: &mut String, line: &AsmLine)
    ensures
        final(s)@ == old(s)@ + listing_line(asm_line_view(*line)),
{
    push_char(s, '0');
    push_char(s, 'x');
    push_hex_padded(s, line.0, 8);
    push_char(s, ':');
    push_char(s, '\t');
    push_optional(s, &line.1);
    push_char(s, '\t');
    push_optional(s, &line.2);
    push_char(s, '\n');
    assert(s@ =~= old(s)@ + listing_line(asm_line_view(*line)));
}

/// The listing of disassembled instructions under `title`.
pub fn format_listing(title: &str, lines: &Vec<AsmLine>) -> (s: String)
    ensures
        s@ == listing_text(title@, asm_lines_view(lines@)),
{
    let mut s = String::from_str(title);
    push_char(&mut s, '\n');
    let mut k: usize = 0;
    while k < 12
        invariant
            k <= 12,
            s@ == title@ + seq!['\n'] + Seq::new(k as nat, |i: int| '='),
        decreases 12 - k,
    {
        push_char(&mut s, '=');
        assert(s@ =~= title@ + seq!['\n'] + Seq::new((k + 1) as nat, |i: int| '='));
        k = k + 1;
    }
    push_char(&mut s, '\n');
    let ghost head = s@;
    let mut i: usize = 0;
    while i < lines.len()
        invariant
            i <= lines.len(),
            head == title@ + seq!['\n'] + Seq::new(12, |i: int| '=') + seq!['\n'],
            s@ == head + listing_lines(asm_lines_view(lines@.take(i as int))),
        decreases lines.len() - i,
    {
        let ghost before = s@;
        push_listing_line(&mut s, &lines[i]);
        proof {
            let done = lines@.take(i + 1);
            assert(done.drop_last() =~= lines@.take(i as int));
            assert(asm_lines_view(done).drop_last() =~= asm_lines_view(lines@.take(i as int)));
            assert(asm_lines_view(done).last() == asm_line_view(lines@[i as int]));
        }
        i = i + 1;
    }
    assert(lines@.take(lines.len() as int) =~= lines@);
    s
}

/// The disassembly listing of `words` under `title`, with the first word at address 0;
/// `None` where the disassembler reports an error.
pub fn disassembly_listing(title: &str, words: &[u32]) -> (r: Option<String>)
    ensures
        match arm64_disassembly(le_bytes(words@), 0) {
            Some(lines) => r matches Some(s) && s@ == listing_text(title@, lines),
            None => r is None,
        },
{
    let code = code_bytes(words);
    match disassemble_arm64(code.as_slice(), 0) {
        Some(lines) => Some(format_listing(title, &lines)),
        None => None,
    }
}

} // verus!

//! The SASM assembler: tokenizing, parsing, and the binary program format.
use crate::assembler::error::{AssembledParseError, AssemblerError};
use crate::assembler::parser::error::string_views;
use crate::assembler::parser::syntax::{parse_result_matches, parse_tokens, ParseOutcome};
use crate::assembler::parser::{parse_result_view, tokens_view, Parser};
use crate::assembler::tokenizer::lexical::tokenize_from;
use crate::assembler::tokenizer::tokenizer::Tokenizer;
use crate::code::{
    decode_instruction, instruction_bytes, lemma_instruction_roundtrip, VMInstruction,
};
use crate::le::{
    le_u16, le_u32, le_u64, lemma_u16_le_roundtrip, lemma_u32_le_roundtrip, lemma_u64_le_roundtrip,
    read_u16_le, read_u32_le, read_u64_le, u16_from_le, u16_to_le, u32_from_le, u32_to_le,
    u64_from_le, u64_to_le,
};
use vstd::prelude::*;

pub mod error;
pub mod parser;
pub mod tokenizer;

verus! {

/// The four bytes a program binary starts with: `SVM\0`.
pub open spec fn program_bin_magic() -> Seq<u8> {
    seq![0x53u8, 0x56u8, 0x4Du8, 0u8]
}

/// The format version of program binaries.
pub open spec fn program_bin_version() -> u16 {
    1
}

/// The encodings of the instructions of `p`, one after the other.
pub open spec fn program_bytes(p: Seq<VMInstruction>) -> Seq<u8>
    decreases p.len(),
{
    if p.len() == 0 {
        Seq::empty()
    } else {
        instruction_bytes(p[0]) + program_bytes(p.drop_first())
    }
}

/// The binary form of a program with entry point `entry`: the magic, the version, the entry
/// (as 32 bits), the number of instructions (as 64 bits), all little-endian, then the
/// instructions.
pub open spec fn program_bin(p: Seq<VMInstruction>, entry: usize) -> Seq<u8> {
    program_bin_magic() + le_u16(program_bin_version()) + le_u32(entry as u32) + le_u64(
        p.len() as u64,
    ) + program_bytes(p)
}

/// The `count` instructions encoded one after the other from byte `at` of `b` on, or the first
/// reason why there are not that many.
pub open spec fn decode_instructions(b: Seq<u8>, at: int, count: nat) -> Result<
    Seq<VMInstruction>,
    crate::code::VMInstructionParseError,
>
    decreases count,
{
    if count == 0 {
        Ok(Seq::empty())
    } else {
        match decode_instruction(b.skip(at)) {
            Err(e) => Err(e),
            Ok((i, n)) => match decode_instructions(b, at + n, (count - 1) as nat) {
                Ok(rest) => Ok(seq![i] + rest),
                Err(e) => Err(e),
            },
        }
    }
}

/// The program and entry point that the program binary `b` holds, or why it holds none.
/// Bytes after the last instruction are ignored.
pub open spec fn decode_program_bin(b: Seq<u8>) -> Result<(Seq<VMInstruction>, usize), AssembledParseError> {
    if b.len() < 18 {
        Err(AssembledParseError::TooShort)
    } else if b.take(4) != program_bin_magic() {
        Err(AssembledParseError::BadMagic)
    } else if u16_from_le(b[4], b[5]) != program_bin_version() {
        Err(AssembledParseError::BadVersion)
    } else {
        let entry = u32_from_le(b[6], b[7], b[8], b[9]);
        let count = u64_from_le(b[10], b[11], b[12], b[13], b[14], b[15], b[16], b[17]);
        match decode_instructions(b, 18, count as nat) {
            Ok(p) => Ok((p, entry as usize)),
            Err(e) => Err(AssembledParseError::ConstructingInstruction(e)),
        }
    }
}

/// The result of a successful assembly
#[derive(Debug)]
pub struct Assembled {
    /// The program, as a list of vm instructions
    pub program: Vec<VMInstruction>,
    /// The address of the `:main` label, to be used as the vm's starting program counter
    pub entry: usize,
}


/// Law: a program is encoded instruction by instruction, in order: the empty program has no
/// bytes, and one more instruction appends its own bytes.
pub proof fn lemma_program_bytes_push(p: Seq<VMInstruction>, i: VMInstruction)
    ensures
        program_bytes(Seq::<VMInstruction>::empty()) == Seq::<u8>::empty(),
        program_bytes(p.push(i)) == program_bytes(p) + instruction_bytes(i),
    decreases p.len(),
{
    if p.len() == 0 {
        assert(p.push(i).drop_first() =~= Seq::<VMInstruction>::empty());
        assert(p.push(i)[0] == i);
        assert(program_bytes(Seq::<VMInstruction>::empty()) == Seq::<u8>::empty());
        assert(program_bytes(p) == Seq::<u8>::empty());
        assert(program_bytes(p.push(i)) =~= program_bytes(p) + instruction_bytes(i));
    } else {
        lemma_program_bytes_push(p.drop_first(), i);
        assert(p.push(i).drop_first() =~= p.drop_first().push(i));
        assert(p.push(i)[0] == p[0]);
        assert(program_bytes(p.push(i)) == instruction_bytes(p[0]) + program_bytes(p.drop_first().push(i)));
        assert(program_bytes(p.push(i)) =~= program_bytes(p) + instruction_bytes(i));
    }
}

/// Decoding the encodings of instructions, whatever bytes follow, gives them back.
proof fn lemma_decode_program_bytes(b: Seq<u8>, at: int, p: Seq<VMInstruction>, rest: Seq<u8>)
    requires
        0 <= at <= b.len(),
        b.skip(at) == program_bytes(p) + rest,
    ensures
        decode_instructions(b, at, p.len()) == Ok::<Seq<VMInstruction>, crate::code::VMInstructionParseError>(p),
    decreases p.len(),
{
    if p.len() > 0 {
        let tail = program_bytes(p.drop_first()) + rest;
        assert(b.skip(at) =~= instruction_bytes(p[0]) + tail);
        lemma_instruction_roundtrip(p[0], tail);
        let n = instruction_bytes(p[0]).len();
        assert(b.skip(at).skip(n as int) =~= tail);
        assert(b.skip(at + n) =~= b.skip(at).skip(n as int));
        lemma_decode_program_bytes(b, at + n as int, p.drop_first(), rest);
        assert(seq![p[0]] + p.drop_first() =~= p);
    } else {
        assert(p =~= Seq::<VMInstruction>::empty());
    }
}

/// Law: reading back the binary form of a program gives the program and its entry point, for
/// every entry point that fits the format's 32 bits, whatever bytes follow it.
pub proof fn lemma_program_bin_roundtrip(p: Seq<VMInstruction>, entry: usize, rest: Seq<u8>)
    requires
        entry <= u32::MAX,
        p.len() <= u64::MAX,
    ensures
        decode_program_bin(program_bin(p, entry) + rest) == Ok::<(Seq<VMInstruction>, usize), AssembledParseError>((p, entry)),
{
    let b = program_bin(p, entry) + rest;
    lemma_u16_le_roundtrip(program_bin_version());
    lemma_u32_le_roundtrip(entry as u32);
    lemma_u64_le_roundtrip(p.len() as u64);
    assert(b.take(4) =~= program_bin_magic());
    assert(b[4] == le_u16(program_bin_version())[0] && b[5] == le_u16(program_bin_version())[1]);
    assert(b[6] == le_u32(entry as u32)[0] && b[7] == le_u32(entry as u32)[1]);
    assert(b[8] == le_u32(entry as u32)[2] && b[9] == le_u32(entry as u32)[3]);
    let c = le_u64(p.len() as u64);
    assert(b[10] == c[0] && b[11] == c[1] && b[12] == c[2] && b[13] == c[3]);
    assert(b[14] == c[4] && b[15] == c[5] && b[16] == c[6] && b[17] == c[7]);
    assert(b.skip(18) =~= program_bytes(p) + rest);
    lemma_decode_program_bytes(b, 18, p, rest);
}

/// Law: the layout of a program binary. It is the magic `SVM\0`, the version 1 as two
/// little-endian bytes, the entry point as four little-endian bytes (its base-256 digits, lowest
/// first), the number of instructions as eight little-endian bytes, then the instructions.
pub proof fn lemma_program_bin_layout(p: Seq<VMInstruction>, entry: usize)
    ensures
        ({
            let b = program_bin(p, entry);
            let e = entry as u32;
            let n = p.len() as u64;
            &&& b.len() == 18 + program_bytes(p).len()
            &&& b.take(6) == seq![0x53u8, 0x56u8, 0x4Du8, 0u8, 1u8, 0u8]
            &&& b.subrange(6, 10) == seq![
                (e % 256) as u8,
                ((e / 256) % 256) as u8,
                ((e / 65536) % 256) as u8,
                (e / 16777216) as u8,
            ]
            &&& b.subrange(10, 18) == le_u64(n)
            &&& b.skip(18) == program_bytes(p)
        }),
{
    let e = entry as u32;
    let n = p.len() as u64;
    crate::le::lemma_le_digits(1u16, e, n);
    let b = program_bin(p, entry);
    assert(b.take(6) =~= seq![0x53u8, 0x56u8, 0x4Du8, 0u8, 1u8, 0u8]);
    assert(b.subrange(6, 10) =~= le_u32(e));
    assert(b.subrange(10, 18) =~= le_u64(n));
    assert(b.skip(18) =~= program_bytes(p));
}

/// Law: reading the header of a program binary. Fewer than 18 bytes are `TooShort`; otherwise
/// bytes other than the magic `SVM\0` are `BadMagic`, then a version other than 1 (bytes 4 and 5,
/// little-endian) is `BadVersion`; a binary that reads has the entry point whose little-endian
/// bytes are bytes 6 to 9.
pub proof fn lemma_program_bin_header(b: Seq<u8>)
    ensures
        b.len() < 18 ==> decode_program_bin(b) == Err::<(Seq<VMInstruction>, usize), AssembledParseError>(
            AssembledParseError::TooShort,
        ),
        b.len() >= 18 && b.take(4) != seq![0x53u8, 0x56u8, 0x4Du8, 0u8] ==> decode_program_bin(b)
            == Err::<(Seq<VMInstruction>, usize), AssembledParseError>(AssembledParseError::BadMagic),
        b.len() >= 18 && b.take(4) == seq![0x53u8, 0x56u8, 0x4Du8, 0u8] && !(b[4] == 1 && b[5] == 0)
            ==> decode_program_bin(b) == Err::<(Seq<VMInstruction>, usize), AssembledParseError>(
            AssembledParseError::BadVersion,
        ),
        decode_program_bin(b) matches Ok((_, e)) ==> e == b[6] + 256 * b[7] + 65536 * b[8] + 16777216
            * b[9],
{
    if b.len() >= 18 {
        let (b0, b1, b2, b3, b4, b5) = (b[4], b[5], b[6], b[7], b[8], b[9]);
        assert(((b0 as u16) | ((b1 as u16) << 8u16)) == 1u16 <==> (b0 == 1 && b1 == 0)) by (bit_vector);
        assert(((b2 as u32) | ((b3 as u32) << 8u32) | ((b4 as u32) << 16u32) | ((b5 as u32) << 24u32))
            == b2 as u32 + 256 * (b3 as u32) + 65536 * (b4 as u32) + 16777216 * (b5 as u32)) by (bit_vector);
    }
}

impl Assembled {
    /// Converts the assembled program into a binary file that can be executed by the VM
    pub fn to_bin(&self) -> (r: Vec<u8>)
        ensures
            r@ == program_bin(self.program@, self.entry),
    {
        let mut v: Vec<u8> = Vec::new();
        v.push(0x53u8);
        v.push(0x56u8);
        v.push(0x4Du8);
        v.push(0u8);
        let ver = u16_to_le(1);
        v.push(ver[0]);
        v.push(ver[1]);
        let e = u32_to_le(self.entry as u32);
        v.push(e[0]);
        v.push(e[1]);
        v.push(e[2]);
        v.push(e[3]);
        let n = u64_to_le(self.program.len() as u64);
        let mut k: usize = 0;
        while k < 8
            invariant
                k <= 8,
                n@ == le_u64(self.program@.len() as u64),
                v@ == program_bin_magic() + le_u16(program_bin_version()) + le_u32(
                    self.entry as u32,
                ) + n@.take(k as int),
            decreases 8 - k,
        {
            v.push(n[k]);
            k = k + 1;
            assert(v@ =~= program_bin_magic() + le_u16(program_bin_version()) + le_u32(
                self.entry as u32,
            ) + n@.take(k as int));
        }
        let ghost header = v@;
        assert(n@.take(8) =~= n@);
        assert(self.program@.take(0) =~= Seq::<VMInstruction>::empty());
        assert(header + program_bytes(Seq::empty()) =~= header);
        let mut k: usize = 0;
        while k < self.program.len()
            invariant
                k <= self.program@.len(),
                v@ == header + program_bytes(self.program@.take(k as int)),
            decreases self.program@.len() - k,
        {
            let mut b = self.program[k].as_bytes();
            proof {
                lemma_program_bytes_push(self.program@.take(k as int), self.program@[k as int]);
                assert(self.program@.take(k + 1) =~= self.program@.take(k as int).push(
                    self.program@[k as int],
                ));
            }
            v.append(&mut b);
            k = k + 1;
            assert(v@ =~= header + program_bytes(self.program@.take(k as int)));
        }
        assert(self.program@.take(self.program@.len() as int) =~= self.program@);
        v
    }

    /// Reads a program binary made by `to_bin`
    pub fn from_bin(bin: &[u8]) -> (r: Result<Self, AssembledParseError>)
        ensures
            match decode_program_bin(bin@) {
                Ok((p, entry)) => r matches Ok(a) && a.program@ == p && a.entry == entry,
                Err(e) => r matches Err(x) && x == e,
            },
    {
        if bin.len() < 18 {
            return Err(AssembledParseError::TooShort);
        }
        if bin[0] != 0x53 || bin[1] != 0x56 || bin[2] != 0x4D || bin[3] != 0 {
            assert(bin@.take(4) != program_bin_magic()) by {
                if bin@.take(4) == program_bin_magic() {
                    assert(bin@.take(4)[0] == bin@[0]);
                    assert(bin@.take(4)[1] == bin@[1]);
                    assert(bin@.take(4)[2] == bin@[2]);
                    assert(bin@.take(4)[3] == bin@[3]);
                }
            }
            return Err(AssembledParseError::BadMagic);
        }
        assert(bin@.take(4) =~= program_bin_magic());
        let ver = read_u16_le(bin, 4);
        if ver != 1 {
            return Err(AssembledParseError::BadVersion);
        }
        let entry = read_u32_le(bin, 6);
        let instruction_cnt = read_u64_le(bin, 10);
        let mut i: usize = 18;
        let mut instrs: Vec<VMInstruction> = Vec::new();
        let mut k: u64 = 0;
        let len = bin.len();
        assert(decode_program_bin(bin@) == match decode_instructions(bin@, 18, instruction_cnt as nat) {
            Ok(p) => Ok((p, entry as usize)),
            Err(e) => Err(AssembledParseError::ConstructingInstruction(e)),
        });
        while k < instruction_cnt
            invariant
                len == bin@.len(),
                decode_program_bin(bin@) == match decode_instructions(bin@, 18, instruction_cnt as nat) {
                    Ok(p) => Ok((p, entry as usize)),
                    Err(e) => Err(AssembledParseError::ConstructingInstruction(e)),
                },
                18 <= i <= bin@.len(),
                k <= instruction_cnt,
                decode_instructions(bin@, 18, instruction_cnt as nat) == match decode_instructions(
                    bin@,
                    i as int,
                    (instruction_cnt - k) as nat,
                ) {
                    Ok(rest) => Ok(instrs@ + rest),
                    Err(e) => Err::<Seq<VMInstruction>, crate::code::VMInstructionParseError>(e),
                },
            decreases instruction_cnt - k,
        {
            match VMInstruction::try_from_bytes_at(bin, i) {
                Ok((instr, size)) => {
                    let ghost before = instrs@;
                    proof {
                        crate::code::lemma_instruction_canonical(bin@.skip(i as int));
                        assert(bin@.skip(i as int).len() == bin@.len() - i);
                    }
                    i = i + size as usize;
                    instrs.push(instr);
                    assert forall|rest: Seq<VMInstruction>| before + (seq![instr] + rest) == instrs@ + rest by {
                        assert(before + (seq![instr] + rest) =~= instrs@ + rest);
                    }
                },
                Err(e) => {
                    assert(decode_instructions(bin@, i as int, (instruction_cnt - k) as nat)
                        == Err::<Seq<VMInstruction>, crate::code::VMInstructionParseError>(e));
                    return Err(AssembledParseError::ConstructingInstruction(e));
                },
            }
            k = k + 1;
        }
        assert(instrs@ + Seq::<VMInstruction>::empty() =~= instrs@);
        Ok(Self { program: instrs, entry: entry as usize })
    }
}


/// Whether `r` is what assembling `text` gives: the tokenizer's first error, or else what the
/// parser makes of the tokens.
pub open spec fn assembly_matches(r: Result<Assembled, AssemblerError>, text: Seq<char>) -> bool {
    match tokenize_from(text, 0) {
        Err(e) => r matches Err(AssemblerError::TokenizeError(x)) && x@ == e,
        Ok(toks) => match r {
            Ok(a) => parse_result_matches(
                Ok::<(Seq<VMInstruction>, usize), crate::assembler::parser::error::ParseErrorView>(
                    (a.program@, a.entry),
                ),
                parse_tokens(toks),
            ),
            Err(AssemblerError::ParseError(x)) => parse_result_matches(
                Err::<(Seq<VMInstruction>, usize), crate::assembler::parser::error::ParseErrorView>(
                    x@,
                ),
                parse_tokens(toks),
            ),
            Err(AssemblerError::TokenizeError(_)) => false,
        },
    }
}

/// Combines tokenizing and parsing
#[derive(Debug)]
pub struct Assembler<'a> {
    text: &'a str,
}

impl<'a> Assembler<'a> {
    /// The source text
    pub closed spec fn text(&self) -> Seq<char> {
        self.text@
    }

    /// Creates a new assembler with a given source text
    pub fn new(text: &'a str) -> (r: Self)
        ensures
            r.text() == text@,
    {
        Self { text }
    }

    /// Tokenizes the source text and parses the tokens into a list of vm instructions,
    /// along with the entry point address (the `:main` label)
    pub fn assemble(&self) -> (r: Result<Assembled, AssemblerError>)
        ensures
            assembly_matches(r, self.text()),
    {
        let mut tokenizer = Tokenizer::new(self.text);
        let tokens = match tokenizer.tokenize() {
            Ok(t) => t,
            Err(e) => return Err(AssemblerError::TokenizeError(e)),
        };
        let parser = Parser::new(tokens.as_slice());
        match parser.parse() {
            Ok((program, entry)) => Ok(Assembled { program, entry }),
            Err(e) => Err(AssemblerError::ParseError(e)),
        }
    }
}

} // verus!

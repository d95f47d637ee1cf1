//! The instruction table and the decoder of a method's instruction stream.

use vstd::prelude::*;
use crate::bytes::{Wire, u32_at_spec, wire_seq, lemma_wire_seq_push, read_u8, read_u32, read_bytes};
use crate::error::DecodeError;

verus! {

/// One decoded instruction: its table entry and its operand bytes.
#[derive(Debug, Clone)]
pub struct CodeByte {
    pub name: &'static str,
    pub opcode: u8,
    /// Encoded length: the opcode byte and its operands.
    pub length: u32,
    pub stack_behavior: &'static str,
    pub data: Vec<u8>,
}

impl Wire for CodeByte {
    open spec fn wire(&self) -> Seq<u8> {
        seq![self.opcode] + self.data@
    }
}

pub const TABLESWITCH: u8 = 0xaa;
pub const LOOKUPSWITCH: u8 = 0xab;
pub const IINC: u8 = 0x84;
pub const WIDE: u8 = 0xc4;

/// Opcodes that the instruction set defines.
pub open spec fn is_defined_opcode(op: u8) -> bool {
    op <= 0xca || op == 0xfe || op == 0xff
}

/// Number of operand bytes that follow an opcode of fixed length.
pub open spec fn operand_width(op: u8) -> int {
    if op == 0x10 || op == 0x12 || op == 0xa9 || op == 0xbc || (0x15 <= op <= 0x19) || (0x36
        <= op <= 0x3a) {
        1
    } else if op == 0x11 || op == 0x13 || op == 0x14 || op == 0x84 || op == 0xbb || op == 0xbd
        || op == 0xc0 || op == 0xc1 || op == 0xc6 || op == 0xc7 || (0x99 <= op <= 0xa8) || (0xb2
        <= op <= 0xb8) {
        2
    } else if op == 0xc5 {
        3
    } else if op == 0xb9 || op == 0xba || op == 0xc8 || op == 0xc9 {
        4
    } else {
        0
    }
}

/// Two's-complement reading of a 32-bit word.
pub open spec fn as_signed(v: u32) -> int {
    if v < 0x8000_0000 {
        v as int
    } else {
        v as int - 0x1_0000_0000
    }
}

/// Padding after a switch opcode at offset `at`, so that its operands start
/// at a multiple of four from the start of the code.
pub open spec fn switch_padding(at: int) -> int {
    (4 - (at + 1) % 4) % 4
}

/// Where the 32-bit operands of a switch at `at` begin.
pub open spec fn switch_base(at: int) -> int {
    at + 1 + switch_padding(at)
}

/// Number of operand bytes of the instruction at `at`; for the three
/// variable-length opcodes it is read from the operands themselves.
pub open spec fn operand_length(code: Seq<u8>, at: int) -> int {
    let op = code[at];
    if op == TABLESWITCH {
        let low = as_signed(u32_at_spec(code, switch_base(at) + 4));
        let high = as_signed(u32_at_spec(code, switch_base(at) + 8));
        switch_padding(at) + 12 + 4 * (high - low + 1)
    } else if op == LOOKUPSWITCH {
        let npairs = as_signed(u32_at_spec(code, switch_base(at) + 4));
        switch_padding(at) + 8 + 8 * npairs
    } else if op == WIDE {
        if code[at + 1] == IINC {
            5
        } else {
            3
        }
    } else {
        operand_width(op)
    }
}

/// The fields that give the length of the instruction at `at` are present.
pub open spec fn length_readable(code: Seq<u8>, at: int) -> bool {
    let op = code[at];
    if op == TABLESWITCH {
        switch_base(at) + 12 <= code.len()
    } else if op == LOOKUPSWITCH {
        switch_base(at) + 8 <= code.len()
    } else if op == WIDE {
        at + 2 <= code.len()
    } else {
        true
    }
}

/// The switch bounds of the instruction at `at` are in order.
pub open spec fn bounds_ordered(code: Seq<u8>, at: int) -> bool {
    let op = code[at];
    if op == TABLESWITCH {
        as_signed(u32_at_spec(code, switch_base(at) + 4)) <= as_signed(
            u32_at_spec(code, switch_base(at) + 8),
        )
    } else if op == LOOKUPSWITCH {
        as_signed(u32_at_spec(code, switch_base(at) + 4)) >= 0
    } else {
        true
    }
}

/// The instruction at `at` is complete within `code`.
pub open spec fn instruction_fits(code: Seq<u8>, at: int) -> bool {
    &&& 0 <= at < code.len()
    &&& length_readable(code, at)
    &&& bounds_ordered(code, at)
    &&& at + 1 + operand_length(code, at) <= code.len()
}

/// Outcome of the instruction at `at`: where it ends, or why it cannot be
/// decoded.
pub open spec fn instruction_outcome(code: Seq<u8>, at: int) -> Result<int, DecodeError> {
    if !length_readable(code, at) {
        Err(DecodeError::InsufficientBytes)
    } else if !bounds_ordered(code, at) {
        Err(DecodeError::InvalidSwitchBounds)
    } else if at + 1 + operand_length(code, at) <= code.len() {
        Ok(at + 1 + operand_length(code, at))
    } else {
        Err(DecodeError::InsufficientBytes)
    }
}

/// Outcome of decoding instructions from `at` to the end of `code`.
pub open spec fn stream_outcome(code: Seq<u8>, at: int) -> Result<int, DecodeError>
    decreases code.len() - at,
    when 0 <= at <= code.len()
{
    if at == code.len() {
        Ok(at)
    } else if instruction_fits(code, at) {
        stream_outcome(code, at + 1 + operand_length(code, at))
    } else {
        match instruction_outcome(code, at) {
            Err(e) => Err(e),
            Ok(_) => Err(DecodeError::InsufficientBytes),
        }
    }
}

/// Whole instructions covering the rest of `code` from `at` decode to its end.
pub proof fn lemma_tiles_decode(code: Seq<u8>, at: int)
    requires
        0 <= at <= code.len(),
        tiles_from(code, at),
    ensures
        stream_outcome(code, at) == Ok::<int, DecodeError>(code.len() as int),
    decreases code.len() - at,
{
    if at < code.len() {
        lemma_tiles_decode(code, at + 1 + operand_length(code, at));
    }
}

/// Where instruction `i` of a decoded run starts.
pub open spec fn start_of(v: Seq<CodeByte>, i: int) -> int {
    wire_seq(v.take(i)).len() as int
}

/// Starting at `at`, whole instructions cover the rest of `code` exactly.
pub open spec fn tiles_from(code: Seq<u8>, at: int) -> bool
    decreases code.len() - at,
    when 0 <= at <= code.len()
{
    if at == code.len() {
        true
    } else {
        instruction_fits(code, at) && tiles_from(code, at + 1 + operand_length(code, at))
    }
}

/// Mnemonic of a defined opcode.
pub open spec fn opcode_name(op: u8) -> Seq<char> {
    match op {
        0x00 => "nop"@,
        0x01 => "aconst_null"@,
        0x02 => "iconst_m1"@,
        0x03 => "iconst_0"@,
        0x04 => "iconst_1"@,
        0x05 => "iconst_2"@,
        0x06 => "iconst_3"@,
        0x07 => "iconst_4"@,
        0x08 => "iconst_5"@,
        0x09 => "lconst_0"@,
        0x0a => "lconst_1"@,
        0x0b => "fconst_0"@,
        0x0c => "fconst_1"@,
        0x0d => "fconst_2"@,
        0x0e => "dconst_0"@,
        0x0f => "dconst_1"@,
        0x10 => "bipush"@,
        0x11 => "sipush"@,
        0x12 => "ldc"@,
        0x13 => "ldc_w"@,
        0x14 => "ldc2_w"@,
        0x15 => "iload"@,
        0x16 => "lload"@,
        0x17 => "fload"@,
        0x18 => "dload"@,
        0x19 => "aload"@,
        0x1a => "iload_0"@,
        0x1b => "iload_1"@,
        0x1c => "iload_2"@,
        0x1d => "iload_3"@,
        0x1e => "lload_0"@,
        0x1f => "lload_1"@,
        0x20 => "lload_2"@,
        0x21 => "lload_3"@,
        0x22 => "fload_0"@,
        0x23 => "fload_1"@,
        0x24 => "fload_2"@,
        0x25 => "fload_3"@,
        0x26 => "dload_0"@,
        0x27 => "dload_1"@,
        0x28 => "dload_2"@,
        0x29 => "dload_3"@,
        0x2a => "aload_0"@,
        0x2b => "aload_1"@,
        0x2c => "aload_2"@,
        0x2d => "aload_3"@,
        0x2e => "iaload"@,
        0x2f => "laload"@,
        0x30 => "faload"@,
        0x31 => "daload"@,
        0x32 => "aaload"@,
        0x33 => "baload"@,
        0x34 => "caload"@,
        0x35 => "saload"@,
        0x36 => "istore"@,
        0x37 => "lstore"@,
        0x38 => "fstore"@,
        0x39 => "dstore"@,
        0x3a => "astore"@,
        0x3b => "istore_0"@,
        0x3c => "istore_1"@,
        0x3d => "istore_2"@,
        0x3e => "istore_3"@,
        0x3f => "lstore_0"@,
        0x40 => "lstore_1"@,
        0x41 => "lstore_2"@,
        0x42 => "lstore_3"@,
        0x43 => "fstore_0"@,
        0x44 => "fstore_1"@,
        0x45 => "fstore_2"@,
        0x46 => "fstore_3"@,
        0x47 => "dstore_0"@,
        0x48 => "dstore_1"@,
        0x49 => "dstore_2"@,
        0x4a => "dstore_3"@,
        0x4b => "astore_0"@,
        0x4c => "astore_1"@,
        0x4d => "astore_2"@,
        0x4e => "astore_3"@,
        0x4f => "iastore"@,
        0x50 => "lastore"@,
        0x51 => "fastore"@,
        0x52 => "dastore"@,
        0x53 => "aastore"@,
        0x54 => "bastore"@,
        0x55 => "castore"@,
        0x56 => "sastore"@,
        0x57 => "pop"@,
        0x58 => "pop2"@,
        0x59 => "dup"@,
        0x5a => "dup_x1"@,
        0x5b => "dup_x2"@,
        0x5c => "dup2"@,
        0x5d => "dup2_x1"@,
        0x5e => "dup2_x2"@,
        0x5f => "swap"@,
        0x60 => "iadd"@,
        0x61 => "ladd"@,
        0x62 => "fadd"@,
        0x63 => "dadd"@,
        0x64 => "isub"@,
        0x65 => "lsub"@,
        0x66 => "fsub"@,
        0x67 => "dsub"@,
        0x68 => "imul"@,
        0x69 => "lmul"@,
        0x6a => "fmul"@,
        0x6b => "dmul"@,
        0x6c => "idiv"@,
        0x6d => "ldiv"@,
        0x6e => "fdiv"@,
        0x6f => "ddiv"@,
        0x70 => "irem"@,
        0x71 => "lrem"@,
        0x72 => "frem"@,
        0x73 => "drem"@,
        0x74 => "ineg"@,
        0x75 => "lneg"@,
        0x76 => "fneg"@,
        0x77 => "dneg"@,
        0x78 => "ishl"@,
        0x79 => "lshl"@,
        0x7a => "ishr"@,
        0x7b => "lshr"@,
        0x7c => "iushr"@,
        0x7d => "lushr"@,
        0x7e => "iand"@,
        0x7f => "land"@,
        0x80 => "ior"@,
        0x81 => "lor"@,
        0x82 => "ixor"@,
        0x83 => "lxor"@,
        0x84 => "iinc"@,
        0x85 => "i2l"@,
        0x86 => "i2f"@,
        0x87 => "i2d"@,
        0x88 => "l2i"@,
        0x89 => "l2f"@,
        0x8a => "l2d"@,
        0x8b => "f2i"@,
        0x8c => "f2l"@,
        0x8d => "f2d"@,
        0x8e => "d2i"@,
        0x8f => "d2l"@,
        0x90 => "d2f"@,
        0x91 => "i2b"@,
        0x92 => "i2c"@,
        0x93 => "i2s"@,
        0x94 => "lcmp"@,
        0x95 => "fcmpl"@,
        0x96 => "fcmpg"@,
        0x97 => "dcmpl"@,
        0x98 => "dcmpg"@,
        0x99 => "ifeq"@,
        0x9a => "ifne"@,
        0x9b => "iflt"@,
        0x9c => "ifge"@,
        0x9d => "ifgt"@,
        0x9e => "ifle"@,
        0x9f => "if_icmpeq"@,
        0xa0 => "if_icmpne"@,
        0xa1 => "if_icmplt"@,
        0xa2 => "if_icmpge"@,
        0xa3 => "if_icmpgt"@,
        0xa4 => "if_icmple"@,
        0xa5 => "if_acmpeq"@,
        0xa6 => "if_acmpne"@,
        0xa7 => "goto"@,
        0xa8 => "jsr"@,
        0xa9 => "ret"@,
        0xaa => "tableswitch"@,
        0xab => "lookupswitch"@,
        0xac => "ireturn"@,
        0xad => "lreturn"@,
        0xae => "freturn"@,
        0xaf => "dreturn"@,
        0xb0 => "areturn"@,
        0xb1 => "return"@,
        0xb2 => "getstatic"@,
        0xb3 => "putstatic"@,
        0xb4 => "getfield"@,
        0xb5 => "putfield"@,
        0xb6 => "invokevirtual"@,
        0xb7 => "invokespecial"@,
        0xb8 => "invokestatic"@,
        0xb9 => "invokeinterface"@,
        0xba => "invokedynamic"@,
        0xbb => "new"@,
        0xbc => "newarray"@,
        0xbd => "anewarray"@,
        0xbe => "arraylength"@,
        0xbf => "athrow"@,
        0xc0 => "checkcast"@,
        0xc1 => "instanceof"@,
        0xc2 => "monitorenter"@,
        0xc3 => "monitorexit"@,
        0xc4 => "wide"@,
        0xc5 => "multianewarray"@,
        0xc6 => "ifnull"@,
        0xc7 => "ifnonnull"@,
        0xc8 => "goto_w"@,
        0xc9 => "jsr_w"@,
        0xca => "breakpoint"@,
        0xfe => "impdep1"@,
        0xff => "impdep2"@,
        _ => "Unknown"@,
    }
}

/// Stack effect of a defined opcode.
pub open spec fn opcode_stack(op: u8) -> Seq<char> {
    match op {
        0x00 => "No change"@,
        0x01 => "... -> ..., null"@,
        0x02 => "... -> ..., -1"@,
        0x03 => "... -> ..., 0"@,
        0x04 => "... -> ..., 1"@,
        0x05 => "... -> ..., 2"@,
        0x06 => "... -> ..., 3"@,
        0x07 => "... -> ..., 4"@,
        0x08 => "... -> ..., 5"@,
        0x09 => "... -> ..., 0L"@,
        0x0a => "... -> ..., 1L"@,
        0x0b => "... -> ..., 0.0f"@,
        0x0c => "... -> ..., 1.0f"@,
        0x0d => "... -> ..., 2.0f"@,
        0x0e => "... -> ..., 0.0d"@,
        0x0f => "... -> ..., 1.0d"@,
        0x10 => "... -> ..., value"@,
        0x11 => "... -> ..., value"@,
        0x12 => "... -> ..., value"@,
        0x13 => "... -> ..., value"@,
        0x14 => "... -> ..., value"@,
        0x15 => "... -> ..., value"@,
        0x16 => "... -> ..., value"@,
        0x17 => "... -> ..., value"@,
        0x18 => "... -> ..., value"@,
        0x19 => "... -> ..., objectref"@,
        0x1a => "... -> ..., value"@,
        0x1b => "... -> ..., value"@,
        0x1c => "... -> ..., value"@,
        0x1d => "... -> ..., value"@,
        0x1e => "... -> ..., value"@,
        0x1f => "... -> ..., value"@,
        0x20 => "... -> ..., value"@,
        0x21 => "... -> ..., value"@,
        0x22 => "... -> ..., value"@,
        0x23 => "... -> ..., value"@,
        0x24 => "... -> ..., value"@,
        0x25 => "... -> ..., value"@,
        0x26 => "... -> ..., value"@,
        0x27 => "... -> ..., value"@,
        0x28 => "... -> ..., value"@,
        0x29 => "... -> ..., value"@,
        0x2a => "... -> ..., objectref"@,
        0x2b => "... -> ..., objectref"@,
        0x2c => "... -> ..., objectref"@,
        0x2d => "... -> ..., objectref"@,
        0x2e => "..., arrayref, index -> ..., value"@,
        0x2f => "..., arrayref, index -> ..., value"@,
        0x30 => "..., arrayref, index -> ..., value"@,
        0x31 => "..., arrayref, index -> ..., value"@,
        0x32 => "..., arrayref, index -> ..., value"@,
        0x33 => "..., arrayref, index -> ..., value"@,
        0x34 => "..., arrayref, index -> ..., value"@,
        0x35 => "..., arrayref, index -> ..., value"@,
        0x36 => "..., value -> ..."@,
        0x37 => "..., value -> ..."@,
        0x38 => "..., value -> ..."@,
        0x39 => "..., value -> ..."@,
        0x3a => "..., objectref -> ..."@,
        0x3b => "..., value -> ..."@,
        0x3c => "..., value -> ..."@,
        0x3d => "..., value -> ..."@,
        0x3e => "..., value -> ..."@,
        0x3f => "..., value -> ..."@,
        0x40 => "..., value -> ..."@,
        0x41 => "..., value -> ..."@,
        0x42 => "..., value -> ..."@,
        0x43 => "..., value -> ..."@,
        0x44 => "..., value -> ..."@,
        0x45 => "..., value -> ..."@,
        0x46 => "..., value -> ..."@,
        0x47 => "..., value -> ..."@,
        0x48 => "..., value -> ..."@,
        0x49 => "..., value -> ..."@,
        0x4a => "..., value -> ..."@,
        0x4b => "..., objectref -> ..."@,
        0x4c => "..., objectref -> ..."@,
        0x4d => "..., objectref -> ..."@,
        0x4e => "..., objectref -> ..."@,
        0x4f => "..., arrayref, index, value -> ..."@,
        0x50 => "..., arrayref, index, value -> ..."@,
        0x51 => "..., arrayref, index, value -> ..."@,
        0x52 => "..., arrayref, index, value -> ..."@,
        0x53 => "..., arrayref, index, value -> ..."@,
        0x54 => "..., arrayref, index, value -> ..."@,
        0x55 => "..., arrayref, index, value -> ..."@,
        0x56 => "..., arrayref, index, value -> ..."@,
        0x57 => "..., value -> ..."@,
        0x58 => "..., value2, value1 -> ..."@,
        0x59 => "..., value -> ..., value, value"@,
        0x5a => "..., value2, value1 -> ..., value1, value2, value1"@,
        0x5b => "..., value3, value2, value1 -> ..., value1, value3, value2, value1"@,
        0x5c => "..., {value2, value1} -> ..., {value2, value1}, {value2, value1}"@,
        0x5d => "..., value3, {value2, value1} -> ..., {value2, value1}, value3, {value2, value1}"@,
        0x5e => "..., {value4, value3}, {value2, value1} -> ..., {value2, value1}, {value4, value3}, {value2, value1}"@,
        0x5f => "..., value2, value1 -> ..., value1, value2"@,
        0x60 => "..., value1, value2 -> ..., result"@,
        0x61 => "..., value1, value2 -> ..., result"@,
        0x62 => "..., value1, value2 -> ..., result"@,
        0x63 => "..., value1, value2 -> ..., result"@,
        0x64 => "..., value1, value2 -> ..., result"@,
        0x65 => "..., value1, value2 -> ..., result"@,
        0x66 => "..., value1, value2 -> ..., result"@,
        0x67 => "..., value1, value2 -> ..., result"@,
        0x68 => "..., value1, value2 -> ..., result"@,
        0x69 => "..., value1, value2 -> ..., result"@,
        0x6a => "..., value1, value2 -> ..., result"@,
        0x6b => "..., value1, value2 -> ..., result"@,
        0x6c => "..., value1, value2 -> ..., result"@,
        0x6d => "..., value1, value2 -> ..., result"@,
        0x6e => "..., value1, value2 -> ..., result"@,
        0x6f => "..., value1, value2 -> ..., result"@,
        0x70 => "..., value1, value2 -> ..., result"@,
        0x71 => "..., value1, value2 -> ..., result"@,
        0x72 => "..., value1, value2 -> ..., result"@,
        0x73 => "..., value1, value2 -> ..., result"@,
        0x74 => "..., value -> ..., result"@,
        0x75 => "..., value -> ..., result"@,
        0x76 => "..., value -> ..., result"@,
        0x77 => "..., value -> ..., result"@,
        0x78 => "..., value1, value2 -> ..., result"@,
        0x79 => "..., value1, value2 -> ..., result"@,
        0x7a => "..., value1, value2 -> ..., result"@,
        0x7b => "..., value1, value2 -> ..., result"@,
        0x7c => "..., value1, value2 -> ..., result"@,
        0x7d => "..., value1, value2 -> ..., result"@,
        0x7e => "..., value1, value2 -> ..., result"@,
        0x7f => "..., value1, value2 -> ..., result"@,
        0x80 => "..., value1, value2 -> ..., result"@,
        0x81 => "..., value1, value2 -> ..., result"@,
        0x82 => "..., value1, value2 -> ..., result"@,
        0x83 => "..., value1, value2 -> ..., result"@,
        0x84 => "No change"@,
        0x85 => "..., value -> ..., result"@,
        0x86 => "..., value -> ..., result"@,
        0x87 => "..., value -> ..., result"@,
        0x88 => "..., value -> ..., result"@,
        0x89 => "..., value -> ..., result"@,
        0x8a => "..., value -> ..., result"@,
        0x8b => "..., value -> ..., result"@,
        0x8c => "..., value -> ..., result"@,
        0x8d => "..., value -> ..., result"@,
        0x8e => "..., value -> ..., result"@,
        0x8f => "..., value -> ..., result"@,
        0x90 => "..., value -> ..., result"@,
        0x91 => "..., value -> ..., result"@,
        0x92 => "..., value -> ..., result"@,
        0x93 => "..., value -> ..., result"@,
        0x94 => "..., value1, value2 -> ..., result"@,
        0x95 => "..., value1, value2 -> ..., result"@,
        0x96 => "..., value1, value2 -> ..., result"@,
        0x97 => "..., value1, value2 -> ..., result"@,
        0x98 => "..., value1, value2 -> ..., result"@,
        0x99 => "..., value -> ..."@,
        0x9a => "..., value -> ..."@,
        0x9b => "..., value -> ..."@,
        0x9c => "..., value -> ..."@,
        0x9d => "..., value -> ..."@,
        0x9e => "..., value -> ..."@,
        0x9f => "..., value1, value2 -> ..."@,
        0xa0 => "..., value1, value2 -> ..."@,
        0xa1 => "..., value1, value2 -> ..."@,
        0xa2 => "..., value1, value2 -> ..."@,
        0xa3 => "..., value1, value2 -> ..."@,
        0xa4 => "..., value1, value2 -> ..."@,
        0xa5 => "..., value1, value2 -> ..."@,
        0xa6 => "..., value1, value2 -> ..."@,
        0xa7 => "No change"@,
        0xa8 => "... -> ..., address"@,
        0xa9 => "No change"@,
        0xaa => "..., index -> ..."@,
        0xab => "..., key -> ..."@,
        0xac => "..., value -> [empty]"@,
        0xad => "..., value -> [empty]"@,
        0xae => "..., value -> [empty]"@,
        0xaf => "..., value -> [empty]"@,
        0xb0 => "..., objectref -> [empty]"@,
        0xb1 => "... -> [empty]"@,
        0xb2 => "... -> ..., value"@,
        0xb3 => "..., value -> ..."@,
        0xb4 => "..., objectref -> ..., value"@,
        0xb5 => "..., objectref, value -> ..."@,
        0xb6 => "..., objectref, [arg1, [arg2 ...]] -> ..."@,
        0xb7 => "..., objectref, [arg1, [arg2 ...]] -> ..."@,
        0xb8 => "..., [arg1, [arg2 ...]] -> ..."@,
        0xb9 => "..., objectref, [arg1, [arg2 ...]] -> ..."@,
        0xba => "..., [arg1, [arg2 ...]] -> ..."@,
        0xbb => "... -> ..., objectref"@,
        0xbc => "..., count -> ..., arrayref"@,
        0xbd => "..., count -> ..., arrayref"@,
        0xbe => "..., arrayref -> ..., length"@,
        0xbf => "..., objectref -> objectref"@,
        0xc0 => "..., objectref -> ..., objectref"@,
        0xc1 => "..., objectref -> ..., result"@,
        0xc2 => "..., objectref -> ..."@,
        0xc3 => "..., objectref -> ..."@,
        0xc4 => "Same as modified instruction"@,
        0xc5 => "..., count1, [count2, ...] -> ..., arrayref"@,
        0xc6 => "..., value -> ..."@,
        0xc7 => "..., value -> ..."@,
        0xc8 => "No change"@,
        0xc9 => "... -> ..., address"@,
        0xca => "No change"@,
        0xfe => "No change"@,
        0xff => "No change"@,
        _ => "Unknown bytecode"@,
    }
}

/// The instruction table: mnemonic, length for fixed-length opcodes (1 for
/// the variable-length ones), and stack effect. `None` for undefined opcodes.
pub fn instruction_info(op: u8) -> (r: Option<(&'static str, u32, &'static str)>)
    ensures
        r is Some <==> is_defined_opcode(op),
        r matches Some((name, len, stack)) ==> len == 1 + operand_width(op) && name@ == opcode_name(op)
            && stack@ == opcode_stack(op),
{
    match op {
        0x00 => Some(("nop", 1, "No change")),
        0x01 => Some(("aconst_null", 1, "... -> ..., null")),
        0x02 => Some(("iconst_m1", 1, "... -> ..., -1")),
        0x03 => Some(("iconst_0", 1, "... -> ..., 0")),
        0x04 => Some(("iconst_1", 1, "... -> ..., 1")),
        0x05 => Some(("iconst_2", 1, "... -> ..., 2")),
        0x06 => Some(("iconst_3", 1, "... -> ..., 3")),
        0x07 => Some(("iconst_4", 1, "... -> ..., 4")),
        0x08 => Some(("iconst_5", 1, "... -> ..., 5")),
        0x09 => Some(("lconst_0", 1, "... -> ..., 0L")),
        0x0a => Some(("lconst_1", 1, "... -> ..., 1L")),
        0x0b => Some(("fconst_0", 1, "... -> ..., 0.0f")),
        0x0c => Some(("fconst_1", 1, "... -> ..., 1.0f")),
        0x0d => Some(("fconst_2", 1, "... -> ..., 2.0f")),
        0x0e => Some(("dconst_0", 1, "... -> ..., 0.0d")),
        0x0f => Some(("dconst_1", 1, "... -> ..., 1.0d")),
        0x10 => Some(("bipush", 2, "... -> ..., value")),
        0x11 => Some(("sipush", 3, "... -> ..., value")),
        0x12 => Some(("ldc", 2, "... -> ..., value")),
        0x13 => Some(("ldc_w", 3, "... -> ..., value")),
        0x14 => Some(("ldc2_w", 3, "... -> ..., value")),
        0x15 => Some(("iload", 2, "... -> ..., value")),
        0x16 => Some(("lload", 2, "... -> ..., value")),
        0x17 => Some(("fload", 2, "... -> ..., value")),
        0x18 => Some(("dload", 2, "... -> ..., value")),
        0x19 => Some(("aload", 2, "... -> ..., objectref")),
        0x1a => Some(("iload_0", 1, "... -> ..., value")),
        0x1b => Some(("iload_1", 1, "... -> ..., value")),
        0x1c => Some(("iload_2", 1, "... -> ..., value")),
        0x1d => Some(("iload_3", 1, "... -> ..., value")),
        0x1e => Some(("lload_0", 1, "... -> ..., value")),
        0x1f => Some(("lload_1", 1, "... -> ..., value")),
        0x20 => Some(("lload_2", 1, "... -> ..., value")),
        0x21 => Some(("lload_3", 1, "... -> ..., value")),
        0x22 => Some(("fload_0", 1, "... -> ..., value")),
        0x23 => Some(("fload_1", 1, "... -> ..., value")),
        0x24 => Some(("fload_2", 1, "... -> ..., value")),
        0x25 => Some(("fload_3", 1, "... -> ..., value")),
        0x26 => Some(("dload_0", 1, "... -> ..., value")),
        0x27 => Some(("dload_1", 1, "... -> ..., value")),
        0x28 => Some(("dload_2", 1, "... -> ..., value")),
        0x29 => Some(("dload_3", 1, "... -> ..., value")),
        0x2a => Some(("aload_0", 1, "... -> ..., objectref")),
        0x2b => Some(("aload_1", 1, "... -> ..., objectref")),
        0x2c => Some(("aload_2", 1, "... -> ..., objectref")),
        0x2d => Some(("aload_3", 1, "... -> ..., objectref")),
        0x2e => Some(("iaload", 1, "..., arrayref, index -> ..., value")),
        0x2f => Some(("laload", 1, "..., arrayref, index -> ..., value")),
        0x30 => Some(("faload", 1, "..., arrayref, index -> ..., value")),
        0x31 => Some(("daload", 1, "..., arrayref, index -> ..., value")),
        0x32 => Some(("aaload", 1, "..., arrayref, index -> ..., value")),
        0x33 => Some(("baload", 1, "..., arrayref, index -> ..., value")),
        0x34 => Some(("caload", 1, "..., arrayref, index -> ..., value")),
        0x35 => Some(("saload", 1, "..., arrayref, index -> ..., value")),
        0x36 => Some(("istore", 2, "..., value -> ...")),
        0x37 => Some(("lstore", 2, "..., value -> ...")),
        0x38 => Some(("fstore", 2, "..., value -> ...")),
        0x39 => Some(("dstore", 2, "..., value -> ...")),
        0x3a => Some(("astore", 2, "..., objectref -> ...")),
        0x3b => Some(("istore_0", 1, "..., value -> ...")),
        0x3c => Some(("istore_1", 1, "..., value -> ...")),
        0x3d => Some(("istore_2", 1, "..., value -> ...")),
        0x3e => Some(("istore_3", 1, "..., value -> ...")),
        0x3f => Some(("lstore_0", 1, "..., value -> ...")),
        0x40 => Some(("lstore_1", 1, "..., value -> ...")),
        0x41 => Some(("lstore_2", 1, "..., value -> ...")),
        0x42 => Some(("lstore_3", 1, "..., value -> ...")),
        0x43 => Some(("fstore_0", 1, "..., value -> ...")),
        0x44 => Some(("fstore_1", 1, "..., value -> ...")),
        0x45 => Some(("fstore_2", 1, "..., value -> ...")),
        0x46 => Some(("fstore_3", 1, "..., value -> ...")),
        0x47 => Some(("dstore_0", 1, "..., value -> ...")),
        0x48 => Some(("dstore_1", 1, "..., value -> ...")),
        0x49 => Some(("dstore_2", 1, "..., value -> ...")),
        0x4a => Some(("dstore_3", 1, "..., value -> ...")),
        0x4b => Some(("astore_0", 1, "..., objectref -> ...")),
        0x4c => Some(("astore_1", 1, "..., objectref -> ...")),
        0x4d => Some(("astore_2", 1, "..., objectref -> ...")),
        0x4e => Some(("astore_3", 1, "..., objectref -> ...")),
        0x4f => Some(("iastore", 1, "..., arrayref, index, value -> ...")),
        0x50 => Some(("lastore", 1, "..., arrayref, index, value -> ...")),
        0x51 => Some(("fastore", 1, "..., arrayref, index, value -> ...")),
        0x52 => Some(("dastore", 1, "..., arrayref, index, value -> ...")),
        0x53 => Some(("aastore", 1, "..., arrayref, index, value -> ...")),
        0x54 => Some(("bastore", 1, "..., arrayref, index, value -> ...")),
        0x55 => Some(("castore", 1, "..., arrayref, index, value -> ...")),
        0x56 => Some(("sastore", 1, "..., arrayref, index, value -> ...")),
        0x57 => Some(("pop", 1, "..., value -> ...")),
        0x58 => Some(("pop2", 1, "..., value2, value1 -> ...")),
        0x59 => Some(("dup", 1, "..., value -> ..., value, value")),
        0x5a => Some(("dup_x1", 1, "..., value2, value1 -> ..., value1, value2, value1")),
        0x5b => Some(("dup_x2", 1, "..., value3, value2, value1 -> ..., value1, value3, value2, value1")),
        0x5c => Some(("dup2", 1, "..., {value2, value1} -> ..., {value2, value1}, {value2, value1}")),
        0x5d => Some(("dup2_x1", 1, "..., value3, {value2, value1} -> ..., {value2, value1}, value3, {value2, value1}")),
        0x5e => Some(("dup2_x2", 1, "..., {value4, value3}, {value2, value1} -> ..., {value2, value1}, {value4, value3}, {value2, value1}")),
        0x5f => Some(("swap", 1, "..., value2, value1 -> ..., value1, value2")),
        0x60 => Some(("iadd", 1, "..., value1, value2 -> ..., result")),
        0x61 => Some(("ladd", 1, "..., value1, value2 -> ..., result")),
        0x62 => Some(("fadd", 1, "..., value1, value2 -> ..., result")),
        0x63 => Some(("dadd", 1, "..., value1, value2 -> ..., result")),
        0x64 => Some(("isub", 1, "..., value1, value2 -> ..., result")),
        0x65 => Some(("lsub", 1, "..., value1, value2 -> ..., result")),
        0x66 => Some(("fsub", 1, "..., value1, value2 -> ..., result")),
        0x67 => Some(("dsub", 1, "..., value1, value2 -> ..., result")),
        0x68 => Some(("imul", 1, "..., value1, value2 -> ..., result")),
        0x69 => Some(("lmul", 1, "..., value1, value2 -> ..., result")),
        0x6a => Some(("fmul", 1, "..., value1, value2 -> ..., result")),
        0x6b => Some(("dmul", 1, "..., value1, value2 -> ..., result")),
        0x6c => Some(("idiv", 1, "..., value1, value2 -> ..., result")),
        0x6d => Some(("ldiv", 1, "..., value1, value2 -> ..., result")),
        0x6e => Some(("fdiv", 1, "..., value1, value2 -> ..., result")),
        0x6f => Some(("ddiv", 1, "..., value1, value2 -> ..., result")),
        0x70 => Some(("irem", 1, "..., value1, value2 -> ..., result")),
        0x71 => Some(("lrem", 1, "..., value1, value2 -> ..., result")),
        0x72 => Some(("frem", 1, "..., value1, value2 -> ..., result")),
        0x73 => Some(("drem", 1, "..., value1, value2 -> ..., result")),
        0x74 => Some(("ineg", 1, "..., value -> ..., result")),
        0x75 => Some(("lneg", 1, "..., value -> ..., result")),
        0x76 => Some(("fneg", 1, "..., value -> ..., result")),
        0x77 => Some(("dneg", 1, "..., value -> ..., result")),
        0x78 => Some(("ishl", 1, "..., value1, value2 -> ..., result")),
        0x79 => Some(("lshl", 1, "..., value1, value2 -> ..., result")),
        0x7a => Some(("ishr", 1, "..., value1, value2 -> ..., result")),
        0x7b => Some(("lshr", 1, "..., value1, value2 -> ..., result")),
        0x7c => Some(("iushr", 1, "..., value1, value2 -> ..., result")),
        0x7d => Some(("lushr", 1, "..., value1, value2 -> ..., result")),
        0x7e => Some(("iand", 1, "..., value1, value2 -> ..., result")),
        0x7f => Some(("land", 1, "..., value1, value2 -> ..., result")),
        0x80 => Some(("ior", 1, "..., value1, value2 -> ..., result")),
        0x81 => Some(("lor", 1, "..., value1, value2 -> ..., result")),
        0x82 => Some(("ixor", 1, "..., value1, value2 -> ..., result")),
        0x83 => Some(("lxor", 1, "..., value1, value2 -> ..., result")),
        0x84 => Some(("iinc", 3, "No change")),
        0x85 => Some(("i2l", 1, "..., value -> ..., result")),
        0x86 => Some(("i2f", 1, "..., value -> ..., result")),
        0x87 => Some(("i2d", 1, "..., value -> ..., result")),
        0x88 => Some(("l2i", 1, "..., value -> ..., result")),
        0x89 => Some(("l2f", 1, "..., value -> ..., result")),
        0x8a => Some(("l2d", 1, "..., value -> ..., result")),
        0x8b => Some(("f2i", 1, "..., value -> ..., result")),
        0x8c => Some(("f2l", 1, "..., value -> ..., result")),
        0x8d => Some(("f2d", 1, "..., value -> ..., result")),
        0x8e => Some(("d2i", 1, "..., value -> ..., result")),
        0x8f => Some(("d2l", 1, "..., value -> ..., result")),
        0x90 => Some(("d2f", 1, "..., value -> ..., result")),
        0x91 => Some(("i2b", 1, "..., value -> ..., result")),
        0x92 => Some(("i2c", 1, "..., value -> ..., result")),
        0x93 => Some(("i2s", 1, "..., value -> ..., result")),
        0x94 => Some(("lcmp", 1, "..., value1, value2 -> ..., result")),
        0x95 => Some(("fcmpl", 1, "..., value1, value2 -> ..., result")),
        0x96 => Some(("fcmpg", 1, "..., value1, value2 -> ..., result")),
        0x97 => Some(("dcmpl", 1, "..., value1, value2 -> ..., result")),
        0x98 => Some(("dcmpg", 1, "..., value1, value2 -> ..., result")),
        0x99 => Some(("ifeq", 3, "..., value -> ...")),
        0x9a => Some(("ifne", 3, "..., value -> ...")),
        0x9b => Some(("iflt", 3, "..., value -> ...")),
        0x9c => Some(("ifge", 3, "..., value -> ...")),
        0x9d => Some(("ifgt", 3, "..., value -> ...")),
        0x9e => Some(("ifle", 3, "..., value -> ...")),
        0x9f => Some(("if_icmpeq", 3, "..., value1, value2 -> ...")),
        0xa0 => Some(("if_icmpne", 3, "..., value1, value2 -> ...")),
        0xa1 => Some(("if_icmplt", 3, "..., value1, value2 -> ...")),
        0xa2 => Some(("if_icmpge", 3, "..., value1, value2 -> ...")),
        0xa3 => Some(("if_icmpgt", 3, "..., value1, value2 -> ...")),
        0xa4 => Some(("if_icmple", 3, "..., value1, value2 -> ...")),
        0xa5 => Some(("if_acmpeq", 3, "..., value1, value2 -> ...")),
        0xa6 => Some(("if_acmpne", 3, "..., value1, value2 -> ...")),
        0xa7 => Some(("goto", 3, "No change")),
        0xa8 => Some(("jsr", 3, "... -> ..., address")),
        0xa9 => Some(("ret", 2, "No change")),
        0xaa => Some(("tableswitch", 1, "..., index -> ...")),
        0xab => Some(("lookupswitch", 1, "..., key -> ...")),
        0xac => Some(("ireturn", 1, "..., value -> [empty]")),
        0xad => Some(("lreturn", 1, "..., value -> [empty]")),
        0xae => Some(("freturn", 1, "..., value -> [empty]")),
        0xaf => Some(("dreturn", 1, "..., value -> [empty]")),
        0xb0 => Some(("areturn", 1, "..., objectref -> [empty]")),
        0xb1 => Some(("return", 1, "... -> [empty]")),
        0xb2 => Some(("getstatic", 3, "... -> ..., value")),
        0xb3 => Some(("putstatic", 3, "..., value -> ...")),
        0xb4 => Some(("getfield", 3, "..., objectref -> ..., value")),
        0xb5 => Some(("putfield", 3, "..., objectref, value -> ...")),
        0xb6 => Some(("invokevirtual", 3, "..., objectref, [arg1, [arg2 ...]] -> ...")),
        0xb7 => Some(("invokespecial", 3, "..., objectref, [arg1, [arg2 ...]] -> ...")),
        0xb8 => Some(("invokestatic", 3, "..., [arg1, [arg2 ...]] -> ...")),
        0xb9 => Some(("invokeinterface", 5, "..., objectref, [arg1, [arg2 ...]] -> ...")),
        0xba => Some(("invokedynamic", 5, "..., [arg1, [arg2 ...]] -> ...")),
        0xbb => Some(("new", 3, "... -> ..., objectref")),
        0xbc => Some(("newarray", 2, "..., count -> ..., arrayref")),
        0xbd => Some(("anewarray", 3, "..., count -> ..., arrayref")),
        0xbe => Some(("arraylength", 1, "..., arrayref -> ..., length")),
        0xbf => Some(("athrow", 1, "..., objectref -> objectref")),
        0xc0 => Some(("checkcast", 3, "..., objectref -> ..., objectref")),
        0xc1 => Some(("instanceof", 3, "..., objectref -> ..., result")),
        0xc2 => Some(("monitorenter", 1, "..., objectref -> ...")),
        0xc3 => Some(("monitorexit", 1, "..., objectref -> ...")),
        0xc4 => Some(("wide", 1, "Same as modified instruction")),
        0xc5 => Some(("multianewarray", 4, "..., count1, [count2, ...] -> ..., arrayref")),
        0xc6 => Some(("ifnull", 3, "..., value -> ...")),
        0xc7 => Some(("ifnonnull", 3, "..., value -> ...")),
        0xc8 => Some(("goto_w", 5, "No change")),
        0xc9 => Some(("jsr_w", 5, "... -> ..., address")),
        0xca => Some(("breakpoint", 1, "No change")),
        0xfe => Some(("impdep1", 1, "No change")),
        0xff => Some(("impdep2", 1, "No change")),
        _ => None,
    }
}

/// Decodes the instruction at offset `at` of a code array.
pub fn decode_instruction(code: &[u8], at: usize) -> (r: Result<(CodeByte, usize), DecodeError>)
    requires
        at < code@.len() <= u32::MAX,
    ensures
        r is Ok <==> instruction_fits(code@, at as int),
        r matches Ok((ins, end)) ==> {
            &&& end == at + 1 + operand_length(code@, at as int)
            &&& code@.subrange(at as int, end as int) == ins.wire()
            &&& ins.length == end - at
            &&& ins.length == 1 + ins.data@.len()
            &&& ins.opcode == code@[at as int]
            &&& ins.name@ == opcode_name(ins.opcode)
            &&& ins.stack_behavior@ == opcode_stack(ins.opcode)
        },
        r matches Ok((_, end)) ==> instruction_outcome(code@, at as int) == Ok::<int, DecodeError>(end as int),
        r matches Err(e) ==> instruction_outcome(code@, at as int) == Err::<int, DecodeError>(e),
        r is Err ==> r == Err::<(CodeByte, usize), DecodeError>(DecodeError::InsufficientBytes)
            || r == Err::<(CodeByte, usize), DecodeError>(DecodeError::InvalidSwitchBounds),
{
    let op = code[at];
    let (name, fixed, stack_behavior) = match instruction_info(op) {
        Some(info) => info,
        None => {
            proof {
                reveal_strlit("Unknown");
                reveal_strlit("Unknown bytecode");
            }
            ("Unknown", 1u32, "Unknown bytecode")
        },
    };
    let rest: u64 = (code.len() - (at + 1)) as u64;
    let operands: u64 = if op == TABLESWITCH || op == LOOKUPSWITCH {
        let pad: usize = (4 - (at + 1) % 4) % 4;
        if pad > code.len() - (at + 1) {
            return Err(DecodeError::InsufficientBytes);
        }
        let base: usize = at + 1 + pad;
        if op == TABLESWITCH {
            let (_default, p1) = read_u32(code, base)?;
            let (low_bits, p2) = read_u32(code, p1)?;
            let (high_bits, _p3) = read_u32(code, p2)?;
            let low = signed_of(low_bits);
            let high = signed_of(high_bits);
            if high < low {
                return Err(DecodeError::InvalidSwitchBounds);
            }
            pad as u64 + 12 + 4 * ((high - low + 1) as u64)
        } else {
            let (_default, p1) = read_u32(code, base)?;
            let (npairs_bits, _p2) = read_u32(code, p1)?;
            let npairs = signed_of(npairs_bits);
            if npairs < 0 {
                return Err(DecodeError::InvalidSwitchBounds);
            }
            pad as u64 + 8 + 8 * (npairs as u64)
        }
    } else if op == WIDE {
        let (modified, _p) = read_u8(code, at + 1)?;
        if modified == IINC {
            5
        } else {
            3
        }
    } else {
        (fixed - 1) as u64
    };
    if operands > rest {
        return Err(DecodeError::InsufficientBytes);
    }
    let (data, end) = read_bytes(code, at + 1, operands as usize)?;
    proof {
        assert(code@.subrange(at as int, end as int) =~= seq![op] + data@);
    }
    let ins = CodeByte { name, opcode: op, length: (operands + 1) as u32, stack_behavior, data };
    Ok((ins, end))
}

/// Two's-complement reading of a 32-bit word, widened.
fn signed_of(v: u32) -> (r: i64)
    ensures
        r == as_signed(v),
{
    if v < 0x8000_0000 {
        v as i64
    } else {
        v as i64 - 0x1_0000_0000
    }
}

/// Decodes a whole code array into instructions. It succeeds exactly when
/// the instructions cover the array with nothing left over, and then the
/// instructions laid end to end give back the array.
pub fn decode_code(code: &[u8]) -> (r: Result<Vec<CodeByte>, DecodeError>)
    requires
        code@.len() <= u32::MAX,
    ensures
        r is Ok <==> tiles_from(code@, 0),
        r matches Ok(v) ==> wire_seq(v@) == code@ && forall|i: int|
            0 <= i < v@.len() ==> #[trigger] v@[i].length == 1 + v@[i].data@.len(),
        r matches Ok(v) ==> forall|i: int|
            0 <= i < v@.len() ==> {
                &&& #[trigger] v@[i].opcode == code@[start_of(v@, i)]
                &&& v@[i].length == 1 + operand_length(code@, start_of(v@, i))
                &&& v@[i].name@ == opcode_name(v@[i].opcode)
                &&& v@[i].stack_behavior@ == opcode_stack(v@[i].opcode)
            },
        r matches Err(e) ==> stream_outcome(code@, 0) == Err::<int, DecodeError>(e),
        r is Ok ==> stream_outcome(code@, 0) == Ok::<int, DecodeError>(code@.len() as int),
        r is Err ==> r == Err::<Vec<CodeByte>, DecodeError>(DecodeError::InsufficientBytes)
            || r == Err::<Vec<CodeByte>, DecodeError>(DecodeError::InvalidSwitchBounds),
{
    let mut out: Vec<CodeByte> = Vec::new();
    let mut at: usize = 0;
    while at < code.len()
        invariant
            at <= code@.len() <= u32::MAX,
            code@.len() == code.len(),
            code@.subrange(0, at as int) == wire_seq(out@),
            tiles_from(code@, 0) <==> tiles_from(code@, at as int),
            forall|i: int| 0 <= i < out@.len() ==> #[trigger] out@[i].length == 1 + out@[i].data@.len(),
            forall|i: int|
                0 <= i < out@.len() ==> {
                    &&& #[trigger] out@[i].opcode == code@[start_of(out@, i)]
                    &&& out@[i].length == 1 + operand_length(code@, start_of(out@, i))
                    &&& out@[i].name@ == opcode_name(out@[i].opcode)
                    &&& out@[i].stack_behavior@ == opcode_stack(out@[i].opcode)
                },
            stream_outcome(code@, 0) == stream_outcome(code@, at as int),
        decreases code@.len() - at,
    {
        let (ins, end) = decode_instruction(code, at)?;
        proof {
            assert(out@.push(ins).take(out@.len() as int) =~= out@);
            assert(wire_seq(out@).len() == at);
            assert forall|i: int| 0 <= i < out@.len() implies start_of(out@.push(ins), i) == start_of(out@, i) by {
                assert(out@.push(ins).take(i) =~= out@.take(i));
            }
            assert(code@.subrange(0, end as int) =~= code@.subrange(0, at as int) + code@.subrange(at as int, end as int));
            lemma_wire_seq_push(out@, ins);
        }
        out.push(ins);
        at = end;
    }
    proof {
        assert(code@.subrange(0, at as int) =~= code@);
    }
    Ok(out)
}

} // verus!

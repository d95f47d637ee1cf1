//! Fixed-shape records that attribute tables are made of.

use vstd::prelude::*;
use crate::bytes::{Wire, Decode, need, clamp, lemma_cut_need, follows, u16_at_spec, be16, wire_seq, decoded_from, lemma_extend, read_u16, read_u16_list};
use crate::error::DecodeError;

verus! {

#[derive(Debug)]
pub struct ExceptionTableEntry {
    pub start_pc: u16,
    pub end_pc: u16,
    pub handler_pc: u16,
    pub catch_type: u16,
}

impl Wire for ExceptionTableEntry {
    open spec fn wire(&self) -> Seq<u8> {
        be16(self.start_pc) + be16(self.end_pc) + be16(self.handler_pc) + be16(self.catch_type)
    }
}

impl Decode for ExceptionTableEntry {
    open spec fn valid(&self) -> bool {
        true
    }

    open spec fn outcome(s: Seq<u8>, pos: int) -> Result<int, DecodeError> {
        need(s, pos, 8)
    }

    proof fn lemma_cut(s: Seq<u8>, pos: int, k: int) {
        lemma_cut_need(s, pos, 8, k);
    }

    fn decode(s: &[u8], pos: usize) -> (r: Result<(ExceptionTableEntry, usize), DecodeError>) {
        let (start_pc, p1) = read_u16(s, pos)?;
        let (end_pc, p2) = read_u16(s, p1)?;
        let (handler_pc, p3) = read_u16(s, p2)?;
        let (catch_type, p4) = read_u16(s, p3)?;
        proof {
            lemma_extend(s@, pos as int, p1 as int, p2 as int);
            lemma_extend(s@, pos as int, p2 as int, p3 as int);
            lemma_extend(s@, pos as int, p3 as int, p4 as int);
        }
        Ok((ExceptionTableEntry { start_pc, end_pc, handler_pc, catch_type }, p4))
    }
}

#[derive(Debug)]
pub struct LineNumberTableEntry {
    pub start_pc: u16,
    pub line_number: u16,
}

impl Wire for LineNumberTableEntry {
    open spec fn wire(&self) -> Seq<u8> {
        be16(self.start_pc) + be16(self.line_number)
    }
}

impl Decode for LineNumberTableEntry {
    open spec fn valid(&self) -> bool {
        true
    }

    open spec fn outcome(s: Seq<u8>, pos: int) -> Result<int, DecodeError> {
        need(s, pos, 4)
    }

    proof fn lemma_cut(s: Seq<u8>, pos: int, k: int) {
        lemma_cut_need(s, pos, 4, k);
    }

    fn decode(s: &[u8], pos: usize) -> (r: Result<(LineNumberTableEntry, usize), DecodeError>) {
        LineNumberTableEntry::parse(s, pos)
    }
}

#[derive(Debug)]
pub struct LocalVariableTableEntry {
    pub start_pc: u16,
    pub length: u16,
    pub name_index: u16,
    pub descriptor_index: u16,
    pub index: u16,
}

impl Wire for LocalVariableTableEntry {
    open spec fn wire(&self) -> Seq<u8> {
        be16(self.start_pc) + be16(self.length) + be16(self.name_index) + be16(self.descriptor_index) + be16(self.index)
    }
}

impl Decode for LocalVariableTableEntry {
    open spec fn valid(&self) -> bool {
        true
    }

    open spec fn outcome(s: Seq<u8>, pos: int) -> Result<int, DecodeError> {
        need(s, pos, 10)
    }

    proof fn lemma_cut(s: Seq<u8>, pos: int, k: int) {
        lemma_cut_need(s, pos, 10, k);
    }

    fn decode(s: &[u8], pos: usize) -> (r: Result<(LocalVariableTableEntry, usize), DecodeError>) {
        let (start_pc, p1) = read_u16(s, pos)?;
        let (length, p2) = read_u16(s, p1)?;
        let (name_index, p3) = read_u16(s, p2)?;
        let (descriptor_index, p4) = read_u16(s, p3)?;
        let (index, p5) = read_u16(s, p4)?;
        proof {
            lemma_extend(s@, pos as int, p1 as int, p2 as int);
            lemma_extend(s@, pos as int, p2 as int, p3 as int);
            lemma_extend(s@, pos as int, p3 as int, p4 as int);
            lemma_extend(s@, pos as int, p4 as int, p5 as int);
        }
        Ok((LocalVariableTableEntry { start_pc, length, name_index, descriptor_index, index }, p5))
    }
}

#[derive(Debug)]
pub struct LocalVariableTypeTableEntry {
    pub start_pc: u16,
    pub length: u16,
    pub name_index: u16,
    pub signature_index: u16,
    pub index: u16,
}

impl Wire for LocalVariableTypeTableEntry {
    open spec fn wire(&self) -> Seq<u8> {
        be16(self.start_pc) + be16(self.length) + be16(self.name_index) + be16(self.signature_index) + be16(self.index)
    }
}

impl Decode for LocalVariableTypeTableEntry {
    open spec fn valid(&self) -> bool {
        true
    }

    open spec fn outcome(s: Seq<u8>, pos: int) -> Result<int, DecodeError> {
        need(s, pos, 10)
    }

    proof fn lemma_cut(s: Seq<u8>, pos: int, k: int) {
        lemma_cut_need(s, pos, 10, k);
    }

    fn decode(s: &[u8], pos: usize) -> (r: Result<(LocalVariableTypeTableEntry, usize), DecodeError>) {
        let (start_pc, p1) = read_u16(s, pos)?;
        let (length, p2) = read_u16(s, p1)?;
        let (name_index, p3) = read_u16(s, p2)?;
        let (signature_index, p4) = read_u16(s, p3)?;
        let (index, p5) = read_u16(s, p4)?;
        proof {
            lemma_extend(s@, pos as int, p1 as int, p2 as int);
            lemma_extend(s@, pos as int, p2 as int, p3 as int);
            lemma_extend(s@, pos as int, p3 as int, p4 as int);
            lemma_extend(s@, pos as int, p4 as int, p5 as int);
        }
        Ok((LocalVariableTypeTableEntry { start_pc, length, name_index, signature_index, index }, p5))
    }
}

#[derive(Debug)]
pub struct ClassesInfo {
    pub inner_class_info_index: u16,
    pub outer_class_info_index: u16,
    pub inner_name_index: u16,
    pub inner_class_access_flags: u16,
}

impl Wire for ClassesInfo {
    open spec fn wire(&self) -> Seq<u8> {
        be16(self.inner_class_info_index) + be16(self.outer_class_info_index) + be16(self.inner_name_index) + be16(self.inner_class_access_flags)
    }
}

impl Decode for ClassesInfo {
    open spec fn valid(&self) -> bool {
        true
    }

    open spec fn outcome(s: Seq<u8>, pos: int) -> Result<int, DecodeError> {
        need(s, pos, 8)
    }

    proof fn lemma_cut(s: Seq<u8>, pos: int, k: int) {
        lemma_cut_need(s, pos, 8, k);
    }

    fn decode(s: &[u8], pos: usize) -> (r: Result<(ClassesInfo, usize), DecodeError>) {
        let (inner_class_info_index, p1) = read_u16(s, pos)?;
        let (outer_class_info_index, p2) = read_u16(s, p1)?;
        let (inner_name_index, p3) = read_u16(s, p2)?;
        let (inner_class_access_flags, p4) = read_u16(s, p3)?;
        proof {
            lemma_extend(s@, pos as int, p1 as int, p2 as int);
            lemma_extend(s@, pos as int, p2 as int, p3 as int);
            lemma_extend(s@, pos as int, p3 as int, p4 as int);
        }
        Ok((ClassesInfo { inner_class_info_index, outer_class_info_index, inner_name_index, inner_class_access_flags }, p4))
    }
}

#[derive(Debug)]
pub struct MethodParameter {
    pub name_index: u16,
    pub access_flags: u16,
}

impl Wire for MethodParameter {
    open spec fn wire(&self) -> Seq<u8> {
        be16(self.name_index) + be16(self.access_flags)
    }
}

impl Decode for MethodParameter {
    open spec fn valid(&self) -> bool {
        true
    }

    open spec fn outcome(s: Seq<u8>, pos: int) -> Result<int, DecodeError> {
        need(s, pos, 4)
    }

    proof fn lemma_cut(s: Seq<u8>, pos: int, k: int) {
        lemma_cut_need(s, pos, 4, k);
    }

    fn decode(s: &[u8], pos: usize) -> (r: Result<(MethodParameter, usize), DecodeError>) {
        let (name_index, p1) = read_u16(s, pos)?;
        let (access_flags, p2) = read_u16(s, p1)?;
        proof {
            lemma_extend(s@, pos as int, p1 as int, p2 as int);
        }
        Ok((MethodParameter { name_index, access_flags }, p2))
    }
}

#[derive(Debug)]
pub struct ModuleRequires {
    pub requires_index: u16,
    pub requires_flags: u16,
    pub requires_version_index: u16,
}

impl Wire for ModuleRequires {
    open spec fn wire(&self) -> Seq<u8> {
        be16(self.requires_index) + be16(self.requires_flags) + be16(self.requires_version_index)
    }
}

impl Decode for ModuleRequires {
    open spec fn valid(&self) -> bool {
        true
    }

    open spec fn outcome(s: Seq<u8>, pos: int) -> Result<int, DecodeError> {
        need(s, pos, 6)
    }

    proof fn lemma_cut(s: Seq<u8>, pos: int, k: int) {
        lemma_cut_need(s, pos, 6, k);
    }

    fn decode(s: &[u8], pos: usize) -> (r: Result<(ModuleRequires, usize), DecodeError>) {
        let (requires_index, p1) = read_u16(s, pos)?;
        let (requires_flags, p2) = read_u16(s, p1)?;
        let (requires_version_index, p3) = read_u16(s, p2)?;
        proof {
            lemma_extend(s@, pos as int, p1 as int, p2 as int);
            lemma_extend(s@, pos as int, p2 as int, p3 as int);
        }
        Ok((ModuleRequires { requires_index, requires_flags, requires_version_index }, p3))
    }
}
impl LineNumberTableEntry {
    /// Decodes a start pc and a line number.
    pub fn parse(s: &[u8], pos: usize) -> (r: Result<(LineNumberTableEntry, usize), DecodeError>)
        requires
            pos <= s@.len(),
        ensures
            decoded_from(s@, pos as int, r),
            r is Err <==> pos + 4 > s@.len(),
            follows(r, need(s@, pos as int, 4)),
    {
        let (start_pc, p1) = read_u16(s, pos)?;
        let (line_number, p2) = read_u16(s, p1)?;
        proof {
            lemma_extend(s@, pos as int, p1 as int, p2 as int);
        }
        Ok((LineNumberTableEntry { start_pc, line_number }, p2))
    }
}

#[derive(Debug)]
pub struct BootstrapMethod {
    pub bootstrap_method_attr_index: u16,
    pub num_bootstrap_arguments: u16,
    pub bootstrap_arguments: Vec<u16>,
}

impl Wire for BootstrapMethod {
    open spec fn wire(&self) -> Seq<u8> {
        be16(self.bootstrap_method_attr_index) + be16(self.num_bootstrap_arguments) + wire_seq(
            self.bootstrap_arguments@,
        )
    }
}

impl Decode for BootstrapMethod {
    open spec fn valid(&self) -> bool {
        self.num_bootstrap_arguments == self.bootstrap_arguments@.len()
    }

    open spec fn outcome(s: Seq<u8>, pos: int) -> Result<int, DecodeError> {
        match need(s, pos, 4) {
            Ok(p) => need(s, p, 2 * u16_at_spec(s, pos + 2) as int),
            Err(e) => Err(e),
        }
    }

    proof fn lemma_cut(s: Seq<u8>, pos: int, k: int) {
        lemma_cut_need(s, pos, 4, k);
        if pos + 4 <= s.len() {
            lemma_cut_need(s, pos + 4, 2 * u16_at_spec(s, pos + 2) as int, clamp(pos + 4, k));
        }
    }

    fn decode(s: &[u8], pos: usize) -> (r: Result<(BootstrapMethod, usize), DecodeError>) {
        let (bootstrap_method_attr_index, p1) = read_u16(s, pos)?;
        let (num_bootstrap_arguments, p2) = read_u16(s, p1)?;
        let (bootstrap_arguments, p3) = read_u16_list(s, p2, num_bootstrap_arguments as usize)?;
        proof {
            lemma_extend(s@, pos as int, p1 as int, p2 as int);
            lemma_extend(s@, pos as int, p2 as int, p3 as int);
        }
        let x = BootstrapMethod { bootstrap_method_attr_index, num_bootstrap_arguments, bootstrap_arguments };
        Ok((x, p3))
    }
}

#[derive(Debug)]
pub struct ModuleExports {
    pub exports_index: u16,
    pub exports_flags: u16,
    pub exports_to_count: u16,
    pub exports_to: Vec<u16>,
}

impl Wire for ModuleExports {
    open spec fn wire(&self) -> Seq<u8> {
        be16(self.exports_index) + be16(self.exports_flags) + be16(self.exports_to_count) + wire_seq(
            self.exports_to@,
        )
    }
}

impl Decode for ModuleExports {
    open spec fn valid(&self) -> bool {
        self.exports_to_count == self.exports_to@.len()
    }

    open spec fn outcome(s: Seq<u8>, pos: int) -> Result<int, DecodeError> {
        match need(s, pos, 6) {
            Ok(p) => need(s, p, 2 * u16_at_spec(s, pos + 4) as int),
            Err(e) => Err(e),
        }
    }

    proof fn lemma_cut(s: Seq<u8>, pos: int, k: int) {
        lemma_cut_need(s, pos, 6, k);
        if pos + 6 <= s.len() {
            lemma_cut_need(s, pos + 6, 2 * u16_at_spec(s, pos + 4) as int, clamp(pos + 6, k));
        }
    }

    fn decode(s: &[u8], pos: usize) -> (r: Result<(ModuleExports, usize), DecodeError>) {
        let (exports_index, p1) = read_u16(s, pos)?;
        let (exports_flags, p2) = read_u16(s, p1)?;
        let (exports_to_count, p3) = read_u16(s, p2)?;
        let (exports_to, p4) = read_u16_list(s, p3, exports_to_count as usize)?;
        proof {
            lemma_extend(s@, pos as int, p1 as int, p2 as int);
            lemma_extend(s@, pos as int, p2 as int, p3 as int);
            lemma_extend(s@, pos as int, p3 as int, p4 as int);
        }
        Ok((ModuleExports { exports_index, exports_flags, exports_to_count, exports_to }, p4))
    }
}

#[derive(Debug)]
pub struct ModuleOpens {
    pub opens_index: u16,
    pub opens_flags: u16,
    pub opens_to_count: u16,
    pub opens_to: Vec<u16>,
}

impl Wire for ModuleOpens {
    open spec fn wire(&self) -> Seq<u8> {
        be16(self.opens_index) + be16(self.opens_flags) + be16(self.opens_to_count) + wire_seq(
            self.opens_to@,
        )
    }
}

impl Decode for ModuleOpens {
    open spec fn valid(&self) -> bool {
        self.opens_to_count == self.opens_to@.len()
    }

    open spec fn outcome(s: Seq<u8>, pos: int) -> Result<int, DecodeError> {
        match need(s, pos, 6) {
            Ok(p) => need(s, p, 2 * u16_at_spec(s, pos + 4) as int),
            Err(e) => Err(e),
        }
    }

    proof fn lemma_cut(s: Seq<u8>, pos: int, k: int) {
        lemma_cut_need(s, pos, 6, k);
        if pos + 6 <= s.len() {
            lemma_cut_need(s, pos + 6, 2 * u16_at_spec(s, pos + 4) as int, clamp(pos + 6, k));
        }
    }

    fn decode(s: &[u8], pos: usize) -> (r: Result<(ModuleOpens, usize), DecodeError>) {
        let (opens_index, p1) = read_u16(s, pos)?;
        let (opens_flags, p2) = read_u16(s, p1)?;
        let (opens_to_count, p3) = read_u16(s, p2)?;
        let (opens_to, p4) = read_u16_list(s, p3, opens_to_count as usize)?;
        proof {
            lemma_extend(s@, pos as int, p1 as int, p2 as int);
            lemma_extend(s@, pos as int, p2 as int, p3 as int);
            lemma_extend(s@, pos as int, p3 as int, p4 as int);
        }
        Ok((ModuleOpens { opens_index, opens_flags, opens_to_count, opens_to }, p4))
    }
}

#[derive(Debug)]
pub struct ModuleProvides {
    pub provides_index: u16,
    pub provides_with_count: u16,
    pub provides_with: Vec<u16>,
}

impl Wire for ModuleProvides {
    open spec fn wire(&self) -> Seq<u8> {
        be16(self.provides_index) + be16(self.provides_with_count) + wire_seq(self.provides_with@)
    }
}

impl Decode for ModuleProvides {
    open spec fn valid(&self) -> bool {
        self.provides_with_count == self.provides_with@.len()
    }

    open spec fn outcome(s: Seq<u8>, pos: int) -> Result<int, DecodeError> {
        match need(s, pos, 4) {
            Ok(p) => need(s, p, 2 * u16_at_spec(s, pos + 2) as int),
            Err(e) => Err(e),
        }
    }

    proof fn lemma_cut(s: Seq<u8>, pos: int, k: int) {
        lemma_cut_need(s, pos, 4, k);
        if pos + 4 <= s.len() {
            lemma_cut_need(s, pos + 4, 2 * u16_at_spec(s, pos + 2) as int, clamp(pos + 4, k));
        }
    }

    fn decode(s: &[u8], pos: usize) -> (r: Result<(ModuleProvides, usize), DecodeError>) {
        let (provides_index, p1) = read_u16(s, pos)?;
        let (provides_with_count, p2) = read_u16(s, p1)?;
        let (provides_with, p3) = read_u16_list(s, p2, provides_with_count as usize)?;
        proof {
            lemma_extend(s@, pos as int, p1 as int, p2 as int);
            lemma_extend(s@, pos as int, p2 as int, p3 as int);
        }
        Ok((ModuleProvides { provides_index, provides_with_count, provides_with }, p3))
    }
}

} // verus!

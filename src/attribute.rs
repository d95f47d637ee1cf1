//! Attribute records: each body starts with its declared length.

use vstd::prelude::*;
use crate::annotation::{Annotation, ElementValue, TypeAnnotation, ParameterAnnotation, element_value_wire, element_value_wf, element_value_outcome};
use crate::bytes::{Wire, Decode, need, clamp, stable_under_cut, lemma_cut_need, lemma_cut_list, follows, list_outcome, u16_at_spec, all_valid, decode_list, be16, be32, u32_at_spec, wire_seq, decoded_from, lemma_extend, read_u8, read_u16, read_u32, read_bytes};
use crate::error::{DecodeError, no_trailing};
use crate::records::{ClassesInfo, BootstrapMethod, LineNumberTableEntry, LocalVariableTableEntry, LocalVariableTypeTableEntry, MethodParameter, ModuleRequires, ModuleExports, ModuleOpens, ModuleProvides};
use crate::stack_map::StackMapFrame;

verus! {

/// An attribute kept as raw bytes.
#[derive(Debug)]
pub struct Attribute {
    pub attribute_name_index: u16,
    pub attribute_length: u32,
    pub info: Vec<u8>,
}

impl Wire for Attribute {
    open spec fn wire(&self) -> Seq<u8> {
        be16(self.attribute_name_index) + be32(self.attribute_length) + self.info@
    }
}

/// Outcome of a 16-bit count at `p` and that many layouts of `T`.
pub open spec fn counted_outcome<T: Decode>(s: Seq<u8>, p: int) -> Result<int, DecodeError> {
    match need(s, p, 2) {
        Ok(q) => list_outcome::<T>(s, q, u16_at_spec(s, p) as nat),
        Err(e) => Err(e),
    }
}

/// Outcome of a declared length, a 16-bit count and that many layouts.
pub open spec fn body_outcome<T: Decode>(s: Seq<u8>, pos: int) -> Result<int, DecodeError> {
    match need(s, pos, 4) {
        Ok(p) => counted_outcome::<T>(s, p),
        Err(e) => Err(e),
    }
}

/// Outcome of a declared length, an 8-bit count and that many layouts.
pub open spec fn body8_outcome<T: Decode>(s: Seq<u8>, pos: int) -> Result<int, DecodeError> {
    match need(s, pos, 5) {
        Ok(p) => list_outcome::<T>(s, p, s[pos + 4] as nat),
        Err(e) => Err(e),
    }
}

/// Outcome of an attribute body that must be empty.
pub open spec fn empty_body_outcome(s: Seq<u8>, pos: int) -> Result<int, DecodeError> {
    match need(s, pos, 4) {
        Ok(p) => if u32_at_spec(s, pos) != 0 {
            Err(DecodeError::InvalidAttributeLength)
        } else {
            Ok(p)
        },
        Err(e) => Err(e),
    }
}

/// Outcome of a Module attribute body.
pub open spec fn module_outcome(s: Seq<u8>, pos: int) -> Result<int, DecodeError> {
    match need(s, pos, 10) {
        Err(e) => Err(e),
        Ok(p1) => match counted_outcome::<ModuleRequires>(s, p1) {
            Err(e) => Err(e),
            Ok(p2) => match counted_outcome::<ModuleExports>(s, p2) {
                Err(e) => Err(e),
                Ok(p3) => match counted_outcome::<ModuleOpens>(s, p3) {
                    Err(e) => Err(e),
                    Ok(p4) => match counted_outcome::<u16>(s, p4) {
                        Err(e) => Err(e),
                        Ok(p5) => counted_outcome::<ModuleProvides>(s, p5),
                    },
                },
            },
        },
    }
}

pub proof fn lemma_cut_counted<T: Decode>(s: Seq<u8>, p: int, k: int)
    requires
        0 <= p <= k <= s.len(),
    ensures
        stable_under_cut(counted_outcome::<T>(s, p), counted_outcome::<T>(s.take(k), p), p, k, s.len()),
{
    lemma_cut_need(s, p, 2, k);
    if p + 2 <= s.len() {
        lemma_cut_list::<T>(s, p + 2, u16_at_spec(s, p) as nat, clamp(p + 2, k));
    }
}

pub proof fn lemma_cut_body<T: Decode>(s: Seq<u8>, pos: int, k: int)
    requires
        0 <= pos <= k <= s.len(),
    ensures
        stable_under_cut(body_outcome::<T>(s, pos), body_outcome::<T>(s.take(k), pos), pos, k, s.len()),
{
    lemma_cut_need(s, pos, 4, k);
    if pos + 4 <= s.len() {
        lemma_cut_counted::<T>(s, pos + 4, clamp(pos + 4, k));
    }
}

pub proof fn lemma_cut_body8<T: Decode>(s: Seq<u8>, pos: int, k: int)
    requires
        0 <= pos <= k <= s.len(),
    ensures
        stable_under_cut(body8_outcome::<T>(s, pos), body8_outcome::<T>(s.take(k), pos), pos, k, s.len()),
{
    lemma_cut_need(s, pos, 5, k);
    if pos + 5 <= s.len() {
        lemma_cut_list::<T>(s, pos + 5, s[pos + 4] as nat, clamp(pos + 5, k));
    }
}

pub proof fn lemma_cut_empty_body(s: Seq<u8>, pos: int, k: int)
    requires
        0 <= pos <= k <= s.len(),
    ensures
        stable_under_cut(empty_body_outcome(s, pos), empty_body_outcome(s.take(k), pos), pos, k, s.len()),
{
    lemma_cut_need(s, pos, 4, k);
}

pub proof fn lemma_cut_module(s: Seq<u8>, pos: int, k: int)
    requires
        0 <= pos <= k <= s.len(),
    ensures
        stable_under_cut(module_outcome(s, pos), module_outcome(s.take(k), pos), pos, k, s.len()),
{
    lemma_cut_need(s, pos, 10, k);
    if pos + 10 <= s.len() {
        let p1 = pos + 10;
        lemma_cut_counted::<ModuleRequires>(s, p1, clamp(p1, k));
        if let Ok(p2) = counted_outcome::<ModuleRequires>(s, p1) {
            lemma_cut_counted::<ModuleExports>(s, p2, clamp(p2, k));
            if let Ok(p3) = counted_outcome::<ModuleExports>(s, p2) {
                lemma_cut_counted::<ModuleOpens>(s, p3, clamp(p3, k));
                if let Ok(p4) = counted_outcome::<ModuleOpens>(s, p3) {
                    lemma_cut_counted::<u16>(s, p4, clamp(p4, k));
                    if let Ok(p5) = counted_outcome::<u16>(s, p4) {
                        lemma_cut_counted::<ModuleProvides>(s, p5, clamp(p5, k));
                    }
                }
            }
        }
    }
}

/// A declared length followed by one 16-bit index.
fn body_u16(s: &[u8], pos: usize) -> (r: Result<(u32, u16, usize), DecodeError>)
    requires
        pos <= s@.len(),
    ensures
        no_trailing(r),
        r matches Ok((len, v, end)) ==> pos <= end <= s@.len() && s@.subrange(pos as int, end as int)
            == be32(len) + be16(v),
        r is Ok <==> pos + 6 <= s@.len(),
        r matches Ok((_, _, end)) ==> end == pos + 6,
        r is Err ==> r == Err::<(u32, u16, usize), DecodeError>(DecodeError::InsufficientBytes),
{
    let (len, p1) = read_u32(s, pos)?;
    let (v, p2) = read_u16(s, p1)?;
    proof { lemma_extend(s@, pos as int, p1 as int, p2 as int); }
    Ok((len, v, p2))
}

/// A declared length, a 16-bit count, and that many values.
fn body_list<T: Decode>(s: &[u8], pos: usize) -> (r: Result<(u32, u16, Vec<T>, usize), DecodeError>)
    requires
        pos <= s@.len(),
    ensures
        no_trailing(r),
        r matches Ok((len, n, v, end)) ==> pos <= end <= s@.len() && s@.subrange(pos as int, end as int)
            == be32(len) + be16(n) + wire_seq(v@) && v@.len() == n && all_valid(v@),
        r is Ok <==> body_outcome::<T>(s@, pos as int) is Ok,
        r matches Ok((_, _, _, end)) ==> body_outcome::<T>(s@, pos as int) == Ok::<int, DecodeError>(end as int),
        r matches Err(e) ==> body_outcome::<T>(s@, pos as int) == Err::<int, DecodeError>(e),
{
    let (len, p1) = read_u32(s, pos)?;
    let (n, p2) = read_u16(s, p1)?;
    let (v, p3) = decode_list::<T>(s, p2, n as usize)?;
    proof {
        lemma_extend(s@, pos as int, p1 as int, p2 as int);
        lemma_extend(s@, pos as int, p2 as int, p3 as int);
    }
    Ok((len, n, v, p3))
}

/// A declared length, an 8-bit count, and that many values.
fn body_list8<T: Decode>(s: &[u8], pos: usize) -> (r: Result<(u32, u8, Vec<T>, usize), DecodeError>)
    requires
        pos <= s@.len(),
    ensures
        no_trailing(r),
        r matches Ok((len, n, v, end)) ==> pos <= end <= s@.len() && s@.subrange(pos as int, end as int)
            == be32(len) + seq![n] + wire_seq(v@) && v@.len() == n && all_valid(v@),
        r is Ok <==> body8_outcome::<T>(s@, pos as int) is Ok,
        r matches Ok((_, _, _, end)) ==> body8_outcome::<T>(s@, pos as int) == Ok::<int, DecodeError>(end as int),
        r matches Err(e) ==> body8_outcome::<T>(s@, pos as int) == Err::<int, DecodeError>(e),
{
    let (len, p1) = read_u32(s, pos)?;
    let (n, p2) = read_u8(s, p1)?;
    let (v, p3) = decode_list::<T>(s, p2, n as usize)?;
    proof {
        lemma_extend(s@, pos as int, p1 as int, p2 as int);
        lemma_extend(s@, pos as int, p2 as int, p3 as int);
    }
    Ok((len, n, v, p3))
}

#[derive(Debug)]
pub struct SourceFileAttribute {
    pub attribute_name_index: u16,
    pub attribute_length: u32,
    pub source_file_index: u16,
}

impl Wire for SourceFileAttribute {
    open spec fn wire(&self) -> Seq<u8> {
        be32(self.attribute_length) + be16(self.source_file_index)
    }
}

impl SourceFileAttribute {
    pub open spec fn valid(&self) -> bool {
        true
    }
}

impl SourceFileAttribute {
    /// Decodes the attribute body that follows name index `index`.
    pub fn parse(s: &[u8], pos: usize, index: u16) -> (r: Result<(SourceFileAttribute, usize), DecodeError>)
        requires
            pos <= s@.len(),
        ensures
            decoded_from(s@, pos as int, r),
            r matches Ok((x, _)) ==> x.attribute_name_index == index && x.valid(),
            follows(r, need(s@, pos as int, 6)),
    {
        let (attribute_length, source_file_index, end) = body_u16(s, pos)?;
        Ok((SourceFileAttribute { attribute_name_index: index, attribute_length, source_file_index }, end))
    }
}

#[derive(Debug)]
pub struct SignatureAttribute {
    pub attribute_name_index: u16,
    pub attribute_length: u32,
    pub signature_index: u16,
}

impl Wire for SignatureAttribute {
    open spec fn wire(&self) -> Seq<u8> {
        be32(self.attribute_length) + be16(self.signature_index)
    }
}

impl SignatureAttribute {
    pub open spec fn valid(&self) -> bool {
        true
    }
}

impl SignatureAttribute {
    /// Decodes the attribute body that follows name index `index`.
    pub fn parse(s: &[u8], pos: usize, index: u16) -> (r: Result<(SignatureAttribute, usize), DecodeError>)
        requires
            pos <= s@.len(),
        ensures
            decoded_from(s@, pos as int, r),
            r matches Ok((x, _)) ==> x.attribute_name_index == index && x.valid(),
            follows(r, need(s@, pos as int, 6)),
    {
        let (attribute_length, signature_index, end) = body_u16(s, pos)?;
        Ok((SignatureAttribute { attribute_name_index: index, attribute_length, signature_index }, end))
    }
}

#[derive(Debug)]
pub struct ConstantValueAttribute {
    pub attribute_name_index: u16,
    pub attribute_length: u32,
    pub constant_value_index: u16,
}

impl Wire for ConstantValueAttribute {
    open spec fn wire(&self) -> Seq<u8> {
        be32(self.attribute_length) + be16(self.constant_value_index)
    }
}

impl ConstantValueAttribute {
    pub open spec fn valid(&self) -> bool {
        true
    }
}

impl ConstantValueAttribute {
    /// Decodes the attribute body that follows name index `index`.
    pub fn parse(s: &[u8], pos: usize, index: u16) -> (r: Result<(ConstantValueAttribute, usize), DecodeError>)
        requires
            pos <= s@.len(),
        ensures
            decoded_from(s@, pos as int, r),
            r matches Ok((x, _)) ==> x.attribute_name_index == index && x.valid(),
            follows(r, need(s@, pos as int, 6)),
    {
        let (attribute_length, constant_value_index, end) = body_u16(s, pos)?;
        Ok((ConstantValueAttribute { attribute_name_index: index, attribute_length, constant_value_index }, end))
    }
}

#[derive(Debug)]
pub struct ModuleMainClassAttribute {
    pub attribute_name_index: u16,
    pub attribute_length: u32,
    pub main_class_index: u16,
}

impl Wire for ModuleMainClassAttribute {
    open spec fn wire(&self) -> Seq<u8> {
        be32(self.attribute_length) + be16(self.main_class_index)
    }
}

impl ModuleMainClassAttribute {
    pub open spec fn valid(&self) -> bool {
        true
    }
}

impl ModuleMainClassAttribute {
    /// Decodes the attribute body that follows name index `index`.
    pub fn parse(s: &[u8], pos: usize, index: u16) -> (r: Result<(ModuleMainClassAttribute, usize), DecodeError>)
        requires
            pos <= s@.len(),
        ensures
            decoded_from(s@, pos as int, r),
            r matches Ok((x, _)) ==> x.attribute_name_index == index && x.valid(),
            follows(r, need(s@, pos as int, 6)),
    {
        let (attribute_length, main_class_index, end) = body_u16(s, pos)?;
        Ok((ModuleMainClassAttribute { attribute_name_index: index, attribute_length, main_class_index }, end))
    }
}

#[derive(Debug)]
pub struct NestHostAttribute {
    pub attribute_name_index: u16,
    pub attribute_length: u32,
    pub nest_host_index: u16,
}

impl Wire for NestHostAttribute {
    open spec fn wire(&self) -> Seq<u8> {
        be32(self.attribute_length) + be16(self.nest_host_index)
    }
}

impl NestHostAttribute {
    pub open spec fn valid(&self) -> bool {
        true
    }
}

impl NestHostAttribute {
    /// Decodes the attribute body that follows name index `index`.
    pub fn parse(s: &[u8], pos: usize, index: u16) -> (r: Result<(NestHostAttribute, usize), DecodeError>)
        requires
            pos <= s@.len(),
        ensures
            decoded_from(s@, pos as int, r),
            r matches Ok((x, _)) ==> x.attribute_name_index == index && x.valid(),
            follows(r, need(s@, pos as int, 6)),
    {
        let (attribute_length, nest_host_index, end) = body_u16(s, pos)?;
        Ok((NestHostAttribute { attribute_name_index: index, attribute_length, nest_host_index }, end))
    }
}

#[derive(Debug)]
pub struct ExceptionsAttribute {
    pub attribute_name_index: u16,
    pub attribute_length: u32,
    pub number_of_exceptions: u16,
    pub exception_index_table: Vec<u16>,
}

impl Wire for ExceptionsAttribute {
    open spec fn wire(&self) -> Seq<u8> {
        be32(self.attribute_length) + be16(self.number_of_exceptions) + wire_seq(self.exception_index_table@)
    }
}

impl ExceptionsAttribute {
    pub open spec fn valid(&self) -> bool {
        self.number_of_exceptions == self.exception_index_table@.len()
    }
}

impl ExceptionsAttribute {
    /// Decodes the attribute body that follows name index `index`.
    pub fn parse(s: &[u8], pos: usize, index: u16) -> (r: Result<(ExceptionsAttribute, usize), DecodeError>)
        requires
            pos <= s@.len(),
        ensures
            decoded_from(s@, pos as int, r),
            r matches Ok((x, _)) ==> x.attribute_name_index == index && x.valid(),
            follows(r, body_outcome::<u16>(s@, pos as int)),
    {
        let (attribute_length, number_of_exceptions, exception_index_table, end) = body_list::<u16>(s, pos)?;
        Ok((ExceptionsAttribute { attribute_name_index: index, attribute_length, number_of_exceptions, exception_index_table }, end))
    }
}

#[derive(Debug)]
pub struct ModulePackagesAttribute {
    pub attribute_name_index: u16,
    pub attribute_length: u32,
    pub packages_count: u16,
    pub packages: Vec<u16>,
}

impl Wire for ModulePackagesAttribute {
    open spec fn wire(&self) -> Seq<u8> {
        be32(self.attribute_length) + be16(self.packages_count) + wire_seq(self.packages@)
    }
}

impl ModulePackagesAttribute {
    pub open spec fn valid(&self) -> bool {
        self.packages_count == self.packages@.len()
    }
}

impl ModulePackagesAttribute {
    /// Decodes the attribute body that follows name index `index`.
    pub fn parse(s: &[u8], pos: usize, index: u16) -> (r: Result<(ModulePackagesAttribute, usize), DecodeError>)
        requires
            pos <= s@.len(),
        ensures
            decoded_from(s@, pos as int, r),
            r matches Ok((x, _)) ==> x.attribute_name_index == index && x.valid(),
            follows(r, body_outcome::<u16>(s@, pos as int)),
    {
        let (attribute_length, packages_count, packages, end) = body_list::<u16>(s, pos)?;
        Ok((ModulePackagesAttribute { attribute_name_index: index, attribute_length, packages_count, packages }, end))
    }
}

#[derive(Debug)]
pub struct NestMembersAttribute {
    pub attribute_name_index: u16,
    pub attribute_length: u32,
    pub number_of_classes: u16,
    pub classes: Vec<u16>,
}

impl Wire for NestMembersAttribute {
    open spec fn wire(&self) -> Seq<u8> {
        be32(self.attribute_length) + be16(self.number_of_classes) + wire_seq(self.classes@)
    }
}

impl NestMembersAttribute {
    pub open spec fn valid(&self) -> bool {
        self.number_of_classes == self.classes@.len()
    }
}

impl NestMembersAttribute {
    /// Decodes the attribute body that follows name index `index`.
    pub fn parse(s: &[u8], pos: usize, index: u16) -> (r: Result<(NestMembersAttribute, usize), DecodeError>)
        requires
            pos <= s@.len(),
        ensures
            decoded_from(s@, pos as int, r),
            r matches Ok((x, _)) ==> x.attribute_name_index == index && x.valid(),
            follows(r, body_outcome::<u16>(s@, pos as int)),
    {
        let (attribute_length, number_of_classes, classes, end) = body_list::<u16>(s, pos)?;
        Ok((NestMembersAttribute { attribute_name_index: index, attribute_length, number_of_classes, classes }, end))
    }
}

#[derive(Debug)]
pub struct PermittedSubclassesAttribute {
    pub attribute_name_index: u16,
    pub attribute_length: u32,
    pub number_of_classes: u16,
    pub classes: Vec<u16>,
}

impl Wire for PermittedSubclassesAttribute {
    open spec fn wire(&self) -> Seq<u8> {
        be32(self.attribute_length) + be16(self.number_of_classes) + wire_seq(self.classes@)
    }
}

impl PermittedSubclassesAttribute {
    pub open spec fn valid(&self) -> bool {
        self.number_of_classes == self.classes@.len()
    }
}

impl PermittedSubclassesAttribute {
    /// Decodes the attribute body that follows name index `index`.
    pub fn parse(s: &[u8], pos: usize, index: u16) -> (r: Result<(PermittedSubclassesAttribute, usize), DecodeError>)
        requires
            pos <= s@.len(),
        ensures
            decoded_from(s@, pos as int, r),
            r matches Ok((x, _)) ==> x.attribute_name_index == index && x.valid(),
            follows(r, body_outcome::<u16>(s@, pos as int)),
    {
        let (attribute_length, number_of_classes, classes, end) = body_list::<u16>(s, pos)?;
        Ok((PermittedSubclassesAttribute { attribute_name_index: index, attribute_length, number_of_classes, classes }, end))
    }
}

#[derive(Debug)]
pub struct LineNumberTableAttribute {
    pub attribute_name_index: u16,
    pub attribute_length: u32,
    pub line_number_table_length: u16,
    pub line_number_table: Vec<LineNumberTableEntry>,
}

impl Wire for LineNumberTableAttribute {
    open spec fn wire(&self) -> Seq<u8> {
        be32(self.attribute_length) + be16(self.line_number_table_length) + wire_seq(self.line_number_table@)
    }
}

impl LineNumberTableAttribute {
    pub open spec fn valid(&self) -> bool {
        self.line_number_table_length == self.line_number_table@.len() && all_valid(self.line_number_table@)
    }
}

impl LineNumberTableAttribute {
    /// Decodes the attribute body that follows name index `index`.
    pub fn parse(s: &[u8], pos: usize, index: u16) -> (r: Result<(LineNumberTableAttribute, usize), DecodeError>)
        requires
            pos <= s@.len(),
        ensures
            decoded_from(s@, pos as int, r),
            r matches Ok((x, _)) ==> x.attribute_name_index == index && x.valid(),
            follows(r, body_outcome::<LineNumberTableEntry>(s@, pos as int)),
    {
        let (attribute_length, line_number_table_length, line_number_table, end) = body_list::<LineNumberTableEntry>(s, pos)?;
        Ok((LineNumberTableAttribute { attribute_name_index: index, attribute_length, line_number_table_length, line_number_table }, end))
    }
}

#[derive(Debug)]
pub struct LocalVariableTableAttribute {
    pub attribute_name_index: u16,
    pub attribute_length: u32,
    pub local_variable_table_length: u16,
    pub local_variable_table: Vec<LocalVariableTableEntry>,
}

impl Wire for LocalVariableTableAttribute {
    open spec fn wire(&self) -> Seq<u8> {
        be32(self.attribute_length) + be16(self.local_variable_table_length) + wire_seq(self.local_variable_table@)
    }
}

impl LocalVariableTableAttribute {
    pub open spec fn valid(&self) -> bool {
        self.local_variable_table_length == self.local_variable_table@.len() && all_valid(self.local_variable_table@)
    }
}

impl LocalVariableTableAttribute {
    /// Decodes the attribute body that follows name index `index`.
    pub fn parse(s: &[u8], pos: usize, index: u16) -> (r: Result<(LocalVariableTableAttribute, usize), DecodeError>)
        requires
            pos <= s@.len(),
        ensures
            decoded_from(s@, pos as int, r),
            r matches Ok((x, _)) ==> x.attribute_name_index == index && x.valid(),
            follows(r, body_outcome::<LocalVariableTableEntry>(s@, pos as int)),
    {
        let (attribute_length, local_variable_table_length, local_variable_table, end) = body_list::<LocalVariableTableEntry>(s, pos)?;
        Ok((LocalVariableTableAttribute { attribute_name_index: index, attribute_length, local_variable_table_length, local_variable_table }, end))
    }
}

#[derive(Debug)]
pub struct LocalVariableTypeTableAttribute {
    pub attribute_name_index: u16,
    pub attribute_length: u32,
    pub local_variable_type_table_length: u16,
    pub local_variable_type_table: Vec<LocalVariableTypeTableEntry>,
}

impl Wire for LocalVariableTypeTableAttribute {
    open spec fn wire(&self) -> Seq<u8> {
        be32(self.attribute_length) + be16(self.local_variable_type_table_length) + wire_seq(self.local_variable_type_table@)
    }
}

impl LocalVariableTypeTableAttribute {
    pub open spec fn valid(&self) -> bool {
        self.local_variable_type_table_length == self.local_variable_type_table@.len() && all_valid(self.local_variable_type_table@)
    }
}

impl LocalVariableTypeTableAttribute {
    /// Decodes the attribute body that follows name index `index`.
    pub fn parse(s: &[u8], pos: usize, index: u16) -> (r: Result<(LocalVariableTypeTableAttribute, usize), DecodeError>)
        requires
            pos <= s@.len(),
        ensures
            decoded_from(s@, pos as int, r),
            r matches Ok((x, _)) ==> x.attribute_name_index == index && x.valid(),
            follows(r, body_outcome::<LocalVariableTypeTableEntry>(s@, pos as int)),
    {
        let (attribute_length, local_variable_type_table_length, local_variable_type_table, end) = body_list::<LocalVariableTypeTableEntry>(s, pos)?;
        Ok((LocalVariableTypeTableAttribute { attribute_name_index: index, attribute_length, local_variable_type_table_length, local_variable_type_table }, end))
    }
}

#[derive(Debug)]
pub struct InnerClassesAttribute {
    pub attribute_name_index: u16,
    pub attribute_length: u32,
    pub number_of_classes: u16,
    pub classes: Vec<ClassesInfo>,
}

impl Wire for InnerClassesAttribute {
    open spec fn wire(&self) -> Seq<u8> {
        be32(self.attribute_length) + be16(self.number_of_classes) + wire_seq(self.classes@)
    }
}

impl InnerClassesAttribute {
    pub open spec fn valid(&self) -> bool {
        self.number_of_classes == self.classes@.len() && all_valid(self.classes@)
    }
}

impl InnerClassesAttribute {
    /// Decodes the attribute body that follows name index `index`.
    pub fn parse(s: &[u8], pos: usize, index: u16) -> (r: Result<(InnerClassesAttribute, usize), DecodeError>)
        requires
            pos <= s@.len(),
        ensures
            decoded_from(s@, pos as int, r),
            r matches Ok((x, _)) ==> x.attribute_name_index == index && x.valid(),
            follows(r, body_outcome::<ClassesInfo>(s@, pos as int)),
    {
        let (attribute_length, number_of_classes, classes, end) = body_list::<ClassesInfo>(s, pos)?;
        Ok((InnerClassesAttribute { attribute_name_index: index, attribute_length, number_of_classes, classes }, end))
    }
}

#[derive(Debug)]
pub struct BootstrapMethodsAttribute {
    pub attribute_name_index: u16,
    pub attribute_length: u32,
    pub num_bootstrap_methods: u16,
    pub bootstrap_methods: Vec<BootstrapMethod>,
}

impl Wire for BootstrapMethodsAttribute {
    open spec fn wire(&self) -> Seq<u8> {
        be32(self.attribute_length) + be16(self.num_bootstrap_methods) + wire_seq(self.bootstrap_methods@)
    }
}

impl BootstrapMethodsAttribute {
    pub open spec fn valid(&self) -> bool {
        self.num_bootstrap_methods == self.bootstrap_methods@.len() && all_valid(self.bootstrap_methods@)
    }
}

impl BootstrapMethodsAttribute {
    /// Decodes the attribute body that follows name index `index`.
    pub fn parse(s: &[u8], pos: usize, index: u16) -> (r: Result<(BootstrapMethodsAttribute, usize), DecodeError>)
        requires
            pos <= s@.len(),
        ensures
            decoded_from(s@, pos as int, r),
            r matches Ok((x, _)) ==> x.attribute_name_index == index && x.valid(),
            follows(r, body_outcome::<BootstrapMethod>(s@, pos as int)),
    {
        let (attribute_length, num_bootstrap_methods, bootstrap_methods, end) = body_list::<BootstrapMethod>(s, pos)?;
        Ok((BootstrapMethodsAttribute { attribute_name_index: index, attribute_length, num_bootstrap_methods, bootstrap_methods }, end))
    }
}

#[derive(Debug)]
pub struct StackMapTableAttribute {
    pub attribute_name_index: u16,
    pub attribute_length: u32,
    pub number_of_entries: u16,
    pub entries: Vec<StackMapFrame>,
}

impl Wire for StackMapTableAttribute {
    open spec fn wire(&self) -> Seq<u8> {
        be32(self.attribute_length) + be16(self.number_of_entries) + wire_seq(self.entries@)
    }
}

impl StackMapTableAttribute {
    pub open spec fn valid(&self) -> bool {
        self.number_of_entries == self.entries@.len() && all_valid(self.entries@)
    }
}

impl StackMapTableAttribute {
    /// Decodes the attribute body that follows name index `index`.
    pub fn parse(s: &[u8], pos: usize, index: u16) -> (r: Result<(StackMapTableAttribute, usize), DecodeError>)
        requires
            pos <= s@.len(),
        ensures
            decoded_from(s@, pos as int, r),
            r matches Ok((x, _)) ==> x.attribute_name_index == index && x.valid(),
            follows(r, body_outcome::<StackMapFrame>(s@, pos as int)),
    {
        let (attribute_length, number_of_entries, entries, end) = body_list::<StackMapFrame>(s, pos)?;
        Ok((StackMapTableAttribute { attribute_name_index: index, attribute_length, number_of_entries, entries }, end))
    }
}

#[derive(Debug)]
pub struct RuntimeVisibleAnnotationsAttribute {
    pub attribute_name_index: u16,
    pub attribute_length: u32,
    pub num_annotations: u16,
    pub annotations: Vec<Annotation>,
}

impl Wire for RuntimeVisibleAnnotationsAttribute {
    open spec fn wire(&self) -> Seq<u8> {
        be32(self.attribute_length) + be16(self.num_annotations) + wire_seq(self.annotations@)
    }
}

impl RuntimeVisibleAnnotationsAttribute {
    pub open spec fn valid(&self) -> bool {
        self.num_annotations == self.annotations@.len() && all_valid(self.annotations@)
    }
}

impl RuntimeVisibleAnnotationsAttribute {
    /// Decodes the attribute body that follows name index `index`.
    pub fn parse(s: &[u8], pos: usize, index: u16) -> (r: Result<(RuntimeVisibleAnnotationsAttribute, usize), DecodeError>)
        requires
            pos <= s@.len(),
        ensures
            decoded_from(s@, pos as int, r),
            r matches Ok((x, _)) ==> x.attribute_name_index == index && x.valid(),
            follows(r, body_outcome::<Annotation>(s@, pos as int)),
    {
        let (attribute_length, num_annotations, annotations, end) = body_list::<Annotation>(s, pos)?;
        Ok((RuntimeVisibleAnnotationsAttribute { attribute_name_index: index, attribute_length, num_annotations, annotations }, end))
    }
}

#[derive(Debug)]
pub struct RuntimeInvisibleAnnotationsAttribute {
    pub attribute_name_index: u16,
    pub attribute_length: u32,
    pub num_annotations: u16,
    pub annotations: Vec<Annotation>,
}

impl Wire for RuntimeInvisibleAnnotationsAttribute {
    open spec fn wire(&self) -> Seq<u8> {
        be32(self.attribute_length) + be16(self.num_annotations) + wire_seq(self.annotations@)
    }
}

impl RuntimeInvisibleAnnotationsAttribute {
    pub open spec fn valid(&self) -> bool {
        self.num_annotations == self.annotations@.len() && all_valid(self.annotations@)
    }
}

impl RuntimeInvisibleAnnotationsAttribute {
    /// Decodes the attribute body that follows name index `index`.
    pub fn parse(s: &[u8], pos: usize, index: u16) -> (r: Result<(RuntimeInvisibleAnnotationsAttribute, usize), DecodeError>)
        requires
            pos <= s@.len(),
        ensures
            decoded_from(s@, pos as int, r),
            r matches Ok((x, _)) ==> x.attribute_name_index == index && x.valid(),
            follows(r, body_outcome::<Annotation>(s@, pos as int)),
    {
        let (attribute_length, num_annotations, annotations, end) = body_list::<Annotation>(s, pos)?;
        Ok((RuntimeInvisibleAnnotationsAttribute { attribute_name_index: index, attribute_length, num_annotations, annotations }, end))
    }
}

#[derive(Debug)]
pub struct RuntimeVisibleTypeAnnotationsAttribute {
    pub attribute_name_index: u16,
    pub attribute_length: u32,
    pub num_annotations: u16,
    pub annotations: Vec<TypeAnnotation>,
}

impl Wire for RuntimeVisibleTypeAnnotationsAttribute {
    open spec fn wire(&self) -> Seq<u8> {
        be32(self.attribute_length) + be16(self.num_annotations) + wire_seq(self.annotations@)
    }
}

impl RuntimeVisibleTypeAnnotationsAttribute {
    pub open spec fn valid(&self) -> bool {
        self.num_annotations == self.annotations@.len() && all_valid(self.annotations@)
    }
}

impl RuntimeVisibleTypeAnnotationsAttribute {
    /// Decodes the attribute body that follows name index `index`.
    pub fn parse(s: &[u8], pos: usize, index: u16) -> (r: Result<(RuntimeVisibleTypeAnnotationsAttribute, usize), DecodeError>)
        requires
            pos <= s@.len(),
        ensures
            decoded_from(s@, pos as int, r),
            r matches Ok((x, _)) ==> x.attribute_name_index == index && x.valid(),
            follows(r, body_outcome::<TypeAnnotation>(s@, pos as int)),
    {
        let (attribute_length, num_annotations, annotations, end) = body_list::<TypeAnnotation>(s, pos)?;
        Ok((RuntimeVisibleTypeAnnotationsAttribute { attribute_name_index: index, attribute_length, num_annotations, annotations }, end))
    }
}

#[derive(Debug)]
pub struct RuntimeInvisibleTypeAnnotationsAttribute {
    pub attribute_name_index: u16,
    pub attribute_length: u32,
    pub num_annotations: u16,
    pub annotations: Vec<TypeAnnotation>,
}

impl Wire for RuntimeInvisibleTypeAnnotationsAttribute {
    open spec fn wire(&self) -> Seq<u8> {
        be32(self.attribute_length) + be16(self.num_annotations) + wire_seq(self.annotations@)
    }
}

impl RuntimeInvisibleTypeAnnotationsAttribute {
    pub open spec fn valid(&self) -> bool {
        self.num_annotations == self.annotations@.len() && all_valid(self.annotations@)
    }
}

impl RuntimeInvisibleTypeAnnotationsAttribute {
    /// Decodes the attribute body that follows name index `index`.
    pub fn parse(s: &[u8], pos: usize, index: u16) -> (r: Result<(RuntimeInvisibleTypeAnnotationsAttribute, usize), DecodeError>)
        requires
            pos <= s@.len(),
        ensures
            decoded_from(s@, pos as int, r),
            r matches Ok((x, _)) ==> x.attribute_name_index == index && x.valid(),
            follows(r, body_outcome::<TypeAnnotation>(s@, pos as int)),
    {
        let (attribute_length, num_annotations, annotations, end) = body_list::<TypeAnnotation>(s, pos)?;
        Ok((RuntimeInvisibleTypeAnnotationsAttribute { attribute_name_index: index, attribute_length, num_annotations, annotations }, end))
    }
}

#[derive(Debug)]
pub struct MethodParametersAttribute {
    pub attribute_name_index: u16,
    pub attribute_length: u32,
    pub parameters_count: u8,
    pub parameters: Vec<MethodParameter>,
}

impl Wire for MethodParametersAttribute {
    open spec fn wire(&self) -> Seq<u8> {
        be32(self.attribute_length) + seq![self.parameters_count] + wire_seq(self.parameters@)
    }
}

impl MethodParametersAttribute {
    pub open spec fn valid(&self) -> bool {
        self.parameters_count == self.parameters@.len() && all_valid(self.parameters@)
    }
}

impl MethodParametersAttribute {
    /// Decodes the attribute body that follows name index `index`.
    pub fn parse(s: &[u8], pos: usize, index: u16) -> (r: Result<(MethodParametersAttribute, usize), DecodeError>)
        requires
            pos <= s@.len(),
        ensures
            decoded_from(s@, pos as int, r),
            r matches Ok((x, _)) ==> x.attribute_name_index == index && x.valid(),
            follows(r, body8_outcome::<MethodParameter>(s@, pos as int)),
    {
        let (attribute_length, parameters_count, parameters, end) = body_list8::<MethodParameter>(s, pos)?;
        Ok((MethodParametersAttribute { attribute_name_index: index, attribute_length, parameters_count, parameters }, end))
    }
}

#[derive(Debug)]
pub struct RuntimeVisibleParameterAnnotationsAttribute {
    pub attribute_name_index: u16,
    pub attribute_length: u32,
    pub num_parameters: u8,
    pub parameter_annotations: Vec<ParameterAnnotation>,
}

impl Wire for RuntimeVisibleParameterAnnotationsAttribute {
    open spec fn wire(&self) -> Seq<u8> {
        be32(self.attribute_length) + seq![self.num_parameters] + wire_seq(self.parameter_annotations@)
    }
}

impl RuntimeVisibleParameterAnnotationsAttribute {
    pub open spec fn valid(&self) -> bool {
        self.num_parameters == self.parameter_annotations@.len() && all_valid(self.parameter_annotations@)
    }
}

impl RuntimeVisibleParameterAnnotationsAttribute {
    /// Decodes the attribute body that follows name index `index`.
    pub fn parse(s: &[u8], pos: usize, index: u16) -> (r: Result<(RuntimeVisibleParameterAnnotationsAttribute, usize), DecodeError>)
        requires
            pos <= s@.len(),
        ensures
            decoded_from(s@, pos as int, r),
            r matches Ok((x, _)) ==> x.attribute_name_index == index && x.valid(),
            follows(r, body8_outcome::<ParameterAnnotation>(s@, pos as int)),
    {
        let (attribute_length, num_parameters, parameter_annotations, end) = body_list8::<ParameterAnnotation>(s, pos)?;
        Ok((RuntimeVisibleParameterAnnotationsAttribute { attribute_name_index: index, attribute_length, num_parameters, parameter_annotations }, end))
    }
}

#[derive(Debug)]
pub struct RuntimeInvisibleParameterAnnotationsAttribute {
    pub attribute_name_index: u16,
    pub attribute_length: u32,
    pub num_parameters: u8,
    pub parameter_annotations: Vec<ParameterAnnotation>,
}

impl Wire for RuntimeInvisibleParameterAnnotationsAttribute {
    open spec fn wire(&self) -> Seq<u8> {
        be32(self.attribute_length) + seq![self.num_parameters] + wire_seq(self.parameter_annotations@)
    }
}

impl RuntimeInvisibleParameterAnnotationsAttribute {
    pub open spec fn valid(&self) -> bool {
        self.num_parameters == self.parameter_annotations@.len() && all_valid(self.parameter_annotations@)
    }
}

impl RuntimeInvisibleParameterAnnotationsAttribute {
    /// Decodes the attribute body that follows name index `index`.
    pub fn parse(s: &[u8], pos: usize, index: u16) -> (r: Result<(RuntimeInvisibleParameterAnnotationsAttribute, usize), DecodeError>)
        requires
            pos <= s@.len(),
        ensures
            decoded_from(s@, pos as int, r),
            r matches Ok((x, _)) ==> x.attribute_name_index == index && x.valid(),
            follows(r, body8_outcome::<ParameterAnnotation>(s@, pos as int)),
    {
        let (attribute_length, num_parameters, parameter_annotations, end) = body_list8::<ParameterAnnotation>(s, pos)?;
        Ok((RuntimeInvisibleParameterAnnotationsAttribute { attribute_name_index: index, attribute_length, num_parameters, parameter_annotations }, end))
    }
}

#[derive(Debug)]
pub struct SyntheticAttribute {
    pub attribute_name_index: u16,
    pub attribute_length: u32,
}

impl Wire for SyntheticAttribute {
    open spec fn wire(&self) -> Seq<u8> {
        be32(self.attribute_length)
    }
}

impl SyntheticAttribute {
    /// The attribute has no payload, so its declared length is zero.
    pub open spec fn valid(&self) -> bool {
        self.attribute_length == 0
    }
}

impl SyntheticAttribute {
    /// Decodes the attribute body that follows name index `index`.
    pub fn parse(s: &[u8], pos: usize, index: u16) -> (r: Result<(SyntheticAttribute, usize), DecodeError>)
        requires
            pos <= s@.len(),
        ensures
            decoded_from(s@, pos as int, r),
            r matches Ok((x, _)) ==> x.attribute_name_index == index && x.valid(),
            follows(r, empty_body_outcome(s@, pos as int)),
            pos + 4 <= s@.len() && u32_at_spec(s@, pos as int) != 0 ==> r == Err::<(SyntheticAttribute, usize), DecodeError>(
                DecodeError::InvalidAttributeLength,
            ),
    {
        let (attribute_length, end) = read_u32(s, pos)?;
        if attribute_length != 0 {
            return Err(DecodeError::InvalidAttributeLength);
        }
        Ok((SyntheticAttribute { attribute_name_index: index, attribute_length }, end))
    }
}

#[derive(Debug)]
pub struct DeprecatedAttribute {
    pub attribute_name_index: u16,
    pub attribute_length: u32,
}

impl Wire for DeprecatedAttribute {
    open spec fn wire(&self) -> Seq<u8> {
        be32(self.attribute_length)
    }
}

impl DeprecatedAttribute {
    /// The attribute has no payload, so its declared length is zero.
    pub open spec fn valid(&self) -> bool {
        self.attribute_length == 0
    }
}

impl DeprecatedAttribute {
    /// Decodes the attribute body that follows name index `index`.
    pub fn parse(s: &[u8], pos: usize, index: u16) -> (r: Result<(DeprecatedAttribute, usize), DecodeError>)
        requires
            pos <= s@.len(),
        ensures
            decoded_from(s@, pos as int, r),
            r matches Ok((x, _)) ==> x.attribute_name_index == index && x.valid(),
            follows(r, empty_body_outcome(s@, pos as int)),
            pos + 4 <= s@.len() && u32_at_spec(s@, pos as int) != 0 ==> r == Err::<(DeprecatedAttribute, usize), DecodeError>(
                DecodeError::InvalidAttributeLength,
            ),
    {
        let (attribute_length, end) = read_u32(s, pos)?;
        if attribute_length != 0 {
            return Err(DecodeError::InvalidAttributeLength);
        }
        Ok((DeprecatedAttribute { attribute_name_index: index, attribute_length }, end))
    }
}

/// Debug text of a declared number of bytes.
#[derive(Debug)]
pub struct SourceDebugExtensionAttribute {
    pub attribute_name_index: u16,
    pub attribute_length: u32,
    pub debug_extension: Vec<u8>,
}

impl Wire for SourceDebugExtensionAttribute {
    open spec fn wire(&self) -> Seq<u8> {
        be32(self.attribute_length) + self.debug_extension@
    }
}

impl SourceDebugExtensionAttribute {
    pub open spec fn valid(&self) -> bool {
        self.debug_extension@.len() == self.attribute_length
    }

    /// Decodes the attribute body that follows name index `index`.
    pub fn parse(s: &[u8], pos: usize, index: u16) -> (r: Result<(SourceDebugExtensionAttribute, usize), DecodeError>)
        requires
            pos <= s@.len(),
        ensures
            decoded_from(s@, pos as int, r),
            r matches Ok((x, _)) ==> x.attribute_name_index == index && x.valid(),
            follows(r, match need(s@, pos as int, 4) {
                Ok(p) => need(s@, p, u32_at_spec(s@, pos as int) as int),
                Err(e) => Err(e),
            }),
    {
        let (attribute_length, p1) = read_u32(s, pos)?;
        if attribute_length as u64 > (s.len() - p1) as u64 {
            return Err(DecodeError::InsufficientBytes);
        }
        let (debug_extension, p2) = read_bytes(s, p1, attribute_length as usize)?;
        proof { lemma_extend(s@, pos as int, p1 as int, p2 as int); }
        Ok((SourceDebugExtensionAttribute { attribute_name_index: index, attribute_length, debug_extension }, p2))
    }
}

#[derive(Debug)]
pub struct EnclosingMethodAttribute {
    pub attribute_name_index: u16,
    pub attribute_length: u32,
    pub class_index: u16,
    pub method_index: u16,
}

impl Wire for EnclosingMethodAttribute {
    open spec fn wire(&self) -> Seq<u8> {
        be32(self.attribute_length) + be16(self.class_index) + be16(self.method_index)
    }
}

impl EnclosingMethodAttribute {
    pub open spec fn valid(&self) -> bool {
        true
    }

    /// Decodes the attribute body that follows name index `index`.
    pub fn parse(s: &[u8], pos: usize, index: u16) -> (r: Result<(EnclosingMethodAttribute, usize), DecodeError>)
        requires
            pos <= s@.len(),
        ensures
            decoded_from(s@, pos as int, r),
            r matches Ok((x, _)) ==> x.attribute_name_index == index && x.valid(),
            follows(r, need(s@, pos as int, 8)),
    {
        let (attribute_length, class_index, p1) = body_u16(s, pos)?;
        let (method_index, p2) = read_u16(s, p1)?;
        proof { lemma_extend(s@, pos as int, p1 as int, p2 as int); }
        Ok((EnclosingMethodAttribute { attribute_name_index: index, attribute_length, class_index, method_index }, p2))
    }
}

#[derive(Debug)]
pub struct AnnotationDefaultAttribute {
    pub attribute_name_index: u16,
    pub attribute_length: u32,
    pub default_value: ElementValue,
}

impl Wire for AnnotationDefaultAttribute {
    open spec fn wire(&self) -> Seq<u8> {
        be32(self.attribute_length) + element_value_wire(self.default_value)
    }
}

impl AnnotationDefaultAttribute {
    pub open spec fn valid(&self) -> bool {
        element_value_wf(self.default_value)
    }

    /// Decodes the attribute body that follows name index `index`.
    pub fn parse(s: &[u8], pos: usize, index: u16) -> (r: Result<(AnnotationDefaultAttribute, usize), DecodeError>)
        requires
            pos <= s@.len(),
        ensures
            decoded_from(s@, pos as int, r),
            r matches Ok((x, _)) ==> x.attribute_name_index == index && x.valid(),
            follows(r, match need(s@, pos as int, 4) {
                Ok(p) => element_value_outcome(s@, p, 0),
                Err(e) => Err(e),
            }),
    {
        let (attribute_length, p1) = read_u32(s, pos)?;
        let (default_value, p2) = ElementValue::parse(s, p1)?;
        proof { lemma_extend(s@, pos as int, p1 as int, p2 as int); }
        Ok((AnnotationDefaultAttribute { attribute_name_index: index, attribute_length, default_value }, p2))
    }
}

#[derive(Debug)]
pub struct ModuleAttribute {
    pub attribute_name_index: u16,
    pub attribute_length: u32,
    pub module_name_index: u16,
    pub module_flags: u16,
    pub module_version_index: u16,
    pub requires_count: u16,
    pub module_requires: Vec<ModuleRequires>,
    pub exports_count: u16,
    pub exports: Vec<ModuleExports>,
    pub opens_count: u16,
    pub opens: Vec<ModuleOpens>,
    pub uses_count: u16,
    pub uses: Vec<u16>,
    pub provides_count: u16,
    pub provides: Vec<ModuleProvides>,
}

impl Wire for ModuleAttribute {
    open spec fn wire(&self) -> Seq<u8> {
        be32(self.attribute_length) + be16(self.module_name_index) + be16(self.module_flags) + be16(
            self.module_version_index,
        ) + be16(self.requires_count) + wire_seq(self.module_requires@) + be16(self.exports_count)
            + wire_seq(self.exports@) + be16(self.opens_count) + wire_seq(self.opens@) + be16(
            self.uses_count,
        ) + wire_seq(self.uses@) + be16(self.provides_count) + wire_seq(self.provides@)
    }
}

impl ModuleAttribute {
    pub open spec fn valid(&self) -> bool {
        &&& self.requires_count == self.module_requires@.len()
        &&& self.exports_count == self.exports@.len() && all_valid(self.exports@)
        &&& self.opens_count == self.opens@.len() && all_valid(self.opens@)
        &&& self.uses_count == self.uses@.len()
        &&& self.provides_count == self.provides@.len() && all_valid(self.provides@)
    }

    /// Decodes the attribute body that follows name index `index`.
    pub fn parse(s: &[u8], pos: usize, index: u16) -> (r: Result<(ModuleAttribute, usize), DecodeError>)
        requires
            pos <= s@.len(),
        ensures
            decoded_from(s@, pos as int, r),
            r matches Ok((x, _)) ==> x.attribute_name_index == index && x.valid(),
            follows(r, module_outcome(s@, pos as int)),
    {
        let (attribute_length, module_name_index, p1) = body_u16(s, pos)?;
        let (module_flags, p2) = read_u16(s, p1)?;
        let (module_version_index, p3) = read_u16(s, p2)?;
        let (requires_count, p4) = read_u16(s, p3)?;
        let (module_requires, p5) = decode_list::<ModuleRequires>(s, p4, requires_count as usize)?;
        let (exports_count, p6) = read_u16(s, p5)?;
        let (exports, p7) = decode_list::<ModuleExports>(s, p6, exports_count as usize)?;
        let (opens_count, p8) = read_u16(s, p7)?;
        let (opens, p9) = decode_list::<ModuleOpens>(s, p8, opens_count as usize)?;
        let (uses_count, p10) = read_u16(s, p9)?;
        let (uses, p11) = decode_list::<u16>(s, p10, uses_count as usize)?;
        let (provides_count, p12) = read_u16(s, p11)?;
        let (provides, p13) = decode_list::<ModuleProvides>(s, p12, provides_count as usize)?;
        proof {
            lemma_extend(s@, pos as int, p1 as int, p2 as int);
            lemma_extend(s@, pos as int, p2 as int, p3 as int);
            lemma_extend(s@, pos as int, p3 as int, p4 as int);
            lemma_extend(s@, pos as int, p4 as int, p5 as int);
            lemma_extend(s@, pos as int, p5 as int, p6 as int);
            lemma_extend(s@, pos as int, p6 as int, p7 as int);
            lemma_extend(s@, pos as int, p7 as int, p8 as int);
            lemma_extend(s@, pos as int, p8 as int, p9 as int);
            lemma_extend(s@, pos as int, p9 as int, p10 as int);
            lemma_extend(s@, pos as int, p10 as int, p11 as int);
            lemma_extend(s@, pos as int, p11 as int, p12 as int);
            lemma_extend(s@, pos as int, p12 as int, p13 as int);
        }
        let x = ModuleAttribute {
            attribute_name_index: index,
            attribute_length,
            module_name_index,
            module_flags,
            module_version_index,
            requires_count,
            module_requires,
            exports_count,
            exports,
            opens_count,
            opens,
            uses_count,
            uses,
            provides_count,
            provides,
        };
        Ok((x, p13))
    }
}

} // verus!

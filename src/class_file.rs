//! The top level: header, constant pool, flags, interfaces, fields,
//! methods and class attributes, in that order.

use vstd::prelude::*;
use crate::bytes::{Wire, need, follows, lemma_split, lemma_be16_reads, lemma_be32_reads, lemma_u16_list_layout, clamp, stable_under_cut, lemma_cut_need, decode_list, be16, be32, u16_at_spec, u32_at_spec, wire_seq, decoded_from, lemma_extend, lemma_wire_seq_push, read_u16, read_u32};
use crate::constant_pool::{ConstantPool, parse_constant_pool, pool_names, pool_outcome, lemma_cut_pool, lemma_pool_layout};
use crate::error::{DecodeError, no_trailing};
use crate::instructions::stream_outcome;
use crate::records::ExceptionTableEntry;
use vstd::string::StringSliceAdditionalSpecFns;
use crate::attribute::{counted_outcome, lemma_cut_counted};
use crate::family::{AttributeKind, parse_attribute, attr_list_outcome, code_outcome, lemma_unknown_in_code, lemma_unknown_in_counted, lemma_error_in_counted, lemma_cut_counted_attrs, attr_outcome, counted_attrs, CodeNestedAttribute, RecordComponentInfoAttribute, FieldInfoAttribute, ClassFileAttribute, ClassFileAttributes, FieldInfoAttributes, MethodInfoAttribute, MethodInfoAttributes, is_class_file_attribute_name, is_field_info_attribute_name, is_method_info_attribute_name, is_code_nested_attribute_name, is_record_component_info_attribute_name};

verus! {

pub const MAGIC: u32 = 0xCAFE_BABE;

#[derive(Debug)]
pub struct Header {
    pub magic: u32,
    pub minor: u16,
    pub major: u16,
}

impl Wire for Header {
    open spec fn wire(&self) -> Seq<u8> {
        be32(self.magic) + be16(self.minor) + be16(self.major)
    }
}

#[derive(Debug)]
pub struct Interfaces {
    pub interfaces_count: u16,
    pub interfaces: Vec<u16>,
}

impl Wire for Interfaces {
    open spec fn wire(&self) -> Seq<u8> {
        be16(self.interfaces_count) + wire_seq(self.interfaces@)
    }
}

#[derive(Debug)]
pub struct Field {
    pub access_flags: u16,
    pub name_index: u16,
    pub descriptor_index: u16,
    pub attributes: FieldInfoAttributes,
}

impl Wire for Field {
    open spec fn wire(&self) -> Seq<u8> {
        be16(self.access_flags) + be16(self.name_index) + be16(self.descriptor_index)
            + self.attributes.wire()
    }
}

#[derive(Debug)]
pub struct Fields {
    pub fields_count: u16,
    pub fields: Vec<Field>,
}

impl Wire for Fields {
    open spec fn wire(&self) -> Seq<u8> {
        be16(self.fields_count) + wire_seq(self.fields@)
    }
}

#[derive(Debug)]
pub struct Method {
    pub access_flags: u16,
    pub name_index: u16,
    pub descriptor_index: u16,
    pub attributes: MethodInfoAttributes,
}

impl Method {
    /// The name and descriptor indices name Utf8 records of `pool`.
    pub open spec fn names_resolve(&self, pool: ConstantPool) -> bool {
        pool.utf8_at(self.name_index) is Some && pool.utf8_at(self.descriptor_index) is Some
    }
}

impl Wire for Method {
    open spec fn wire(&self) -> Seq<u8> {
        be16(self.access_flags) + be16(self.name_index) + be16(self.descriptor_index)
            + self.attributes.wire()
    }
}

#[derive(Debug)]
pub struct Methods {
    pub methods_count: u16,
    pub methods: Vec<Method>,
}

impl Wire for Methods {
    open spec fn wire(&self) -> Seq<u8> {
        be16(self.methods_count) + wire_seq(self.methods@)
    }
}

/// A decoded class file.
#[derive(Debug)]
pub struct ClassFile {
    pub header: Header,
    pub constant_pool: ConstantPool,
    pub access_flags: u16,
    pub this_class: u16,
    pub super_class: u16,
    pub interfaces: Interfaces,
    pub fields: Fields,
    pub methods: Methods,
    pub attributes: ClassFileAttributes,
}

impl Wire for ClassFile {
    open spec fn wire(&self) -> Seq<u8> {
        self.header.wire() + self.constant_pool.wire() + be16(self.access_flags) + be16(
            self.this_class,
        ) + be16(self.super_class) + self.interfaces.wire() + self.fields.wire()
            + self.methods.wire() + self.attributes.wire()
    }
}

impl ClassFile {
    /// What every decoded class file satisfies: the magic number, a
    /// well-formed pool, counts that agree with lists, and at every level
    /// attribute names that resolve to a name known in their context.
    pub open spec fn valid(&self) -> bool {
        &&& self.header.magic == MAGIC
        &&& self.constant_pool.wf()
        &&& self.interfaces.interfaces_count == self.interfaces.interfaces@.len()
        &&& self.fields.fields_count == self.fields.fields@.len()
        &&& forall|i: int|
            0 <= i < self.fields.fields@.len() ==> #[trigger] self.fields.fields@[i].attributes.valid_in(
                self.constant_pool,
            )
        &&& self.methods.methods_count == self.methods.methods@.len()
        &&& forall|i: int|
            0 <= i < self.methods.methods@.len() ==> #[trigger] self.methods.methods@[i].attributes.valid_in(
                self.constant_pool,
            ) && self.methods.methods@[i].names_resolve(self.constant_pool)
        &&& self.attributes.valid_in(self.constant_pool)
    }
}

/// The name index resolves in `pool` to a name that `known` accepts.
pub open spec fn names_known_by(pool: ConstantPool, index: u16, known: spec_fn(Seq<u8>) -> bool) -> bool {
    pool.utf8_at(index) is Some && known(pool.utf8_at(index)->0)
}

/// In a decoded class file every attribute, at every depth, has a name
/// that is known in the place where it stands: on the class, on a field,
/// on a method, inside a Code attribute, or on a record component.
pub proof fn lemma_attribute_names_known(cf: ClassFile)
    requires
        cf.valid(),
    ensures
        forall|i: int|
            0 <= i < cf.attributes.attributes@.len() ==> names_known_by(
                cf.constant_pool,
                #[trigger] cf.attributes.attributes@[i].name_index(),
                |n| is_class_file_attribute_name(n),
            ),
        forall|i: int, j: int|
            0 <= i < cf.fields.fields@.len() && 0 <= j < cf.fields.fields@[i].attributes.attributes@.len()
                ==> names_known_by(
                cf.constant_pool,
                #[trigger] cf.fields.fields@[i].attributes.attributes@[j].name_index(),
                |n| is_field_info_attribute_name(n),
            ),
        forall|i: int, j: int|
            0 <= i < cf.methods.methods@.len() && 0 <= j < cf.methods.methods@[i].attributes.attributes@.len()
                ==> names_known_by(
                cf.constant_pool,
                #[trigger] cf.methods.methods@[i].attributes.attributes@[j].name_index(),
                |n| is_method_info_attribute_name(n),
            ),
        forall|i: int, j: int|
            0 <= i < cf.methods.methods@.len() && 0 <= j < cf.methods.methods@[i].attributes.attributes@.len()
                ==> (#[trigger] cf.methods.methods@[i].attributes.attributes@[j] matches MethodInfoAttribute::Code(c)
                ==> forall|k: int| (0 <= k < c.attributes.attributes@.len() ==> names_known_by(
                cf.constant_pool,
                #[trigger] c.attributes.attributes@[k].name_index(),
                |n| is_code_nested_attribute_name(n),
            ))),
        forall|i: int|
            0 <= i < cf.attributes.attributes@.len() ==> (#[trigger] cf.attributes.attributes@[i] matches ClassFileAttribute::Record(r)
                ==> forall|j: int, k: int| (0 <= j < r.record_components@.len() && 0 <= k
                < r.record_components@[j].attributes.attributes@.len() ==> names_known_by(
                cf.constant_pool,
                #[trigger] r.record_components@[j].attributes.attributes@[k].name_index(),
                |n| is_record_component_info_attribute_name(n),
            ))),
{
    assert forall|i: int| 0 <= i < cf.attributes.attributes@.len() implies names_known_by(
        cf.constant_pool,
        #[trigger] cf.attributes.attributes@[i].name_index(),
        |n| is_class_file_attribute_name(n),
    ) by {
        let a = cf.attributes.attributes@[i];
        assert(cf.constant_pool.utf8_at(AttributeKind::name_index(&a)) == Some(AttributeKind::spec_name(&a)));
        assert(is_class_file_attribute_name(a.spec_name()));
    }
    assert forall|i: int, j: int|
        0 <= i < cf.fields.fields@.len() && 0 <= j < cf.fields.fields@[i].attributes.attributes@.len()
        implies names_known_by(
        cf.constant_pool,
        #[trigger] cf.fields.fields@[i].attributes.attributes@[j].name_index(),
        |n| is_field_info_attribute_name(n),
    ) by {
        let attrs = cf.fields.fields@[i].attributes;
        assert(attrs.valid_in(cf.constant_pool));
        let a = attrs.attributes@[j];
        assert(cf.constant_pool.utf8_at(AttributeKind::name_index(&a)) == Some(AttributeKind::spec_name(&a)));
        assert(is_field_info_attribute_name(a.spec_name()));
    }
    assert forall|i: int, j: int|
        0 <= i < cf.methods.methods@.len() && 0 <= j < cf.methods.methods@[i].attributes.attributes@.len()
        implies names_known_by(
        cf.constant_pool,
        #[trigger] cf.methods.methods@[i].attributes.attributes@[j].name_index(),
        |n| is_method_info_attribute_name(n),
    ) by {
        let attrs = cf.methods.methods@[i].attributes;
        assert(attrs.valid_in(cf.constant_pool));
        let a = attrs.attributes@[j];
        assert(cf.constant_pool.utf8_at(AttributeKind::name_index(&a)) == Some(AttributeKind::spec_name(&a)));
        assert(is_method_info_attribute_name(a.spec_name()));
    }
    assert forall|i: int, j: int|
        0 <= i < cf.methods.methods@.len() && 0 <= j < cf.methods.methods@[i].attributes.attributes@.len()
        implies (#[trigger] cf.methods.methods@[i].attributes.attributes@[j] matches MethodInfoAttribute::Code(c)
        ==> forall|k: int| (0 <= k < c.attributes.attributes@.len() ==> names_known_by(
            cf.constant_pool,
            #[trigger] c.attributes.attributes@[k].name_index(),
            |n| is_code_nested_attribute_name(n),
        ))) by {
        let attrs = cf.methods.methods@[i].attributes;
        assert(attrs.valid_in(cf.constant_pool));
        let a = attrs.attributes@[j];
        assert(cf.constant_pool.utf8_at(AttributeKind::name_index(&a)) == Some(AttributeKind::spec_name(&a)));
        assert(AttributeKind::valid_in(&a, cf.constant_pool));
        if let MethodInfoAttribute::Code(c) = a {
            assert(c.valid_in(cf.constant_pool));
            assert forall|k: int| 0 <= k < c.attributes.attributes@.len() implies names_known_by(
                cf.constant_pool,
                #[trigger] c.attributes.attributes@[k].name_index(),
                |n| is_code_nested_attribute_name(n),
            ) by {
                let b = c.attributes.attributes@[k];
                assert(cf.constant_pool.utf8_at(AttributeKind::name_index(&b)) == Some(AttributeKind::spec_name(&b)));
                assert(is_code_nested_attribute_name(b.spec_name()));
            }
        }
    }
    assert forall|i: int| 0 <= i < cf.attributes.attributes@.len()
        implies (#[trigger] cf.attributes.attributes@[i] matches ClassFileAttribute::Record(r)
        ==> forall|j: int, k: int| (0 <= j < r.record_components@.len() && 0 <= k
            < r.record_components@[j].attributes.attributes@.len() ==> names_known_by(
            cf.constant_pool,
            #[trigger] r.record_components@[j].attributes.attributes@[k].name_index(),
            |n| is_record_component_info_attribute_name(n),
        ))) by {
        let a = cf.attributes.attributes@[i];
        assert(cf.constant_pool.utf8_at(AttributeKind::name_index(&a)) == Some(AttributeKind::spec_name(&a)));
        assert(AttributeKind::valid_in(&a, cf.constant_pool));
        if let ClassFileAttribute::Record(r) = a {
            assert(r.valid_in(cf.constant_pool));
            assert forall|j: int, k: int| 0 <= j < r.record_components@.len() && 0 <= k
                < r.record_components@[j].attributes.attributes@.len() implies names_known_by(
                cf.constant_pool,
                #[trigger] r.record_components@[j].attributes.attributes@[k].name_index(),
                |n| is_record_component_info_attribute_name(n),
            ) by {
                let comp = r.record_components@[j];
                assert(comp.attributes.valid_in(cf.constant_pool));
                let b = comp.attributes.attributes@[k];
                assert(cf.constant_pool.utf8_at(AttributeKind::name_index(&b)) == Some(AttributeKind::spec_name(&b)));
                assert(is_record_component_info_attribute_name(b.spec_name()));
            }
        }
    }
}

/// `b` is exactly the layout of a valid class file `cf`.
pub open spec fn is_layout_of(b: Seq<u8>, cf: ClassFile) -> bool {
    b == cf.wire() && cf.valid()
}

/// Outcome of the header at `pos`.
pub open spec fn header_outcome(s: Seq<u8>, pos: int) -> Result<int, DecodeError> {
    if pos + 4 > s.len() {
        Err(DecodeError::InsufficientBytes)
    } else if u32_at_spec(s, pos) != MAGIC {
        Err(DecodeError::MagicMismatch)
    } else {
        need(s, pos, 8)
    }
}

/// Outcome of one field or method at `pos`, whose attributes are of family
/// `T`; when `named`, its name and descriptor indices must resolve to Utf8
/// records.
pub open spec fn member_outcome<T: AttributeKind>(s: Seq<u8>, pos: int, names: spec_fn(u16) -> Option<Seq<u8>>, named: bool) -> Result<int, DecodeError> {
    match need(s, pos, 6) {
        Ok(p) => if named && (names(u16_at_spec(s, pos + 2)) is None || names(u16_at_spec(s, pos + 4)) is None) {
            Err(DecodeError::InvalidConstantIndex)
        } else {
            counted_attrs::<T>(s, p, names)
        },
        Err(e) => Err(e),
    }
}

/// Outcome of `n` fields or methods at `pos`.
pub open spec fn members_outcome<T: AttributeKind>(s: Seq<u8>, pos: int, n: nat, names: spec_fn(u16) -> Option<Seq<u8>>, named: bool) -> Result<int, DecodeError>
    decreases n,
{
    if n == 0 {
        Ok(pos)
    } else {
        match member_outcome::<T>(s, pos, names, named) {
            Ok(p) => members_outcome::<T>(s, p, (n - 1) as nat, names, named),
            Err(e) => Err(e),
        }
    }
}

/// Outcome of a 16-bit count and that many fields or methods.
pub open spec fn counted_members<T: AttributeKind>(s: Seq<u8>, pos: int, names: spec_fn(u16) -> Option<Seq<u8>>, named: bool) -> Result<int, DecodeError> {
    match need(s, pos, 2) {
        Ok(p) => members_outcome::<T>(s, p, u16_at_spec(s, pos) as nat, names, named),
        Err(e) => Err(e),
    }
}

/// Outcome of a class file at the start of `s`: where its layout ends, or
/// the error that decoding it meets first. Every attribute name is looked
/// up in the constant pool read off the same bytes.
pub open spec fn class_outcome(s: Seq<u8>) -> Result<int, DecodeError> {
    match header_outcome(s, 0) {
        Err(e) => Err(e),
        Ok(p1) => match pool_outcome(s, p1) {
            Err(e) => Err(e),
            Ok(p2) => {
                let names = pool_names(s, p1);
                match need(s, p2, 6) {
                    Err(e) => Err(e),
                    Ok(p5) => match counted_outcome::<u16>(s, p5) {
                        Err(e) => Err(e),
                        Ok(p6) => match counted_members::<FieldInfoAttribute>(s, p6, names, false) {
                            Err(e) => Err(e),
                            Ok(p7) => match counted_members::<MethodInfoAttribute>(s, p7, names, true) {
                                Err(e) => Err(e),
                                Ok(p8) => counted_attrs::<ClassFileAttribute>(s, p8, names),
                            },
                        },
                    },
                }
            },
        },
    }
}

pub proof fn lemma_cut_header(s: Seq<u8>, pos: int, k: int)
    requires
        0 <= pos <= k <= s.len(),
    ensures
        stable_under_cut(header_outcome(s, pos), header_outcome(s.take(k), pos), pos, k, s.len()),
{
    lemma_cut_need(s, pos, 8, k);
    if pos + 4 <= k {
        assert(u32_at_spec(s.take(k), pos) == u32_at_spec(s, pos));
    }
}

pub proof fn lemma_cut_member<T: AttributeKind>(s: Seq<u8>, pos: int, names: spec_fn(u16) -> Option<Seq<u8>>, named: bool, k: int)
    requires
        0 <= pos <= k <= s.len(),
    ensures
        stable_under_cut(member_outcome::<T>(s, pos, names, named), member_outcome::<T>(s.take(k), pos, names, named), pos, k, s.len()),
{
    lemma_cut_need(s, pos, 6, k);
    if pos + 6 <= k {
        assert(u16_at_spec(s.take(k), pos + 2) == u16_at_spec(s, pos + 2));
        assert(u16_at_spec(s.take(k), pos + 4) == u16_at_spec(s, pos + 4));
    }
    if pos + 6 <= s.len() {
        lemma_cut_counted_attrs::<T>(s, pos + 6, names, clamp(pos + 6, k));
    }
}

pub proof fn lemma_cut_members<T: AttributeKind>(s: Seq<u8>, pos: int, n: nat, names: spec_fn(u16) -> Option<Seq<u8>>, named: bool, k: int)
    requires
        0 <= pos <= k <= s.len(),
    ensures
        stable_under_cut(
            members_outcome::<T>(s, pos, n, names, named),
            members_outcome::<T>(s.take(k), pos, n, names, named),
            pos,
            k,
            s.len(),
        ),
    decreases n,
{
    if n > 0 {
        lemma_cut_member::<T>(s, pos, names, named, k);
        if let Ok(p) = member_outcome::<T>(s, pos, names, named) {
            lemma_cut_members::<T>(s, p, (n - 1) as nat, names, named, clamp(p, k));
        }
    }
}

pub proof fn lemma_cut_counted_members<T: AttributeKind>(s: Seq<u8>, pos: int, names: spec_fn(u16) -> Option<Seq<u8>>, named: bool, k: int)
    requires
        0 <= pos <= k <= s.len(),
    ensures
        stable_under_cut(counted_members::<T>(s, pos, names, named), counted_members::<T>(s.take(k), pos, names, named), pos, k, s.len()),
{
    lemma_cut_need(s, pos, 2, k);
    if pos + 2 <= s.len() {
        lemma_cut_members::<T>(s, pos + 2, u16_at_spec(s, pos) as nat, names, named, clamp(pos + 2, k));
    }
}

pub proof fn lemma_cut_class(s: Seq<u8>, k: int)
    requires
        0 <= k <= s.len(),
    ensures
        stable_under_cut(class_outcome(s), class_outcome(s.take(k)), 0, k, s.len()),
{
    lemma_cut_header(s, 0, k);
    if let Ok(p1) = header_outcome(s, 0) {
        lemma_cut_pool(s, p1, clamp(p1, k));
        if let Ok(p2) = pool_outcome(s, p1) {
            let names = pool_names(s, p1);
            if p2 <= k {
                lemma_cut_pool(s, p1, k);
            }
            lemma_cut_need(s, p2, 6, clamp(p2, k));
            if p2 + 6 <= s.len() {
                let p5 = p2 + 6;
                lemma_cut_counted::<u16>(s, p5, clamp(p5, k));
                if let Ok(p6) = counted_outcome::<u16>(s, p5) {
                    lemma_cut_counted_members::<FieldInfoAttribute>(s, p6, names, false, clamp(p6, k));
                    if let Ok(p7) = counted_members::<FieldInfoAttribute>(s, p6, names, false) {
                        lemma_cut_counted_members::<MethodInfoAttribute>(s, p7, names, true, clamp(p7, k));
                        if let Ok(p8) = counted_members::<MethodInfoAttribute>(s, p7, names, true) {
                            lemma_cut_counted_attrs::<ClassFileAttribute>(s, p8, names, clamp(p8, k));
                        }
                    }
                }
            }
        }
    }
}

/// In a run of `n` fields or methods, an error met by member `m`, once the
/// `m` members before it decode, is the error of the whole run.
pub proof fn lemma_error_in_members<T: AttributeKind>(
    s: Seq<u8>,
    pos: int,
    n: nat,
    names: spec_fn(u16) -> Option<Seq<u8>>,
    named: bool,
    m: nat,
    pm: int,
    e: DecodeError,
)
    requires
        m < n,
        members_outcome::<T>(s, pos, m, names, named) == Ok::<int, DecodeError>(pm),
        member_outcome::<T>(s, pm, names, named) == Err::<int, DecodeError>(e),
    ensures
        members_outcome::<T>(s, pos, n, names, named) == Err::<int, DecodeError>(e),
    decreases m,
{
    if m > 0 {
        let p = member_outcome::<T>(s, pos, names, named)->Ok_0;
        lemma_error_in_members::<T>(s, p, (n - 1) as nat, names, named, (m - 1) as nat, pm, e);
    }
}

/// The class file's layout up to the method count at `p7` decodes: header,
/// pool, flags and indices, interfaces and fields.
pub open spec fn decodes_up_to_methods(s: Seq<u8>, p7: int) -> bool {
    &&& header_outcome(s, 0) == Ok::<int, DecodeError>(8)
    &&& pool_outcome(s, 8) matches Ok(p2)
    &&& p2 + 6 <= s.len()
    &&& counted_outcome::<u16>(s, p2 + 6) matches Ok(p6)
    &&& counted_members::<FieldInfoAttribute>(s, p6, pool_names(s, 8), false) == Ok::<int, DecodeError>(p7)
}

/// An error met by the methods is the error of the whole class file.
pub proof fn lemma_class_fails_in_methods(s: Seq<u8>, p7: int, e: DecodeError)
    requires
        decodes_up_to_methods(s, p7),
        counted_members::<MethodInfoAttribute>(s, p7, pool_names(s, 8), true) == Err::<int, DecodeError>(e),
    ensures
        class_outcome(s) == Err::<int, DecodeError>(e),
{
}

/// An error met by the class attributes, once the methods decode, is the
/// error of the whole class file.
pub proof fn lemma_class_fails_in_attributes(s: Seq<u8>, p7: int, p8: int, e: DecodeError)
    requires
        decodes_up_to_methods(s, p7),
        counted_members::<MethodInfoAttribute>(s, p7, pool_names(s, 8), true) == Ok::<int, DecodeError>(p8),
        counted_attrs::<ClassFileAttribute>(s, p8, pool_names(s, 8)) == Err::<int, DecodeError>(e),
    ensures
        class_outcome(s) == Err::<int, DecodeError>(e),
{
}

/// A class attribute whose name resolves to a name not known on a class
/// fails the whole decode with `UnknownAttributeName`, once everything
/// before it decodes.
pub proof fn lemma_unknown_class_attribute_fails(s: Seq<u8>, p7: int, p8: int, j: nat, pj: int)
    requires
        decodes_up_to_methods(s, p7),
        counted_members::<MethodInfoAttribute>(s, p7, pool_names(s, 8), true) == Ok::<int, DecodeError>(p8),
        p8 + 2 <= s.len(),
        j < u16_at_spec(s, p8),
        attr_list_outcome::<ClassFileAttribute>(s, p8 + 2, j, pool_names(s, 8)) == Ok::<int, DecodeError>(pj),
        pj + 2 <= s.len(),
        pool_names(s, 8)(u16_at_spec(s, pj)) is Some,
        !is_class_file_attribute_name(pool_names(s, 8)(u16_at_spec(s, pj))->0),
    ensures
        class_outcome(s) == Err::<int, DecodeError>(DecodeError::UnknownAttributeName),
{
    lemma_unknown_in_counted::<ClassFileAttribute>(s, p8, pool_names(s, 8), j, pj);
    lemma_class_fails_in_attributes(s, p7, p8, DecodeError::UnknownAttributeName);
}

/// Three levels down: in method `m`, attribute `j` is a Code attribute at
/// `pj` whose instructions and exception table decode (ending at `p7c`),
/// and nested attribute `jn` at `pn` has a name not known inside Code.
/// Once everything before it decodes, the whole class file fails with
/// `UnknownAttributeName`.
#[verifier::spinoff_prover]
#[verifier::rlimit(80)]
pub proof fn lemma_unknown_in_code_fails_class(
    s: Seq<u8>,
    p7: int,
    m: nat,
    pm: int,
    j: nat,
    pj: int,
    p7c: int,
    jn: nat,
    pn: int,
)
    requires
        decodes_up_to_methods(s, p7),
        p7 + 2 <= s.len(),
        m < u16_at_spec(s, p7),
        members_outcome::<MethodInfoAttribute>(s, p7 + 2, m, pool_names(s, 8), true) == Ok::<int, DecodeError>(pm),
        pm + 8 <= s.len(),
        pool_names(s, 8)(u16_at_spec(s, pm + 2)) is Some,
        pool_names(s, 8)(u16_at_spec(s, pm + 4)) is Some,
        j < u16_at_spec(s, pm + 6),
        attr_list_outcome::<MethodInfoAttribute>(s, pm + 8, j, pool_names(s, 8)) == Ok::<int, DecodeError>(pj),
        pj + 2 <= s.len(),
        pool_names(s, 8)(u16_at_spec(s, pj)) == Some("Code".spec_bytes()),
        pj + 14 <= s.len(),
        pj + 14 + u32_at_spec(s, pj + 10) <= s.len(),
        stream_outcome(s.subrange(pj + 14, pj + 14 + u32_at_spec(s, pj + 10)), 0) is Ok,
        counted_outcome::<ExceptionTableEntry>(s, pj + 14 + u32_at_spec(s, pj + 10)) == Ok::<int, DecodeError>(p7c),
        p7c + 2 <= s.len(),
        jn < u16_at_spec(s, p7c),
        attr_list_outcome::<CodeNestedAttribute>(s, p7c + 2, jn, pool_names(s, 8)) == Ok::<int, DecodeError>(pn),
        pn + 2 <= s.len(),
        pool_names(s, 8)(u16_at_spec(s, pn)) is Some,
        !is_code_nested_attribute_name(pool_names(s, 8)(u16_at_spec(s, pn))->0),
    ensures
        class_outcome(s) == Err::<int, DecodeError>(DecodeError::UnknownAttributeName),
{
    let names = pool_names(s, 8);
    let u = DecodeError::UnknownAttributeName;
    lemma_unknown_in_code(s, pj + 2, names, p7c, jn, pn);
    assert(MethodInfoAttribute::outcome_named(s, pj + 2, "Code".spec_bytes(), names) == code_outcome(s, pj + 2, names));
    assert(attr_outcome::<MethodInfoAttribute>(s, pj, names) == Err::<int, DecodeError>(u));
    lemma_error_in_counted::<MethodInfoAttribute>(s, pm + 6, names, j, pj, u);
    assert(member_outcome::<MethodInfoAttribute>(s, pm, names, true) == Err::<int, DecodeError>(u));
    lemma_error_in_members::<MethodInfoAttribute>(s, p7 + 2, u16_at_spec(s, p7) as nat, names, true, m, pm, u);
    lemma_class_fails_in_methods(s, p7, u);
}

/// Where each part of a class file's layout lies in `s` when `s` is that layout.
pub open spec fn parts_laid_out(s: Seq<u8>, cf: ClassFile) -> bool {
    let h = cf.header.wire();
    let o1 = h.len() as int;
    let o2 = o1 + cf.constant_pool.wire().len();
    let o5 = o2 + 6;
    let o6 = o5 + cf.interfaces.wire().len();
    let o7 = o6 + cf.fields.wire().len();
    let o8 = o7 + cf.methods.wire().len();
    &&& o8 + cf.attributes.wire().len() == s.len()
    &&& s.subrange(0, o1) == h
    &&& s.subrange(o1, o2) == cf.constant_pool.wire()
    &&& s.subrange(o5, o6) == cf.interfaces.wire()
    &&& s.subrange(o6, o7) == cf.fields.wire()
    &&& s.subrange(o7, o8) == cf.methods.wire()
    &&& s.subrange(o8, s.len() as int) == cf.attributes.wire()
}

proof fn lemma_parts_laid_out(s: Seq<u8>, cf: ClassFile)
    requires
        s == cf.wire(),
    ensures
        parts_laid_out(s, cf),
{
    let h = cf.header.wire();
    let w1 = h + cf.constant_pool.wire();
    let w2 = w1 + be16(cf.access_flags);
    let w3 = w2 + be16(cf.this_class);
    let w4 = w3 + be16(cf.super_class);
    let w5 = w4 + cf.interfaces.wire();
    let w6 = w5 + cf.fields.wire();
    let w7 = w6 + cf.methods.wire();
    assert(s.subrange(0, s.len() as int) =~= s);
    lemma_split(s, 0, w7, cf.attributes.wire());
    lemma_split(s, 0, w6, cf.methods.wire());
    lemma_split(s, 0, w5, cf.fields.wire());
    lemma_split(s, 0, w4, cf.interfaces.wire());
    lemma_split(s, 0, w3, be16(cf.super_class));
    lemma_split(s, 0, w2, be16(cf.this_class));
    lemma_split(s, 0, w1, be16(cf.access_flags));
    lemma_split(s, 0, h, cf.constant_pool.wire());
}

/// A header with the magic number laid out at the start decodes.
proof fn lemma_header_layout(s: Seq<u8>, hd: Header)
    requires
        hd.magic == MAGIC,
        8 <= s.len(),
        s.subrange(0, 8) == hd.wire(),
    ensures
        header_outcome(s, 0) == Ok::<int, DecodeError>(8),
{
    lemma_split(s, 0, be32(hd.magic) + be16(hd.minor), be16(hd.major));
    lemma_split(s, 0, be32(hd.magic), be16(hd.minor));
    lemma_be32_reads(s, 0, hd.magic);
}

/// Interfaces laid out at `p` decode, ending where their layout ends.
proof fn lemma_interfaces_layout(s: Seq<u8>, p: int, x: Interfaces)
    requires
        x.interfaces_count == x.interfaces@.len(),
        0 <= p,
        p + x.wire().len() <= s.len(),
        s.subrange(p, p + x.wire().len()) == x.wire(),
    ensures
        counted_outcome::<u16>(s, p) == Ok::<int, DecodeError>(p + x.wire().len()),
{
    lemma_split(s, p, be16(x.interfaces_count), wire_seq(x.interfaces@));
    lemma_be16_reads(s, p, x.interfaces_count);
    lemma_u16_list_layout(s, p + 2, x.interfaces@);
}

/// The parts of a plain class file, laid out in `s`, decode to its end.
#[verifier::spinoff_prover]
#[verifier::rlimit(80)]
proof fn lemma_plain_parts_decode(s: Seq<u8>, cf: ClassFile)
    requires
        parts_laid_out(s, cf),
        cf.header.magic == MAGIC,
        cf.constant_pool.wf(),
        cf.interfaces.interfaces_count == cf.interfaces.interfaces@.len(),
        cf.fields.fields_count == 0 && cf.fields.fields@.len() == 0,
        cf.methods.methods_count == 0 && cf.methods.methods@.len() == 0,
        cf.attributes.attributes_count == 0 && cf.attributes.attributes@.len() == 0,
    ensures
        class_outcome(s) == Ok::<int, DecodeError>(s.len() as int),
{
    let o1 = cf.header.wire().len() as int;
    let o2 = o1 + cf.constant_pool.wire().len();
    let o5 = o2 + 6;
    let o6 = o5 + cf.interfaces.wire().len();
    let o7 = o6 + cf.fields.wire().len();
    let o8 = o7 + cf.methods.wire().len();
    lemma_header_layout(s, cf.header);
    lemma_pool_layout(s, 8, cf.constant_pool);
    lemma_interfaces_layout(s, o5, cf.interfaces);
    assert(cf.fields.fields@ =~= Seq::<Field>::empty());
    assert(cf.methods.methods@ =~= Seq::<Method>::empty());
    assert(cf.attributes.attributes@ =~= Seq::<ClassFileAttribute>::empty());
    assert(cf.fields.wire() =~= be16(0));
    assert(cf.methods.wire() =~= be16(0));
    assert(cf.attributes.wire() =~= be16(0));
    lemma_be16_reads(s, o6, 0);
    lemma_be16_reads(s, o7, 0);
    lemma_be16_reads(s, o8, 0);
    let names = pool_names(s, 8);
    assert(o1 == 8);
    assert(header_outcome(s, 0) == Ok::<int, DecodeError>(8));
    assert(pool_outcome(s, 8) == Ok::<int, DecodeError>(o2));
    assert(need(s, o2, 6) == Ok::<int, DecodeError>(o5));
    assert(counted_outcome::<u16>(s, o5) == Ok::<int, DecodeError>(o6));
    assert(counted_members::<FieldInfoAttribute>(s, o6, names, false) == Ok::<int, DecodeError>(o7));
    assert(counted_members::<MethodInfoAttribute>(s, o7, names, true) == Ok::<int, DecodeError>(o8));
    assert(counted_attrs::<ClassFileAttribute>(s, o8, names) == Ok::<int, DecodeError>(s.len() as int));
}

/// A valid class file with no fields, no methods and no class attributes
/// decodes from its own layout, consuming all of it.
pub proof fn lemma_plain_class_layout_decodes(s: Seq<u8>, cf: ClassFile)
    requires
        s == cf.wire(),
        cf.header.magic == MAGIC,
        cf.constant_pool.wf(),
        cf.interfaces.interfaces_count == cf.interfaces.interfaces@.len(),
        cf.fields.fields_count == 0 && cf.fields.fields@.len() == 0,
        cf.methods.methods_count == 0 && cf.methods.methods@.len() == 0,
        cf.attributes.attributes_count == 0 && cf.attributes.attributes@.len() == 0,
    ensures
        class_outcome(s) == Ok::<int, DecodeError>(s.len() as int),
{
    lemma_parts_laid_out(s, cf);
    lemma_plain_parts_decode(s, cf);
}

/// The same, stated over a valid class file: when `s` is exactly the layout
/// of a valid class file with no fields, methods or class attributes,
/// decoding `s` succeeds and consumes all of it.
#[verifier::spinoff_prover]
pub proof fn lemma_plain_layout_decodes(s: Seq<u8>, cf: ClassFile)
    requires
        is_layout_of(s, cf),
        cf.fields.fields@.len() == 0,
        cf.methods.methods@.len() == 0,
        cf.attributes.attributes@.len() == 0,
    ensures
        class_outcome(s) == Ok::<int, DecodeError>(s.len() as int),
{
    lemma_plain_class_layout_decodes(s, cf);
}


/// A buffer that ends inside the layout of a class file, at any point,
/// fails with `InsufficientBytes`: cutting `s` at `k`, before the end of
/// the class file that `s` starts with, gives that outcome.
#[verifier::spinoff_prover]
pub proof fn lemma_truncated_class_is_insufficient(s: Seq<u8>, k: int)
    requires
        class_outcome(s) matches Ok(end) && 0 <= k < end,
    ensures
        class_outcome(s.take(k)) == Err::<int, DecodeError>(DecodeError::InsufficientBytes),
{
    lemma_cut_class(s, s.len() as int);
    lemma_end_within(class_outcome(s), class_outcome(s.take(s.len() as int)), s.len() as int, s.len());
    lemma_cut_class(s, k);
    lemma_stable_short(class_outcome(s), class_outcome(s.take(k)), k, s.len());
}

/// A stable outcome ends within the buffer.
proof fn lemma_end_within(full: Result<int, DecodeError>, cut: Result<int, DecodeError>, k: int, len: nat)
    requires
        stable_under_cut(full, cut, 0, k, len),
    ensures
        full matches Ok(end) ==> end <= len,
{
}

/// A stable outcome that ended after the cut became `InsufficientBytes`.
proof fn lemma_stable_short(full: Result<int, DecodeError>, cut: Result<int, DecodeError>, k: int, len: nat)
    requires
        stable_under_cut(full, cut, 0, k, len),
        full matches Ok(end) && k < end,
    ensures
        cut == Err::<int, DecodeError>(DecodeError::InsufficientBytes),
{
}

/// The first four bytes are the magic number.
pub open spec fn starts_with_magic(s: Seq<u8>) -> bool {
    s.len() >= 4 && u32_at_spec(s, 0) == MAGIC
}

/// Holds the constant pool of the last class file it decoded.
pub struct ClassFileParser {
    pub constant_pool: ConstantPool,
}

impl ClassFileParser {
    /// A parser that has decoded nothing: its pool is empty.
    pub fn new() -> (r: ClassFileParser)
        ensures
            r.constant_pool.count == 1,
            r.constant_pool.constants@.len() == 0,
    {
        ClassFileParser { constant_pool: ConstantPool::new() }
    }

    /// Decodes the magic number and the version.
    pub fn parse_header(&self, s: &[u8], pos: usize) -> (r: Result<(Header, usize), DecodeError>)
        requires
            pos <= s@.len(),
        ensures
            decoded_from(s@, pos as int, r),
            r matches Ok((h, _)) ==> h.magic == MAGIC,
            r is Ok <==> pos + 8 <= s@.len() && u32_at_spec(s@, pos as int) == MAGIC,
            follows(r, header_outcome(s@, pos as int)),
            pos + 4 <= s@.len() && u32_at_spec(s@, pos as int) != MAGIC ==> r == Err::<
                (Header, usize),
                DecodeError,
            >(DecodeError::MagicMismatch),
            pos + 4 > s@.len() ==> r == Err::<(Header, usize), DecodeError>(
                DecodeError::InsufficientBytes,
            ),
    {
        let (magic, p1) = read_u32(s, pos)?;
        if magic != MAGIC {
            return Err(DecodeError::MagicMismatch);
        }
        let (minor, p2) = read_u16(s, p1)?;
        let (major, p3) = read_u16(s, p2)?;
        proof {
            lemma_extend(s@, pos as int, p1 as int, p2 as int);
            lemma_extend(s@, pos as int, p2 as int, p3 as int);
        }
        Ok((Header { magic, minor, major }, p3))
    }

    /// Decodes a count and that many interface indices.
    pub fn parse_interfaces(&self, s: &[u8], pos: usize) -> (r: Result<(Interfaces, usize), DecodeError>)
        requires
            pos <= s@.len(),
        ensures
            decoded_from(s@, pos as int, r),
            r matches Ok((x, _)) ==> x.interfaces_count == x.interfaces@.len(),
            follows(r, counted_outcome::<u16>(s@, pos as int)),
    {
        let (interfaces_count, p1) = read_u16(s, pos)?;
        let (interfaces, p2) = decode_list::<u16>(s, p1, interfaces_count as usize)?;
        proof { lemma_extend(s@, pos as int, p1 as int, p2 as int); }
        Ok((Interfaces { interfaces_count, interfaces }, p2))
    }

    /// Decodes one field: flags, name and descriptor indices, attributes.
    pub fn parse_field(&self, s: &[u8], pos: usize, pool: &ConstantPool) -> (r: Result<(Field, usize), DecodeError>)
        requires
            pos <= s@.len(),
        ensures
            decoded_from(s@, pos as int, r),
            r matches Ok((x, _)) ==> x.attributes.valid_in(*pool),
            follows(r, member_outcome::<FieldInfoAttribute>(s@, pos as int, pool.names(), false)),
    {
        let (access_flags, p1) = read_u16(s, pos)?;
        let (name_index, p2) = read_u16(s, p1)?;
        let (descriptor_index, p3) = read_u16(s, p2)?;
        let (attributes, p4) = FieldInfoAttributes::parse(s, p3, pool)?;
        proof {
            lemma_extend(s@, pos as int, p1 as int, p2 as int);
            lemma_extend(s@, pos as int, p2 as int, p3 as int);
            lemma_extend(s@, pos as int, p3 as int, p4 as int);
        }
        Ok((Field { access_flags, name_index, descriptor_index, attributes }, p4))
    }

    /// Decodes a count and that many fields.
    pub fn parse_fields(&self, s: &[u8], pos: usize, pool: &ConstantPool) -> (r: Result<(Fields, usize), DecodeError>)
        requires
            pos <= s@.len(),
        ensures
            decoded_from(s@, pos as int, r),
            r matches Ok((x, _)) ==> x.fields_count == x.fields@.len() && forall|i: int|
                0 <= i < x.fields@.len() ==> #[trigger] x.fields@[i].attributes.valid_in(*pool),
            follows(r, counted_members::<FieldInfoAttribute>(s@, pos as int, pool.names(), false)),
    {
        let (fields_count, p1) = read_u16(s, pos)?;
        let mut fields: Vec<Field> = Vec::new();
        let mut p = p1;
        let mut i: u16 = 0;
        while i < fields_count
            invariant
                i <= fields_count,
                pos <= p1 <= p <= s@.len(),
                fields@.len() == i,
                s@.subrange(p1 as int, p as int) == wire_seq(fields@),
                counted_members::<FieldInfoAttribute>(s@, pos as int, pool.names(), false) == members_outcome::<FieldInfoAttribute>(s@, p as int, (fields_count - i) as nat, pool.names(), false),
                forall|k: int| 0 <= k < fields@.len() ==> #[trigger] fields@[k].attributes.valid_in(*pool),
            decreases fields_count - i,
        {
            let (f, q) = self.parse_field(s, p, pool)?;
            proof {
                lemma_extend(s@, p1 as int, p as int, q as int);
                lemma_wire_seq_push(fields@, f);
            }
            fields.push(f);
            p = q;
            i = i + 1;
        }
        proof {
            lemma_extend(s@, pos as int, p1 as int, p as int);
            if fields@.len() == 0 {
                assert(s@.subrange(p1 as int, p as int) =~= Seq::empty());
            }
        }
        Ok((Fields { fields_count, fields }, p))
    }

    /// Decodes one method: flags, name and descriptor indices, attributes.
    /// The name and descriptor indices must name Utf8 records of `pool`.
    pub fn parse_method(&self, s: &[u8], pos: usize, pool: &ConstantPool) -> (r: Result<(Method, usize), DecodeError>)
        requires
            pos <= s@.len(),
        ensures
            decoded_from(s@, pos as int, r),
            r matches Ok((x, _)) ==> x.attributes.valid_in(*pool) && x.names_resolve(*pool),
            follows(r, member_outcome::<MethodInfoAttribute>(s@, pos as int, pool.names(), true)),
    {
        let (access_flags, p1) = read_u16(s, pos)?;
        let (name_index, p2) = read_u16(s, p1)?;
        let (descriptor_index, p3) = read_u16(s, p2)?;
        pool.utf8_bytes(name_index)?;
        pool.utf8_bytes(descriptor_index)?;
        let (attributes, p4) = MethodInfoAttributes::parse(s, p3, pool)?;
        proof {
            lemma_extend(s@, pos as int, p1 as int, p2 as int);
            lemma_extend(s@, pos as int, p2 as int, p3 as int);
            lemma_extend(s@, pos as int, p3 as int, p4 as int);
        }
        Ok((Method { access_flags, name_index, descriptor_index, attributes }, p4))
    }

    /// Decodes a count and that many methods.
    pub fn parse_methods(&self, s: &[u8], pos: usize, pool: &ConstantPool) -> (r: Result<(Methods, usize), DecodeError>)
        requires
            pos <= s@.len(),
        ensures
            decoded_from(s@, pos as int, r),
            r matches Ok((x, _)) ==> x.methods_count == x.methods@.len() && forall|i: int|
                0 <= i < x.methods@.len() ==> #[trigger] x.methods@[i].attributes.valid_in(*pool) && x.methods@[i].names_resolve(*pool),
            follows(r, counted_members::<MethodInfoAttribute>(s@, pos as int, pool.names(), true)),
    {
        let (methods_count, p1) = read_u16(s, pos)?;
        let mut methods: Vec<Method> = Vec::new();
        let mut p = p1;
        let mut i: u16 = 0;
        while i < methods_count
            invariant
                i <= methods_count,
                pos <= p1 <= p <= s@.len(),
                methods@.len() == i,
                s@.subrange(p1 as int, p as int) == wire_seq(methods@),
                counted_members::<MethodInfoAttribute>(s@, pos as int, pool.names(), true) == members_outcome::<MethodInfoAttribute>(s@, p as int, (methods_count - i) as nat, pool.names(), true),
                forall|k: int| 0 <= k < methods@.len() ==> #[trigger] methods@[k].attributes.valid_in(*pool) && methods@[k].names_resolve(*pool),
            decreases methods_count - i,
        {
            let (m, q) = self.parse_method(s, p, pool)?;
            proof {
                lemma_extend(s@, p1 as int, p as int, q as int);
                lemma_wire_seq_push(methods@, m);
            }
            methods.push(m);
            p = q;
            i = i + 1;
        }
        proof {
            lemma_extend(s@, pos as int, p1 as int, p as int);
            if methods@.len() == 0 {
                assert(s@.subrange(p1 as int, p as int) =~= Seq::empty());
            }
        }
        Ok((Methods { methods_count, methods }, p))
    }

    /// Decodes one class attribute: its name index, resolved in `pool`,
    /// and the layout that the name selects.
    pub fn parse_class_file_attribute(&self, s: &[u8], pos: usize, pool: &ConstantPool) -> (r: Result<(ClassFileAttribute, usize), DecodeError>)
        requires
            pos <= s@.len(),
        ensures
            decoded_from(s@, pos as int, r),
            r matches Ok((x, _)) ==> pool.utf8_at(x.name_index()) == Some(x.spec_name()) && x.valid_in(*pool),
            follows(r, attr_outcome::<ClassFileAttribute>(s@, pos as int, pool.names())),
            pos + 2 <= s@.len() ==> (pool.utf8_at(u16_at_spec(s@, pos as int)) matches Some(n)
                && !is_class_file_attribute_name(n) ==> r == Err::<(ClassFileAttribute, usize), DecodeError>(
                DecodeError::UnknownAttributeName,
            )),
    {
        parse_attribute::<ClassFileAttribute>(s, pos, pool)
    }

    /// Decodes the class attributes.
    pub fn parse_class_file_attributes(&self, s: &[u8], pos: usize, pool: &ConstantPool) -> (r: Result<(ClassFileAttributes, usize), DecodeError>)
        requires
            pos <= s@.len(),
        ensures
            decoded_from(s@, pos as int, r),
            r matches Ok((x, _)) ==> x.valid_in(*pool),
            follows(r, counted_attrs::<ClassFileAttribute>(s@, pos as int, pool.names())),
    {
        ClassFileAttributes::parse(s, pos, pool)
    }

    /// Decodes a class file from the start of `s` and keeps a copy of its
    /// constant pool. The bytes consumed are exactly the layout of the
    /// result; bytes after it are left alone (see `parse_all`).
    ///
    /// Whether `this_class` and `super_class` name Class records is not
    /// checked: both are kept as read, and `check_class_index` tells.
    pub fn parse(&mut self, s: &[u8]) -> (r: Result<(ClassFile, usize), DecodeError>)
        ensures
            no_trailing(r),
            r matches Ok((cf, end)) ==> {
                &&& end <= s@.len()
                &&& s@.subrange(0, end as int) == cf.wire()
                &&& cf.valid()
                &&& final(self).constant_pool.count == cf.constant_pool.count
                &&& final(self).constant_pool.constants@.len() == cf.constant_pool.constants@.len()
                &&& forall|i: int| 0 <= i < cf.constant_pool.constants@.len()
                    ==> #[trigger] final(self).constant_pool.constants@[i].same_as(cf.constant_pool.constants@[i])
            },
            r is Err ==> *final(self) == *old(self),
            follows(r, class_outcome(s@)),
            s@.len() >= 4 && !starts_with_magic(s@) ==> r == Err::<(ClassFile, usize), DecodeError>(
                DecodeError::MagicMismatch,
            ),
            s@.len() < 4 ==> r == Err::<(ClassFile, usize), DecodeError>(
                DecodeError::InsufficientBytes,
            ),
    {
        let (header, p1) = self.parse_header(s, 0)?;
        let (constant_pool, p2) = parse_constant_pool(s, p1)?;
        let (access_flags, p3) = read_u16(s, p2)?;
        let (this_class, p4) = read_u16(s, p3)?;
        let (super_class, p5) = read_u16(s, p4)?;
        let (interfaces, p6) = self.parse_interfaces(s, p5)?;
        let (fields, p7) = self.parse_fields(s, p6, &constant_pool)?;
        let (methods, p8) = self.parse_methods(s, p7, &constant_pool)?;
        let (attributes, p9) = self.parse_class_file_attributes(s, p8, &constant_pool)?;
        proof {
            lemma_extend(s@, 0, p1 as int, p2 as int);
            lemma_extend(s@, 0, p2 as int, p3 as int);
            lemma_extend(s@, 0, p3 as int, p4 as int);
            lemma_extend(s@, 0, p4 as int, p5 as int);
            lemma_extend(s@, 0, p5 as int, p6 as int);
            lemma_extend(s@, 0, p6 as int, p7 as int);
            lemma_extend(s@, 0, p7 as int, p8 as int);
            lemma_extend(s@, 0, p8 as int, p9 as int);
        }
        self.constant_pool = constant_pool.duplicate();
        let class_file = ClassFile {
            header,
            constant_pool,
            access_flags,
            this_class,
            super_class,
            interfaces,
            fields,
            methods,
            attributes,
        };
        Ok((class_file, p9))
    }
}

/// Decodes a whole buffer as one class file: trailing bytes are an error.
pub fn parse_all(s: &[u8]) -> (r: Result<ClassFile, DecodeError>)
    ensures
        r matches Ok(cf) ==> s@ == cf.wire() && cf.valid(),
        s@.len() >= 4 && !starts_with_magic(s@) ==> r == Err::<ClassFile, DecodeError>(
            DecodeError::MagicMismatch,
        ),
        s@.len() < 4 ==> r == Err::<ClassFile, DecodeError>(DecodeError::InsufficientBytes),
        r is Ok <==> class_outcome(s@) == Ok::<int, DecodeError>(s@.len() as int),
        class_outcome(s@) matches Ok(end) && end < s@.len() ==> r == Err::<ClassFile, DecodeError>(
            DecodeError::TrailingBytes,
        ),
        class_outcome(s@) matches Err(e) ==> r == Err::<ClassFile, DecodeError>(e),
        r == Err::<ClassFile, DecodeError>(DecodeError::TrailingBytes) ==> exists|cf: ClassFile, n: int|
            0 <= n < s@.len() && #[trigger] is_layout_of(s@.subrange(0, n), cf),
{
    let mut parser = ClassFileParser::new();
    let (class_file, end) = parser.parse(s)?;
    if end < s.len() {
        assert(is_layout_of(s@.subrange(0, end as int), class_file));
        return Err(DecodeError::TrailingBytes);
    }
    proof { assert(s@.subrange(0, end as int) =~= s@); }
    Ok(class_file)
}

} // verus!

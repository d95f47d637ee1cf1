//! The five attribute families and the dispatch from a resolved name to
//! the layout of that attribute.

use vstd::prelude::*;
use vstd::string::StringSliceAdditionalSpecFns;
use crate::attribute::{lemma_cut_counted, lemma_cut_body, lemma_cut_body8, lemma_cut_empty_body, lemma_cut_module, counted_outcome, body_outcome, body8_outcome, empty_body_outcome, module_outcome, SourceFileAttribute, SignatureAttribute, ConstantValueAttribute, ModuleMainClassAttribute, NestHostAttribute, ExceptionsAttribute, ModulePackagesAttribute, NestMembersAttribute, PermittedSubclassesAttribute, LineNumberTableAttribute, LocalVariableTableAttribute, LocalVariableTypeTableAttribute, InnerClassesAttribute, BootstrapMethodsAttribute, StackMapTableAttribute, RuntimeVisibleAnnotationsAttribute, RuntimeInvisibleAnnotationsAttribute, RuntimeVisibleTypeAnnotationsAttribute, RuntimeInvisibleTypeAnnotationsAttribute, MethodParametersAttribute, RuntimeVisibleParameterAnnotationsAttribute, RuntimeInvisibleParameterAnnotationsAttribute, SyntheticAttribute, DeprecatedAttribute, SourceDebugExtensionAttribute, EnclosingMethodAttribute, AnnotationDefaultAttribute, ModuleAttribute};
use crate::bytes::{Wire, need, follows, clamp, stable_under_cut, lemma_cut_need, decode_list, be16, be32, u16_at_spec, u32_at_spec, wire_seq, decoded_from, lemma_extend, lemma_wire_seq_push, read_u16, read_u32, read_bytes};
use crate::annotation::{Annotation, ParameterAnnotation, TypeAnnotation, element_value_outcome, lemma_cut_element_value};
use crate::constant_pool::ConstantPool;
use crate::error::{DecodeError, no_trailing};
use crate::instructions::{CodeByte, decode_code, tiles_from, stream_outcome, lemma_tiles_decode, start_of, operand_length, opcode_name, opcode_stack};
use crate::records::{BootstrapMethod, ClassesInfo, ExceptionTableEntry, LineNumberTableEntry, LocalVariableTableEntry, LocalVariableTypeTableEntry, MethodParameter};
use crate::stack_map::StackMapFrame;

verus! {

/// The two byte strings are equal.
pub fn bytes_equal(a: &[u8], b: &[u8]) -> (r: bool)
    ensures
        r == (a@ == b@),
{
    if a.len() != b.len() {
        return false;
    }
    let mut i: usize = 0;
    while i < a.len()
        invariant
            i <= a@.len() == b@.len(),
            a@.subrange(0, i as int) == b@.subrange(0, i as int),
        decreases a@.len() - i,
    {
        if a[i] != b[i] {
            assert(a@.subrange(0, i as int + 1)[i as int] != b@.subrange(0, i as int + 1)[i as int]);
            return false;
        }
        assert(a@.subrange(0, i as int + 1) =~= a@.subrange(0, i as int).push(a@[i as int]));
        assert(b@.subrange(0, i as int + 1) =~= b@.subrange(0, i as int).push(b@[i as int]));
        i = i + 1;
    }
    assert(a@ =~= a@.subrange(0, i as int));
    assert(b@ =~= b@.subrange(0, i as int));
    true
}

/// The bytes spell the UTF-8 encoding of `lit`.
pub fn name_is(name: &[u8], lit: &str) -> (r: bool)
    ensures
        r == (name@ == lit.spec_bytes()),
{
    bytes_equal(name, lit.as_bytes())
}

/// A family of attributes, each variant selected by its name.
pub trait AttributeKind: Wire + Sized {
    spec fn name_index(&self) -> u16;

    /// The name that selects the variant.
    spec fn spec_name(&self) -> Seq<u8>;

    /// The names that this family knows.
    spec fn known_name(n: Seq<u8>) -> bool;

    spec fn valid_in(&self, pool: ConstantPool) -> bool;

    /// Where the body of the attribute named `name` that starts at `pos`
    /// ends, or why there is none; `names` resolves name indices.
    spec fn outcome_named(s: Seq<u8>, pos: int, name: Seq<u8>, names: spec_fn(u16) -> Option<Seq<u8>>) -> Result<int, DecodeError>;

    proof fn lemma_cut_named(s: Seq<u8>, pos: int, name: Seq<u8>, names: spec_fn(u16) -> Option<Seq<u8>>, k: int)
        requires
            0 <= pos <= k <= s.len(),
        ensures
            stable_under_cut(
                Self::outcome_named(s, pos, name, names),
                Self::outcome_named(s.take(k), pos, name, names),
                pos,
                k,
                s.len(),
            ),
    ;

    /// A name this family does not know fails with `UnknownAttributeName`.
    proof fn lemma_unknown_named(s: Seq<u8>, pos: int, name: Seq<u8>, names: spec_fn(u16) -> Option<Seq<u8>>)
        requires
            !Self::known_name(name),
        ensures
            Self::outcome_named(s, pos, name, names) == Err::<int, DecodeError>(DecodeError::UnknownAttributeName),
    ;

    fn parse_named(s: &[u8], pos: usize, name: &[u8], index: u16, pool: &ConstantPool) -> (r: Result<(Self, usize), DecodeError>)
        requires
            pos <= s@.len(),
        ensures
            no_trailing(r),
            r matches Ok((x, end)) ==> pos <= end <= s@.len() && be16(index) + s@.subrange(
                pos as int,
                end as int,
            ) == x.wire() && x.name_index() == index && x.spec_name() == name@ && x.valid_in(*pool),
            !Self::known_name(name@) ==> r == Err::<(Self, usize), DecodeError>(
                DecodeError::UnknownAttributeName,
            ),
            follows(r, Self::outcome_named(s@, pos as int, name@, pool.names())),
    ;
}

/// Every attribute's name index resolves in the pool to the name of its
/// variant, and each is well formed.
pub open spec fn resolved_in<T: AttributeKind>(items: Seq<T>, pool: ConstantPool) -> bool {
    forall|i: int|
        0 <= i < items.len() ==> pool.utf8_at(#[trigger] items[i].name_index()) == Some(
            items[i].spec_name(),
        ) && items[i].valid_in(pool)
}

/// Outcome of one attribute of family `T` at `pos`: its name index must
/// resolve, then the body that the name selects.
pub open spec fn attr_outcome<T: AttributeKind>(s: Seq<u8>, pos: int, names: spec_fn(u16) -> Option<Seq<u8>>) -> Result<int, DecodeError> {
    match need(s, pos, 2) {
        Err(e) => Err(e),
        Ok(p) => match names(u16_at_spec(s, pos)) {
            None => Err(DecodeError::InvalidConstantIndex),
            Some(n) => T::outcome_named(s, p, n, names),
        },
    }
}

/// Outcome of `n` attributes of family `T` at `pos`.
pub open spec fn attr_list_outcome<T: AttributeKind>(s: Seq<u8>, pos: int, n: nat, names: spec_fn(u16) -> Option<Seq<u8>>) -> Result<int, DecodeError>
    decreases n,
{
    if n == 0 {
        Ok(pos)
    } else {
        match attr_outcome::<T>(s, pos, names) {
            Ok(p) => attr_list_outcome::<T>(s, p, (n - 1) as nat, names),
            Err(e) => Err(e),
        }
    }
}

/// Outcome of a 16-bit count and that many attributes of family `T`.
pub open spec fn counted_attrs<T: AttributeKind>(s: Seq<u8>, pos: int, names: spec_fn(u16) -> Option<Seq<u8>>) -> Result<int, DecodeError> {
    match need(s, pos, 2) {
        Ok(p) => attr_list_outcome::<T>(s, p, u16_at_spec(s, pos) as nat, names),
        Err(e) => Err(e),
    }
}

/// Outcome of a Code attribute body.
pub open spec fn code_outcome(s: Seq<u8>, pos: int, names: spec_fn(u16) -> Option<Seq<u8>>) -> Result<int, DecodeError> {
    match need(s, pos, 12) {
        Err(e) => Err(e),
        Ok(p4) => {
            let len = u32_at_spec(s, pos + 8) as int;
            if p4 + len > s.len() {
                Err(DecodeError::InsufficientBytes)
            } else {
                match stream_outcome(s.subrange(p4, p4 + len), 0) {
                    Err(e) => Err(e),
                    Ok(_) => match counted_outcome::<ExceptionTableEntry>(s, p4 + len) {
                        Err(e) => Err(e),
                        Ok(p7) => counted_attrs::<CodeNestedAttribute>(s, p7, names),
                    },
                }
            }
        },
    }
}

/// A Code body whose `code_length` bytes are covered by whole
/// instructions, and whose exception table and nested attributes decode,
/// decodes, ending where the nested attributes end: the instruction stream
/// consumes exactly `code_length` bytes.
pub proof fn lemma_code_body_decodes(s: Seq<u8>, pos: int, names: spec_fn(u16) -> Option<Seq<u8>>, p7: int, end: int)
    requires
        0 <= pos,
        pos + 12 + u32_at_spec(s, pos + 8) <= s.len(),
        tiles_from(s.subrange(pos + 12, pos + 12 + u32_at_spec(s, pos + 8)), 0),
        counted_outcome::<ExceptionTableEntry>(s, pos + 12 + u32_at_spec(s, pos + 8)) == Ok::<int, DecodeError>(p7),
        counted_attrs::<CodeNestedAttribute>(s, p7, names) == Ok::<int, DecodeError>(end),
    ensures
        code_outcome(s, pos, names) == Ok::<int, DecodeError>(end),
{
    lemma_tiles_decode(s.subrange(pos + 12, pos + 12 + u32_at_spec(s, pos + 8)), 0);
}

/// Outcome of one record component at `pos`.
pub open spec fn component_outcome(s: Seq<u8>, pos: int, names: spec_fn(u16) -> Option<Seq<u8>>) -> Result<int, DecodeError> {
    match need(s, pos, 4) {
        Ok(p) => counted_attrs::<RecordComponentInfoAttribute>(s, p, names),
        Err(e) => Err(e),
    }
}

/// Outcome of `n` record components at `pos`.
pub open spec fn components_outcome(s: Seq<u8>, pos: int, n: nat, names: spec_fn(u16) -> Option<Seq<u8>>) -> Result<int, DecodeError>
    decreases n,
{
    if n == 0 {
        Ok(pos)
    } else {
        match component_outcome(s, pos, names) {
            Ok(p) => components_outcome(s, p, (n - 1) as nat, names),
            Err(e) => Err(e),
        }
    }
}

/// Outcome of a Record attribute body.
pub open spec fn record_outcome(s: Seq<u8>, pos: int, names: spec_fn(u16) -> Option<Seq<u8>>) -> Result<int, DecodeError> {
    match need(s, pos, 6) {
        Ok(p) => components_outcome(s, p, u16_at_spec(s, pos + 4) as nat, names),
        Err(e) => Err(e),
    }
}

pub proof fn lemma_cut_attr<T: AttributeKind>(s: Seq<u8>, pos: int, names: spec_fn(u16) -> Option<Seq<u8>>, k: int)
    requires
        0 <= pos <= k <= s.len(),
    ensures
        stable_under_cut(attr_outcome::<T>(s, pos, names), attr_outcome::<T>(s.take(k), pos, names), pos, k, s.len()),
{
    lemma_cut_need(s, pos, 2, k);
    if pos + 2 <= s.len() {
        if let Some(n) = names(u16_at_spec(s, pos)) {
            T::lemma_cut_named(s, pos + 2, n, names, clamp(pos + 2, k));
        }
    }
}

pub proof fn lemma_cut_attr_list<T: AttributeKind>(s: Seq<u8>, pos: int, n: nat, names: spec_fn(u16) -> Option<Seq<u8>>, k: int)
    requires
        0 <= pos <= k <= s.len(),
    ensures
        stable_under_cut(
            attr_list_outcome::<T>(s, pos, n, names),
            attr_list_outcome::<T>(s.take(k), pos, n, names),
            pos,
            k,
            s.len(),
        ),
    decreases n,
{
    if n > 0 {
        lemma_cut_attr::<T>(s, pos, names, k);
        if let Ok(p) = attr_outcome::<T>(s, pos, names) {
            lemma_cut_attr_list::<T>(s, p, (n - 1) as nat, names, clamp(p, k));
        }
    }
}

pub proof fn lemma_cut_counted_attrs<T: AttributeKind>(s: Seq<u8>, pos: int, names: spec_fn(u16) -> Option<Seq<u8>>, k: int)
    requires
        0 <= pos <= k <= s.len(),
    ensures
        stable_under_cut(counted_attrs::<T>(s, pos, names), counted_attrs::<T>(s.take(k), pos, names), pos, k, s.len()),
{
    lemma_cut_need(s, pos, 2, k);
    if pos + 2 <= s.len() {
        lemma_cut_attr_list::<T>(s, pos + 2, u16_at_spec(s, pos) as nat, names, clamp(pos + 2, k));
    }
}

pub proof fn lemma_cut_code(s: Seq<u8>, pos: int, names: spec_fn(u16) -> Option<Seq<u8>>, k: int)
    requires
        0 <= pos <= k <= s.len(),
    ensures
        stable_under_cut(code_outcome(s, pos, names), code_outcome(s.take(k), pos, names), pos, k, s.len()),
{
    lemma_cut_need(s, pos, 12, k);
    if pos + 12 <= s.len() {
        let p4 = pos + 12;
        let len = u32_at_spec(s, pos + 8) as int;
        if p4 + len <= s.len() {
            if p4 + len <= k {
                assert(u32_at_spec(s.take(k), pos + 8) == u32_at_spec(s, pos + 8));
                assert(s.take(k).subrange(p4, p4 + len) =~= s.subrange(p4, p4 + len));
            } else if pos + 12 <= k {
                assert(u32_at_spec(s.take(k), pos + 8) == u32_at_spec(s, pos + 8));
            }
            lemma_cut_counted::<ExceptionTableEntry>(s, p4 + len, clamp(p4 + len, k));
            if let Ok(p7) = counted_outcome::<ExceptionTableEntry>(s, p4 + len) {
                lemma_cut_counted_attrs::<CodeNestedAttribute>(s, p7, names, clamp(p7, k));
            }
        }
    }
}

pub proof fn lemma_cut_component(s: Seq<u8>, pos: int, names: spec_fn(u16) -> Option<Seq<u8>>, k: int)
    requires
        0 <= pos <= k <= s.len(),
    ensures
        stable_under_cut(component_outcome(s, pos, names), component_outcome(s.take(k), pos, names), pos, k, s.len()),
{
    lemma_cut_need(s, pos, 4, k);
    if pos + 4 <= s.len() {
        lemma_cut_counted_attrs::<RecordComponentInfoAttribute>(s, pos + 4, names, clamp(pos + 4, k));
    }
}

pub proof fn lemma_cut_components(s: Seq<u8>, pos: int, n: nat, names: spec_fn(u16) -> Option<Seq<u8>>, k: int)
    requires
        0 <= pos <= k <= s.len(),
    ensures
        stable_under_cut(
            components_outcome(s, pos, n, names),
            components_outcome(s.take(k), pos, n, names),
            pos,
            k,
            s.len(),
        ),
    decreases n,
{
    if n > 0 {
        lemma_cut_component(s, pos, names, k);
        if let Ok(p) = component_outcome(s, pos, names) {
            lemma_cut_components(s, p, (n - 1) as nat, names, clamp(p, k));
        }
    }
}

pub proof fn lemma_cut_record(s: Seq<u8>, pos: int, names: spec_fn(u16) -> Option<Seq<u8>>, k: int)
    requires
        0 <= pos <= k <= s.len(),
    ensures
        stable_under_cut(record_outcome(s, pos, names), record_outcome(s.take(k), pos, names), pos, k, s.len()),
{
    lemma_cut_need(s, pos, 6, k);
    if pos + 6 <= s.len() {
        lemma_cut_components(s, pos + 6, u16_at_spec(s, pos + 4) as nat, names, clamp(pos + 6, k));
    }
}

/// In a run of `n` attributes, attribute `j` whose name index resolves to a
/// name the family does not know makes the whole run fail with
/// `UnknownAttributeName`, once the `j` attributes before it decode.
pub proof fn lemma_unknown_in_list<T: AttributeKind>(
    s: Seq<u8>,
    pos: int,
    n: nat,
    names: spec_fn(u16) -> Option<Seq<u8>>,
    j: nat,
    pj: int,
)
    requires
        j < n,
        attr_list_outcome::<T>(s, pos, j, names) == Ok::<int, DecodeError>(pj),
        pj + 2 <= s.len(),
        names(u16_at_spec(s, pj)) is Some,
        !T::known_name(names(u16_at_spec(s, pj))->0),
    ensures
        attr_list_outcome::<T>(s, pos, n, names) == Err::<int, DecodeError>(DecodeError::UnknownAttributeName),
    decreases j,
{
    if j == 0 {
        T::lemma_unknown_named(s, pj + 2, names(u16_at_spec(s, pj))->0, names);
    } else {
        let p = attr_outcome::<T>(s, pos, names)->Ok_0;
        lemma_unknown_in_list::<T>(s, p, (n - 1) as nat, names, (j - 1) as nat, pj);
    }
}

/// In a run of `n` attributes, an error met by attribute `j`, once the `j`
/// attributes before it decode, is the error of the whole run.
pub proof fn lemma_error_in_list<T: AttributeKind>(
    s: Seq<u8>,
    pos: int,
    n: nat,
    names: spec_fn(u16) -> Option<Seq<u8>>,
    j: nat,
    pj: int,
    e: DecodeError,
)
    requires
        j < n,
        attr_list_outcome::<T>(s, pos, j, names) == Ok::<int, DecodeError>(pj),
        attr_outcome::<T>(s, pj, names) == Err::<int, DecodeError>(e),
    ensures
        attr_list_outcome::<T>(s, pos, n, names) == Err::<int, DecodeError>(e),
    decreases j,
{
    if j > 0 {
        let p = attr_outcome::<T>(s, pos, names)->Ok_0;
        lemma_error_in_list::<T>(s, p, (n - 1) as nat, names, (j - 1) as nat, pj, e);
    }
}

/// The same for a counted run of attributes at `pos`.
pub proof fn lemma_error_in_counted<T: AttributeKind>(
    s: Seq<u8>,
    pos: int,
    names: spec_fn(u16) -> Option<Seq<u8>>,
    j: nat,
    pj: int,
    e: DecodeError,
)
    requires
        pos + 2 <= s.len(),
        j < u16_at_spec(s, pos),
        attr_list_outcome::<T>(s, pos + 2, j, names) == Ok::<int, DecodeError>(pj),
        attr_outcome::<T>(s, pj, names) == Err::<int, DecodeError>(e),
    ensures
        counted_attrs::<T>(s, pos, names) == Err::<int, DecodeError>(e),
{
    lemma_error_in_list::<T>(s, pos + 2, u16_at_spec(s, pos) as nat, names, j, pj, e);
}

/// The same for a counted run of attributes at `pos`.
pub proof fn lemma_unknown_in_counted<T: AttributeKind>(
    s: Seq<u8>,
    pos: int,
    names: spec_fn(u16) -> Option<Seq<u8>>,
    j: nat,
    pj: int,
)
    requires
        pos + 2 <= s.len(),
        j < u16_at_spec(s, pos),
        attr_list_outcome::<T>(s, pos + 2, j, names) == Ok::<int, DecodeError>(pj),
        pj + 2 <= s.len(),
        names(u16_at_spec(s, pj)) is Some,
        !T::known_name(names(u16_at_spec(s, pj))->0),
    ensures
        counted_attrs::<T>(s, pos, names) == Err::<int, DecodeError>(DecodeError::UnknownAttributeName),
{
    lemma_unknown_in_list::<T>(s, pos + 2, u16_at_spec(s, pos) as nat, names, j, pj);
}

/// Inside a Code attribute whose instructions and exception table decode,
/// a nested attribute with a name unknown inside Code makes the Code
/// attribute fail with `UnknownAttributeName`.
pub proof fn lemma_unknown_in_code(
    s: Seq<u8>,
    pos: int,
    names: spec_fn(u16) -> Option<Seq<u8>>,
    p7: int,
    j: nat,
    pj: int,
)
    requires
        pos + 12 <= s.len(),
        pos + 12 + u32_at_spec(s, pos + 8) <= s.len(),
        stream_outcome(s.subrange(pos + 12, pos + 12 + u32_at_spec(s, pos + 8)), 0) is Ok,
        counted_outcome::<ExceptionTableEntry>(s, pos + 12 + u32_at_spec(s, pos + 8)) == Ok::<int, DecodeError>(p7),
        p7 + 2 <= s.len(),
        j < u16_at_spec(s, p7),
        attr_list_outcome::<CodeNestedAttribute>(s, p7 + 2, j, names) == Ok::<int, DecodeError>(pj),
        pj + 2 <= s.len(),
        names(u16_at_spec(s, pj)) is Some,
        !is_code_nested_attribute_name(names(u16_at_spec(s, pj))->0),
    ensures
        code_outcome(s, pos, names) == Err::<int, DecodeError>(DecodeError::UnknownAttributeName),
{
    lemma_unknown_in_counted::<CodeNestedAttribute>(s, p7, names, j, pj);
}

/// Decodes one attribute: a name index, resolved in `pool` to a Utf8
/// record, then the layout that the name selects.
pub fn parse_attribute<T: AttributeKind>(s: &[u8], pos: usize, pool: &ConstantPool) -> (r: Result<(T, usize), DecodeError>)
    requires
        pos <= s@.len(),
    ensures
        decoded_from(s@, pos as int, r),
        r matches Ok((x, _)) ==> pool.utf8_at(x.name_index()) == Some(x.spec_name()) && x.valid_in(
            *pool,
        ),
        pos + 2 <= s@.len() && pool.utf8_at(u16_at_spec(s@, pos as int)) is None ==> r == Err::<
            (T, usize),
            DecodeError,
        >(DecodeError::InvalidConstantIndex),
        pos + 2 <= s@.len() ==> (pool.utf8_at(u16_at_spec(s@, pos as int)) matches Some(n)
            && !T::known_name(n) ==> r == Err::<(T, usize), DecodeError>(
            DecodeError::UnknownAttributeName,
        )),
        follows(r, attr_outcome::<T>(s@, pos as int, pool.names())),
{
    let (index, p1) = read_u16(s, pos)?;
    let name = pool.utf8_bytes(index)?;
    let (x, p2) = T::parse_named(s, p1, name.as_slice(), index, pool)?;
    proof { lemma_extend(s@, pos as int, p1 as int, p2 as int); }
    Ok((x, p2))
}

/// Decodes `n` attributes of one family, one after the other.
pub fn parse_attribute_list<T: AttributeKind>(s: &[u8], pos: usize, n: usize, pool: &ConstantPool) -> (r: Result<(Vec<T>, usize), DecodeError>)
    requires
        pos <= s@.len(),
    ensures
        no_trailing(r),
        r matches Ok((v, end)) ==> v@.len() == n && pos <= end <= s@.len() && s@.subrange(
            pos as int,
            end as int,
        ) == wire_seq(v@) && resolved_in(v@, *pool),
        follows(r, attr_list_outcome::<T>(s@, pos as int, n as nat, pool.names())),
{
    let mut out: Vec<T> = Vec::new();
    let mut p: usize = pos;
    let mut i: usize = 0;
    while i < n
        invariant
            i <= n,
            pos <= p <= s@.len(),
            out@.len() == i,
            s@.subrange(pos as int, p as int) == wire_seq(out@),
            resolved_in(out@, *pool),
            attr_list_outcome::<T>(s@, pos as int, n as nat, pool.names()) == attr_list_outcome::<T>(s@, p as int, (n - i) as nat, pool.names()),
        decreases n - i,
    {
        let (x, q) = parse_attribute::<T>(s, p, pool)?;
        proof {
            lemma_extend(s@, pos as int, p as int, q as int);
            lemma_wire_seq_push(out@, x);
            assert(out@.push(x)[i as int] == x);
        }
        out.push(x);
        p = q;
        i = i + 1;
    }
    proof {
        if out@.len() == 0 {
            assert(s@.subrange(pos as int, p as int) =~= Seq::empty());
        }
    }
    Ok((out, p))
}

/// Sum of the encoded lengths of a run of instructions.
pub open spec fn total_length(code: Seq<CodeByte>) -> int
    decreases code.len(),
{
    if code.len() == 0 {
        0
    } else {
        total_length(code.drop_last()) + code.last().length
    }
}

/// With each instruction's length counting its opcode and operands, the
/// lengths add up to the size of the layout of the instructions.
pub proof fn lemma_total_length(code: Seq<CodeByte>)
    requires
        forall|i: int| 0 <= i < code.len() ==> #[trigger] code[i].length == 1 + code[i].data@.len(),
    ensures
        total_length(code) == wire_seq(code).len(),
    decreases code.len(),
{
    if code.len() > 0 {
        let rest = code.drop_last();
        assert forall|i: int| 0 <= i < rest.len() implies #[trigger] rest[i].length == 1 + rest[i].data@.len() by {
            assert(rest[i] == code[i]);
        }
        lemma_total_length(rest);
    }
}

/// Decoding a Code attribute's instruction stream consumes exactly
/// `code_length` bytes: the lengths of the decoded instructions add up to
/// `code_length`.
pub proof fn lemma_code_lengths_add_up(attr: CodeAttribute, pool: ConstantPool)
    requires
        attr.valid_in(pool),
    ensures
        total_length(attr.code@) == attr.code_length,
{
    lemma_total_length(attr.code@);
}

#[derive(Debug)]
pub struct CodeAttribute {
    pub attribute_name_index: u16,
    pub attribute_length: u32,
    pub max_stack: u16,
    pub max_locals: u16,
    pub code_length: u32,
    pub code: Vec<CodeByte>,
    pub exception_table_length: u16,
    pub exception_table: Vec<ExceptionTableEntry>,
    pub attributes_count: u16,
    pub attributes: CodeAttributes,
}

impl Wire for CodeAttribute {
    open spec fn wire(&self) -> Seq<u8> {
        be32(self.attribute_length) + be16(self.max_stack) + be16(self.max_locals) + be32(
            self.code_length,
        ) + wire_seq(self.code@) + be16(self.exception_table_length) + wire_seq(
            self.exception_table@,
        ) + self.attributes.wire()
    }
}

impl CodeAttribute {
    /// The instructions cover exactly `code_length` bytes; each starts where
    /// the one before ends, has the length that its operands give, and
    /// carries the mnemonic and stack text of its opcode; counts agree with
    /// lists; nested attribute names resolve.
    pub open spec fn valid_in(&self, pool: ConstantPool) -> bool {
        &&& wire_seq(self.code@).len() == self.code_length
        &&& tiles_from(wire_seq(self.code@), 0)
        &&& forall|i: int| 0 <= i < self.code@.len() ==> #[trigger] self.code@[i].length == 1 + self.code@[i].data@.len()
        &&& forall|i: int|
            0 <= i < self.code@.len() ==> {
                &&& #[trigger] self.code@[i].opcode == wire_seq(self.code@)[start_of(self.code@, i)]
                &&& self.code@[i].length == 1 + operand_length(wire_seq(self.code@), start_of(self.code@, i))
                &&& self.code@[i].name@ == opcode_name(self.code@[i].opcode)
                &&& self.code@[i].stack_behavior@ == opcode_stack(self.code@[i].opcode)
            }
        &&& self.exception_table_length == self.exception_table@.len()
        &&& self.attributes_count == self.attributes.attributes_count
        &&& self.attributes.valid_in(pool)
    }

    /// Decodes the body of a Code attribute: limits, the instruction
    /// stream of `code_length` bytes, the exception table and the nested
    /// attributes.
    #[verifier::rlimit(40)]
    pub fn parse(s: &[u8], pos: usize, index: u16, pool: &ConstantPool) -> (r: Result<(CodeAttribute, usize), DecodeError>)
        requires
            pos <= s@.len(),
        ensures
            decoded_from(s@, pos as int, r),
            r matches Ok((x, _)) ==> x.attribute_name_index == index && x.valid_in(*pool),
            follows(r, code_outcome(s@, pos as int, pool.names())),
    {
        let (attribute_length, p1) = read_u32(s, pos)?;
        let (max_stack, p2) = read_u16(s, p1)?;
        let (max_locals, p3) = read_u16(s, p2)?;
        let (code_length, p4) = read_u32(s, p3)?;
        if code_length as u64 > (s.len() - p4) as u64 {
            return Err(DecodeError::InsufficientBytes);
        }
        let (code_bytes, p5) = read_bytes(s, p4, code_length as usize)?;
        let code = decode_code(code_bytes.as_slice())?;
        assert(code_outcome(s@, pos as int, pool.names()) == match counted_outcome::<ExceptionTableEntry>(s@, p5 as int) {
            Err(e) => Err(e),
            Ok(p7) => counted_attrs::<CodeNestedAttribute>(s@, p7, pool.names()),
        });
        let (exception_table_length, p6) = read_u16(s, p5)?;
        let (exception_table, p7) = decode_list::<ExceptionTableEntry>(s, p6, exception_table_length as usize)?;
        let (attributes, p8) = CodeAttributes::parse(s, p7, pool)?;
        proof {
            lemma_extend(s@, pos as int, p1 as int, p2 as int);
            lemma_extend(s@, pos as int, p2 as int, p3 as int);
            lemma_extend(s@, pos as int, p3 as int, p4 as int);
            lemma_extend(s@, pos as int, p4 as int, p5 as int);
            lemma_extend(s@, pos as int, p5 as int, p6 as int);
            lemma_extend(s@, pos as int, p6 as int, p7 as int);
            lemma_extend(s@, pos as int, p7 as int, p8 as int);
        }
        let attributes_count = attributes.attributes_count;
        let x = CodeAttribute {
            attribute_name_index: index,
            attribute_length,
            max_stack,
            max_locals,
            code_length,
            code,
            exception_table_length,
            exception_table,
            attributes_count,
            attributes,
        };
        Ok((x, p8))
    }
}

#[derive(Debug)]
pub struct RecordComponentInfo {
    pub name_index: u16,
    pub descriptor_index: u16,
    pub attributes: RecordComponentInfoAttributes,
}

impl Wire for RecordComponentInfo {
    open spec fn wire(&self) -> Seq<u8> {
        be16(self.name_index) + be16(self.descriptor_index) + self.attributes.wire()
    }
}

impl RecordComponentInfo {
    /// Decodes a name index, a descriptor index and the component's attributes.
    pub fn parse(s: &[u8], pos: usize, pool: &ConstantPool) -> (r: Result<(RecordComponentInfo, usize), DecodeError>)
        requires
            pos <= s@.len(),
        ensures
            decoded_from(s@, pos as int, r),
            r matches Ok((x, _)) ==> x.attributes.valid_in(*pool),
            follows(r, component_outcome(s@, pos as int, pool.names())),
    {
        let (name_index, p1) = read_u16(s, pos)?;
        let (descriptor_index, p2) = read_u16(s, p1)?;
        let (attributes, p3) = RecordComponentInfoAttributes::parse(s, p2, pool)?;
        proof {
            lemma_extend(s@, pos as int, p1 as int, p2 as int);
            lemma_extend(s@, pos as int, p2 as int, p3 as int);
        }
        Ok((RecordComponentInfo { name_index, descriptor_index, attributes }, p3))
    }
}

#[derive(Debug)]
pub struct RecordAttribute {
    pub attribute_name_index: u16,
    pub attribute_length: u32,
    pub record_components_count: u16,
    pub record_components: Vec<RecordComponentInfo>,
}

impl Wire for RecordAttribute {
    open spec fn wire(&self) -> Seq<u8> {
        be32(self.attribute_length) + be16(self.record_components_count) + wire_seq(
            self.record_components@,
        )
    }
}

impl RecordAttribute {
    pub open spec fn valid_in(&self, pool: ConstantPool) -> bool {
        &&& self.record_components_count == self.record_components@.len()
        &&& forall|i: int|
            0 <= i < self.record_components@.len() ==> #[trigger] self.record_components@[i].attributes.valid_in(pool)
    }

    /// Decodes the body of a Record attribute: the count and the components.
    pub fn parse(s: &[u8], pos: usize, index: u16, pool: &ConstantPool) -> (r: Result<(RecordAttribute, usize), DecodeError>)
        requires
            pos <= s@.len(),
        ensures
            decoded_from(s@, pos as int, r),
            r matches Ok((x, _)) ==> x.attribute_name_index == index && x.valid_in(*pool),
            follows(r, record_outcome(s@, pos as int, pool.names())),
    {
        let (attribute_length, p1) = read_u32(s, pos)?;
        let (count, p2) = read_u16(s, p1)?;
        proof { lemma_extend(s@, pos as int, p1 as int, p2 as int); }
        let mut components: Vec<RecordComponentInfo> = Vec::new();
        let mut p = p2;
        let mut i: u16 = 0;
        while i < count
            invariant
                i <= count,
                pos <= p2 <= p <= s@.len(),
                components@.len() == i,
                s@.subrange(p2 as int, p as int) == wire_seq(components@),
                forall|k: int| 0 <= k < components@.len() ==> #[trigger] components@[k].attributes.valid_in(*pool),
                record_outcome(s@, pos as int, pool.names()) == components_outcome(s@, p as int, (count - i) as nat, pool.names()),
            decreases count - i,
        {
            let (c, q) = RecordComponentInfo::parse(s, p, pool)?;
            proof {
                lemma_extend(s@, p2 as int, p as int, q as int);
                lemma_wire_seq_push(components@, c);
            }
            components.push(c);
            p = q;
            i = i + 1;
        }
        proof {
            lemma_extend(s@, pos as int, p2 as int, p as int);
            if components@.len() == 0 {
                assert(s@.subrange(p2 as int, p as int) =~= Seq::empty());
            }
        }
        let x = RecordAttribute {
            attribute_name_index: index,
            attribute_length,
            record_components_count: count,
            record_components: components,
        };
        Ok((x, p))
    }
}

/// The attributes that may appear on a class.
#[derive(Debug)]
pub enum ClassFileAttribute {
    SourceFile(SourceFileAttribute),
    SourceDebugExtension(SourceDebugExtensionAttribute),
    LineNumberTable(LineNumberTableAttribute),
    InnerClasses(InnerClassesAttribute),
    EnclosingMethod(EnclosingMethodAttribute),
    BootstrapMethods(BootstrapMethodsAttribute),
    Module(ModuleAttribute),
    ModulePackages(ModulePackagesAttribute),
    ModuleMainClass(ModuleMainClassAttribute),
    NestHost(NestHostAttribute),
    NestMembers(NestMembersAttribute),
    Record(RecordAttribute),
    PermittedSubclasses(PermittedSubclassesAttribute),
    RuntimeVisibleAnnotations(RuntimeVisibleAnnotationsAttribute),
    RuntimeInvisibleAnnotations(RuntimeInvisibleAnnotationsAttribute),
    RuntimeVisibleTypeAnnotations(RuntimeVisibleTypeAnnotationsAttribute),
    RuntimeInvisibleTypeAnnotations(RuntimeInvisibleTypeAnnotationsAttribute),
    Synthetic(SyntheticAttribute),
    Deprecated(DeprecatedAttribute),
    Signature(SignatureAttribute),
}

/// Names of the attributes known on a class.
pub open spec fn is_class_file_attribute_name(n: Seq<u8>) -> bool {
    n == "SourceFile".spec_bytes()
        || n == "SourceDebugExtension".spec_bytes()
        || n == "LineNumberTable".spec_bytes()
        || n == "InnerClasses".spec_bytes()
        || n == "EnclosingMethod".spec_bytes()
        || n == "BootstrapMethods".spec_bytes()
        || n == "Module".spec_bytes()
        || n == "ModulePackages".spec_bytes()
        || n == "ModuleMainClass".spec_bytes()
        || n == "NestHost".spec_bytes()
        || n == "NestMembers".spec_bytes()
        || n == "Record".spec_bytes()
        || n == "PermittedSubclasses".spec_bytes()
        || n == "RuntimeVisibleAnnotations".spec_bytes()
        || n == "RuntimeInvisibleAnnotations".spec_bytes()
        || n == "RuntimeVisibleTypeAnnotations".spec_bytes()
        || n == "RuntimeInvisibleTypeAnnotations".spec_bytes()
        || n == "Synthetic".spec_bytes()
        || n == "Deprecated".spec_bytes()
        || n == "Signature".spec_bytes()
}

impl ClassFileAttribute {
    pub open spec fn name_index(&self) -> u16 {
        match self {
            ClassFileAttribute::SourceFile(a) => a.attribute_name_index,
            ClassFileAttribute::SourceDebugExtension(a) => a.attribute_name_index,
            ClassFileAttribute::LineNumberTable(a) => a.attribute_name_index,
            ClassFileAttribute::InnerClasses(a) => a.attribute_name_index,
            ClassFileAttribute::EnclosingMethod(a) => a.attribute_name_index,
            ClassFileAttribute::BootstrapMethods(a) => a.attribute_name_index,
            ClassFileAttribute::Module(a) => a.attribute_name_index,
            ClassFileAttribute::ModulePackages(a) => a.attribute_name_index,
            ClassFileAttribute::ModuleMainClass(a) => a.attribute_name_index,
            ClassFileAttribute::NestHost(a) => a.attribute_name_index,
            ClassFileAttribute::NestMembers(a) => a.attribute_name_index,
            ClassFileAttribute::Record(a) => a.attribute_name_index,
            ClassFileAttribute::PermittedSubclasses(a) => a.attribute_name_index,
            ClassFileAttribute::RuntimeVisibleAnnotations(a) => a.attribute_name_index,
            ClassFileAttribute::RuntimeInvisibleAnnotations(a) => a.attribute_name_index,
            ClassFileAttribute::RuntimeVisibleTypeAnnotations(a) => a.attribute_name_index,
            ClassFileAttribute::RuntimeInvisibleTypeAnnotations(a) => a.attribute_name_index,
            ClassFileAttribute::Synthetic(a) => a.attribute_name_index,
            ClassFileAttribute::Deprecated(a) => a.attribute_name_index,
            ClassFileAttribute::Signature(a) => a.attribute_name_index,
        }
    }

    /// The name that selects the variant.
    pub open spec fn spec_name(&self) -> Seq<u8> {
        match self {
            ClassFileAttribute::SourceFile(_) => "SourceFile".spec_bytes(),
            ClassFileAttribute::SourceDebugExtension(_) => "SourceDebugExtension".spec_bytes(),
            ClassFileAttribute::LineNumberTable(_) => "LineNumberTable".spec_bytes(),
            ClassFileAttribute::InnerClasses(_) => "InnerClasses".spec_bytes(),
            ClassFileAttribute::EnclosingMethod(_) => "EnclosingMethod".spec_bytes(),
            ClassFileAttribute::BootstrapMethods(_) => "BootstrapMethods".spec_bytes(),
            ClassFileAttribute::Module(_) => "Module".spec_bytes(),
            ClassFileAttribute::ModulePackages(_) => "ModulePackages".spec_bytes(),
            ClassFileAttribute::ModuleMainClass(_) => "ModuleMainClass".spec_bytes(),
            ClassFileAttribute::NestHost(_) => "NestHost".spec_bytes(),
            ClassFileAttribute::NestMembers(_) => "NestMembers".spec_bytes(),
            ClassFileAttribute::Record(_) => "Record".spec_bytes(),
            ClassFileAttribute::PermittedSubclasses(_) => "PermittedSubclasses".spec_bytes(),
            ClassFileAttribute::RuntimeVisibleAnnotations(_) => "RuntimeVisibleAnnotations".spec_bytes(),
            ClassFileAttribute::RuntimeInvisibleAnnotations(_) => "RuntimeInvisibleAnnotations".spec_bytes(),
            ClassFileAttribute::RuntimeVisibleTypeAnnotations(_) => "RuntimeVisibleTypeAnnotations".spec_bytes(),
            ClassFileAttribute::RuntimeInvisibleTypeAnnotations(_) => "RuntimeInvisibleTypeAnnotations".spec_bytes(),
            ClassFileAttribute::Synthetic(_) => "Synthetic".spec_bytes(),
            ClassFileAttribute::Deprecated(_) => "Deprecated".spec_bytes(),
            ClassFileAttribute::Signature(_) => "Signature".spec_bytes(),
        }
    }

    pub open spec fn valid_in(&self, pool: ConstantPool) -> bool {
        match self {
            ClassFileAttribute::SourceFile(a) => a.valid(),
            ClassFileAttribute::SourceDebugExtension(a) => a.valid(),
            ClassFileAttribute::LineNumberTable(a) => a.valid(),
            ClassFileAttribute::InnerClasses(a) => a.valid(),
            ClassFileAttribute::EnclosingMethod(a) => a.valid(),
            ClassFileAttribute::BootstrapMethods(a) => a.valid(),
            ClassFileAttribute::Module(a) => a.valid(),
            ClassFileAttribute::ModulePackages(a) => a.valid(),
            ClassFileAttribute::ModuleMainClass(a) => a.valid(),
            ClassFileAttribute::NestHost(a) => a.valid(),
            ClassFileAttribute::NestMembers(a) => a.valid(),
            ClassFileAttribute::Record(a) => a.valid_in(pool),
            ClassFileAttribute::PermittedSubclasses(a) => a.valid(),
            ClassFileAttribute::RuntimeVisibleAnnotations(a) => a.valid(),
            ClassFileAttribute::RuntimeInvisibleAnnotations(a) => a.valid(),
            ClassFileAttribute::RuntimeVisibleTypeAnnotations(a) => a.valid(),
            ClassFileAttribute::RuntimeInvisibleTypeAnnotations(a) => a.valid(),
            ClassFileAttribute::Synthetic(a) => a.valid(),
            ClassFileAttribute::Deprecated(a) => a.valid(),
            ClassFileAttribute::Signature(a) => a.valid(),
        }
    }

    /// The layout after the name index.
    pub open spec fn body_wire(&self) -> Seq<u8> {
        match self {
            ClassFileAttribute::SourceFile(a) => a.wire(),
            ClassFileAttribute::SourceDebugExtension(a) => a.wire(),
            ClassFileAttribute::LineNumberTable(a) => a.wire(),
            ClassFileAttribute::InnerClasses(a) => a.wire(),
            ClassFileAttribute::EnclosingMethod(a) => a.wire(),
            ClassFileAttribute::BootstrapMethods(a) => a.wire(),
            ClassFileAttribute::Module(a) => a.wire(),
            ClassFileAttribute::ModulePackages(a) => a.wire(),
            ClassFileAttribute::ModuleMainClass(a) => a.wire(),
            ClassFileAttribute::NestHost(a) => a.wire(),
            ClassFileAttribute::NestMembers(a) => a.wire(),
            ClassFileAttribute::Record(a) => a.wire(),
            ClassFileAttribute::PermittedSubclasses(a) => a.wire(),
            ClassFileAttribute::RuntimeVisibleAnnotations(a) => a.wire(),
            ClassFileAttribute::RuntimeInvisibleAnnotations(a) => a.wire(),
            ClassFileAttribute::RuntimeVisibleTypeAnnotations(a) => a.wire(),
            ClassFileAttribute::RuntimeInvisibleTypeAnnotations(a) => a.wire(),
            ClassFileAttribute::Synthetic(a) => a.wire(),
            ClassFileAttribute::Deprecated(a) => a.wire(),
            ClassFileAttribute::Signature(a) => a.wire(),
        }
    }

    /// Where the body of the attribute named `name` ends, or why it cannot
    /// be decoded.
    pub open spec fn outcome_named(s: Seq<u8>, pos: int, name: Seq<u8>, names: spec_fn(u16) -> Option<Seq<u8>>) -> Result<int, DecodeError> {
        if name == "SourceFile".spec_bytes() {
            need(s, pos, 6)
        } else if name == "SourceDebugExtension".spec_bytes() {
            match need(s, pos, 4) {
                Ok(p) => need(s, p, u32_at_spec(s, pos) as int),
                Err(e) => Err(e),
            }
        } else if name == "LineNumberTable".spec_bytes() {
            body_outcome::<LineNumberTableEntry>(s, pos)
        } else if name == "InnerClasses".spec_bytes() {
            body_outcome::<ClassesInfo>(s, pos)
        } else if name == "EnclosingMethod".spec_bytes() {
            need(s, pos, 8)
        } else if name == "BootstrapMethods".spec_bytes() {
            body_outcome::<BootstrapMethod>(s, pos)
        } else if name == "Module".spec_bytes() {
            module_outcome(s, pos)
        } else if name == "ModulePackages".spec_bytes() {
            body_outcome::<u16>(s, pos)
        } else if name == "ModuleMainClass".spec_bytes() {
            need(s, pos, 6)
        } else if name == "NestHost".spec_bytes() {
            need(s, pos, 6)
        } else if name == "NestMembers".spec_bytes() {
            body_outcome::<u16>(s, pos)
        } else if name == "Record".spec_bytes() {
            record_outcome(s, pos, names)
        } else if name == "PermittedSubclasses".spec_bytes() {
            body_outcome::<u16>(s, pos)
        } else if name == "RuntimeVisibleAnnotations".spec_bytes() {
            body_outcome::<Annotation>(s, pos)
        } else if name == "RuntimeInvisibleAnnotations".spec_bytes() {
            body_outcome::<Annotation>(s, pos)
        } else if name == "RuntimeVisibleTypeAnnotations".spec_bytes() {
            body_outcome::<TypeAnnotation>(s, pos)
        } else if name == "RuntimeInvisibleTypeAnnotations".spec_bytes() {
            body_outcome::<TypeAnnotation>(s, pos)
        } else if name == "Synthetic".spec_bytes() {
            empty_body_outcome(s, pos)
        } else if name == "Deprecated".spec_bytes() {
            empty_body_outcome(s, pos)
        } else if name == "Signature".spec_bytes() {
            need(s, pos, 6)
        } else {
            Err(DecodeError::UnknownAttributeName)
        }
    }

    /// Decodes the body of the attribute named `name`, whose name index is
    /// `index`. A name not known here fails with `UnknownAttributeName`.
    pub fn parse(s: &[u8], pos: usize, name: &[u8], index: u16, pool: &ConstantPool) -> (r: Result<(ClassFileAttribute, usize), DecodeError>)
        requires
            pos <= s@.len(),
        ensures
            no_trailing(r),
            r matches Ok((x, end)) ==> pos <= end <= s@.len() && s@.subrange(pos as int, end as int)
                == x.body_wire() && x.name_index() == index && x.spec_name() == name@ && x.valid_in(*pool),
            !is_class_file_attribute_name(name@) ==> r == Err::<(ClassFileAttribute, usize), DecodeError>(DecodeError::UnknownAttributeName),
            follows(r, ClassFileAttribute::outcome_named(s@, pos as int, name@, pool.names())),
    {
        if name_is(name, "SourceFile") {
            let (a, end) = SourceFileAttribute::parse(s, pos, index)?;
            Ok((ClassFileAttribute::SourceFile(a), end))
        } else if name_is(name, "SourceDebugExtension") {
            let (a, end) = SourceDebugExtensionAttribute::parse(s, pos, index)?;
            Ok((ClassFileAttribute::SourceDebugExtension(a), end))
        } else if name_is(name, "LineNumberTable") {
            let (a, end) = LineNumberTableAttribute::parse(s, pos, index)?;
            Ok((ClassFileAttribute::LineNumberTable(a), end))
        } else if name_is(name, "InnerClasses") {
            let (a, end) = InnerClassesAttribute::parse(s, pos, index)?;
            Ok((ClassFileAttribute::InnerClasses(a), end))
        } else if name_is(name, "EnclosingMethod") {
            let (a, end) = EnclosingMethodAttribute::parse(s, pos, index)?;
            Ok((ClassFileAttribute::EnclosingMethod(a), end))
        } else if name_is(name, "BootstrapMethods") {
            let (a, end) = BootstrapMethodsAttribute::parse(s, pos, index)?;
            Ok((ClassFileAttribute::BootstrapMethods(a), end))
        } else if name_is(name, "Module") {
            let (a, end) = ModuleAttribute::parse(s, pos, index)?;
            Ok((ClassFileAttribute::Module(a), end))
        } else if name_is(name, "ModulePackages") {
            let (a, end) = ModulePackagesAttribute::parse(s, pos, index)?;
            Ok((ClassFileAttribute::ModulePackages(a), end))
        } else if name_is(name, "ModuleMainClass") {
            let (a, end) = ModuleMainClassAttribute::parse(s, pos, index)?;
            Ok((ClassFileAttribute::ModuleMainClass(a), end))
        } else if name_is(name, "NestHost") {
            let (a, end) = NestHostAttribute::parse(s, pos, index)?;
            Ok((ClassFileAttribute::NestHost(a), end))
        } else if name_is(name, "NestMembers") {
            let (a, end) = NestMembersAttribute::parse(s, pos, index)?;
            Ok((ClassFileAttribute::NestMembers(a), end))
        } else if name_is(name, "Record") {
            let (a, end) = RecordAttribute::parse(s, pos, index, pool)?;
            Ok((ClassFileAttribute::Record(a), end))
        } else if name_is(name, "PermittedSubclasses") {
            let (a, end) = PermittedSubclassesAttribute::parse(s, pos, index)?;
            Ok((ClassFileAttribute::PermittedSubclasses(a), end))
        } else if name_is(name, "RuntimeVisibleAnnotations") {
            let (a, end) = RuntimeVisibleAnnotationsAttribute::parse(s, pos, index)?;
            Ok((ClassFileAttribute::RuntimeVisibleAnnotations(a), end))
        } else if name_is(name, "RuntimeInvisibleAnnotations") {
            let (a, end) = RuntimeInvisibleAnnotationsAttribute::parse(s, pos, index)?;
            Ok((ClassFileAttribute::RuntimeInvisibleAnnotations(a), end))
        } else if name_is(name, "RuntimeVisibleTypeAnnotations") {
            let (a, end) = RuntimeVisibleTypeAnnotationsAttribute::parse(s, pos, index)?;
            Ok((ClassFileAttribute::RuntimeVisibleTypeAnnotations(a), end))
        } else if name_is(name, "RuntimeInvisibleTypeAnnotations") {
            let (a, end) = RuntimeInvisibleTypeAnnotationsAttribute::parse(s, pos, index)?;
            Ok((ClassFileAttribute::RuntimeInvisibleTypeAnnotations(a), end))
        } else if name_is(name, "Synthetic") {
            let (a, end) = SyntheticAttribute::parse(s, pos, index)?;
            Ok((ClassFileAttribute::Synthetic(a), end))
        } else if name_is(name, "Deprecated") {
            let (a, end) = DeprecatedAttribute::parse(s, pos, index)?;
            Ok((ClassFileAttribute::Deprecated(a), end))
        } else if name_is(name, "Signature") {
            let (a, end) = SignatureAttribute::parse(s, pos, index)?;
            Ok((ClassFileAttribute::Signature(a), end))
        } else {
            Err(DecodeError::UnknownAttributeName)
        }
    }
}

impl Wire for ClassFileAttribute {
    open spec fn wire(&self) -> Seq<u8> {
        be16(self.name_index()) + self.body_wire()
    }
}

impl AttributeKind for ClassFileAttribute {
    open spec fn name_index(&self) -> u16 {
        ClassFileAttribute::name_index(self)
    }

    open spec fn spec_name(&self) -> Seq<u8> {
        ClassFileAttribute::spec_name(self)
    }

    open spec fn known_name(n: Seq<u8>) -> bool {
        is_class_file_attribute_name(n)
    }

    open spec fn valid_in(&self, pool: ConstantPool) -> bool {
        ClassFileAttribute::valid_in(self, pool)
    }

    open spec fn outcome_named(s: Seq<u8>, pos: int, name: Seq<u8>, names: spec_fn(u16) -> Option<Seq<u8>>) -> Result<int, DecodeError> {
        ClassFileAttribute::outcome_named(s, pos, name, names)
    }

    proof fn lemma_cut_named(s: Seq<u8>, pos: int, name: Seq<u8>, names: spec_fn(u16) -> Option<Seq<u8>>, k: int) {
        lemma_cut_need(s, pos, 6, k);
        lemma_cut_need(s, pos, 4, k);
        lemma_cut_need(s, pos, 8, k);
        lemma_cut_body::<LineNumberTableEntry>(s, pos, k);
        lemma_cut_body::<ClassesInfo>(s, pos, k);
        lemma_cut_body::<BootstrapMethod>(s, pos, k);
        lemma_cut_body::<u16>(s, pos, k);
        lemma_cut_body::<Annotation>(s, pos, k);
        lemma_cut_body::<TypeAnnotation>(s, pos, k);
        lemma_cut_empty_body(s, pos, k);
        lemma_cut_module(s, pos, k);
        lemma_cut_record(s, pos, names, k);
        if pos + 4 <= s.len() {
            lemma_cut_need(s, pos + 4, u32_at_spec(s, pos) as int, clamp(pos + 4, k));
        }
    }

    proof fn lemma_unknown_named(s: Seq<u8>, pos: int, name: Seq<u8>, names: spec_fn(u16) -> Option<Seq<u8>>) {
    }

    fn parse_named(s: &[u8], pos: usize, name: &[u8], index: u16, pool: &ConstantPool) -> (r: Result<(ClassFileAttribute, usize), DecodeError>) {
        ClassFileAttribute::parse(s, pos, name, index, pool)
    }
}

#[derive(Debug)]
pub struct ClassFileAttributes {
    pub attributes_count: u16,
    pub attributes: Vec<ClassFileAttribute>,
}

impl Wire for ClassFileAttributes {
    open spec fn wire(&self) -> Seq<u8> {
        be16(self.attributes_count) + wire_seq(self.attributes@)
    }
}

impl ClassFileAttributes {
    /// The count agrees with the list, and every name resolves in the pool
    /// to the name of its variant.
    pub open spec fn valid_in(&self, pool: ConstantPool) -> bool {
        self.attributes_count == self.attributes@.len() && resolved_in(self.attributes@, pool)
    }

    /// Decodes a count and that many attributes, resolving each name in `pool`.
    pub fn parse(s: &[u8], pos: usize, pool: &ConstantPool) -> (r: Result<(ClassFileAttributes, usize), DecodeError>)
        requires
            pos <= s@.len(),
        ensures
            decoded_from(s@, pos as int, r),
            r matches Ok((x, _)) ==> x.valid_in(*pool),
            follows(r, counted_attrs::<ClassFileAttribute>(s@, pos as int, pool.names())),
    {
        let (attributes_count, p1) = read_u16(s, pos)?;
        let (attributes, p2) = parse_attribute_list::<ClassFileAttribute>(s, p1, attributes_count as usize, pool)?;
        proof { lemma_extend(s@, pos as int, p1 as int, p2 as int); }
        Ok((ClassFileAttributes { attributes_count, attributes }, p2))
    }
}

/// The attributes that may appear on a field.
#[derive(Debug)]
pub enum FieldInfoAttribute {
    ConstantValue(ConstantValueAttribute),
    Synthetic(SyntheticAttribute),
    Deprecated(DeprecatedAttribute),
    Signature(SignatureAttribute),
    RuntimeVisibleAnnotations(RuntimeVisibleAnnotationsAttribute),
    RuntimeInvisibleAnnotations(RuntimeInvisibleAnnotationsAttribute),
    RuntimeVisibleTypeAnnotations(RuntimeVisibleTypeAnnotationsAttribute),
    RuntimeInvisibleTypeAnnotations(RuntimeInvisibleTypeAnnotationsAttribute),
}

/// Names of the attributes known on a field.
pub open spec fn is_field_info_attribute_name(n: Seq<u8>) -> bool {
    n == "ConstantValue".spec_bytes()
        || n == "Synthetic".spec_bytes()
        || n == "Deprecated".spec_bytes()
        || n == "Signature".spec_bytes()
        || n == "RuntimeVisibleAnnotations".spec_bytes()
        || n == "RuntimeInvisibleAnnotations".spec_bytes()
        || n == "RuntimeVisibleTypeAnnotations".spec_bytes()
        || n == "RuntimeInvisibleTypeAnnotations".spec_bytes()
}

impl FieldInfoAttribute {
    pub open spec fn name_index(&self) -> u16 {
        match self {
            FieldInfoAttribute::ConstantValue(a) => a.attribute_name_index,
            FieldInfoAttribute::Synthetic(a) => a.attribute_name_index,
            FieldInfoAttribute::Deprecated(a) => a.attribute_name_index,
            FieldInfoAttribute::Signature(a) => a.attribute_name_index,
            FieldInfoAttribute::RuntimeVisibleAnnotations(a) => a.attribute_name_index,
            FieldInfoAttribute::RuntimeInvisibleAnnotations(a) => a.attribute_name_index,
            FieldInfoAttribute::RuntimeVisibleTypeAnnotations(a) => a.attribute_name_index,
            FieldInfoAttribute::RuntimeInvisibleTypeAnnotations(a) => a.attribute_name_index,
        }
    }

    /// The name that selects the variant.
    pub open spec fn spec_name(&self) -> Seq<u8> {
        match self {
            FieldInfoAttribute::ConstantValue(_) => "ConstantValue".spec_bytes(),
            FieldInfoAttribute::Synthetic(_) => "Synthetic".spec_bytes(),
            FieldInfoAttribute::Deprecated(_) => "Deprecated".spec_bytes(),
            FieldInfoAttribute::Signature(_) => "Signature".spec_bytes(),
            FieldInfoAttribute::RuntimeVisibleAnnotations(_) => "RuntimeVisibleAnnotations".spec_bytes(),
            FieldInfoAttribute::RuntimeInvisibleAnnotations(_) => "RuntimeInvisibleAnnotations".spec_bytes(),
            FieldInfoAttribute::RuntimeVisibleTypeAnnotations(_) => "RuntimeVisibleTypeAnnotations".spec_bytes(),
            FieldInfoAttribute::RuntimeInvisibleTypeAnnotations(_) => "RuntimeInvisibleTypeAnnotations".spec_bytes(),
        }
    }

    pub open spec fn valid_in(&self, pool: ConstantPool) -> bool {
        match self {
            FieldInfoAttribute::ConstantValue(a) => a.valid(),
            FieldInfoAttribute::Synthetic(a) => a.valid(),
            FieldInfoAttribute::Deprecated(a) => a.valid(),
            FieldInfoAttribute::Signature(a) => a.valid(),
            FieldInfoAttribute::RuntimeVisibleAnnotations(a) => a.valid(),
            FieldInfoAttribute::RuntimeInvisibleAnnotations(a) => a.valid(),
            FieldInfoAttribute::RuntimeVisibleTypeAnnotations(a) => a.valid(),
            FieldInfoAttribute::RuntimeInvisibleTypeAnnotations(a) => a.valid(),
        }
    }

    /// The layout after the name index.
    pub open spec fn body_wire(&self) -> Seq<u8> {
        match self {
            FieldInfoAttribute::ConstantValue(a) => a.wire(),
            FieldInfoAttribute::Synthetic(a) => a.wire(),
            FieldInfoAttribute::Deprecated(a) => a.wire(),
            FieldInfoAttribute::Signature(a) => a.wire(),
            FieldInfoAttribute::RuntimeVisibleAnnotations(a) => a.wire(),
            FieldInfoAttribute::RuntimeInvisibleAnnotations(a) => a.wire(),
            FieldInfoAttribute::RuntimeVisibleTypeAnnotations(a) => a.wire(),
            FieldInfoAttribute::RuntimeInvisibleTypeAnnotations(a) => a.wire(),
        }
    }

    /// Where the body of the attribute named `name` ends, or why it cannot
    /// be decoded.
    pub open spec fn outcome_named(s: Seq<u8>, pos: int, name: Seq<u8>, names: spec_fn(u16) -> Option<Seq<u8>>) -> Result<int, DecodeError> {
        if name == "ConstantValue".spec_bytes() {
            need(s, pos, 6)
        } else if name == "Synthetic".spec_bytes() {
            empty_body_outcome(s, pos)
        } else if name == "Deprecated".spec_bytes() {
            empty_body_outcome(s, pos)
        } else if name == "Signature".spec_bytes() {
            need(s, pos, 6)
        } else if name == "RuntimeVisibleAnnotations".spec_bytes() {
            body_outcome::<Annotation>(s, pos)
        } else if name == "RuntimeInvisibleAnnotations".spec_bytes() {
            body_outcome::<Annotation>(s, pos)
        } else if name == "RuntimeVisibleTypeAnnotations".spec_bytes() {
            body_outcome::<TypeAnnotation>(s, pos)
        } else if name == "RuntimeInvisibleTypeAnnotations".spec_bytes() {
            body_outcome::<TypeAnnotation>(s, pos)
        } else {
            Err(DecodeError::UnknownAttributeName)
        }
    }

    /// Decodes the body of the attribute named `name`, whose name index is
    /// `index`. A name not known here fails with `UnknownAttributeName`.
    pub fn parse(s: &[u8], pos: usize, name: &[u8], index: u16, pool: &ConstantPool) -> (r: Result<(FieldInfoAttribute, usize), DecodeError>)
        requires
            pos <= s@.len(),
        ensures
            no_trailing(r),
            r matches Ok((x, end)) ==> pos <= end <= s@.len() && s@.subrange(pos as int, end as int)
                == x.body_wire() && x.name_index() == index && x.spec_name() == name@ && x.valid_in(*pool),
            !is_field_info_attribute_name(name@) ==> r == Err::<(FieldInfoAttribute, usize), DecodeError>(DecodeError::UnknownAttributeName),
            follows(r, FieldInfoAttribute::outcome_named(s@, pos as int, name@, pool.names())),
    {
        if name_is(name, "ConstantValue") {
            let (a, end) = ConstantValueAttribute::parse(s, pos, index)?;
            Ok((FieldInfoAttribute::ConstantValue(a), end))
        } else if name_is(name, "Synthetic") {
            let (a, end) = SyntheticAttribute::parse(s, pos, index)?;
            Ok((FieldInfoAttribute::Synthetic(a), end))
        } else if name_is(name, "Deprecated") {
            let (a, end) = DeprecatedAttribute::parse(s, pos, index)?;
            Ok((FieldInfoAttribute::Deprecated(a), end))
        } else if name_is(name, "Signature") {
            let (a, end) = SignatureAttribute::parse(s, pos, index)?;
            Ok((FieldInfoAttribute::Signature(a), end))
        } else if name_is(name, "RuntimeVisibleAnnotations") {
            let (a, end) = RuntimeVisibleAnnotationsAttribute::parse(s, pos, index)?;
            Ok((FieldInfoAttribute::RuntimeVisibleAnnotations(a), end))
        } else if name_is(name, "RuntimeInvisibleAnnotations") {
            let (a, end) = RuntimeInvisibleAnnotationsAttribute::parse(s, pos, index)?;
            Ok((FieldInfoAttribute::RuntimeInvisibleAnnotations(a), end))
        } else if name_is(name, "RuntimeVisibleTypeAnnotations") {
            let (a, end) = RuntimeVisibleTypeAnnotationsAttribute::parse(s, pos, index)?;
            Ok((FieldInfoAttribute::RuntimeVisibleTypeAnnotations(a), end))
        } else if name_is(name, "RuntimeInvisibleTypeAnnotations") {
            let (a, end) = RuntimeInvisibleTypeAnnotationsAttribute::parse(s, pos, index)?;
            Ok((FieldInfoAttribute::RuntimeInvisibleTypeAnnotations(a), end))
        } else {
            Err(DecodeError::UnknownAttributeName)
        }
    }
}

impl Wire for FieldInfoAttribute {
    open spec fn wire(&self) -> Seq<u8> {
        be16(self.name_index()) + self.body_wire()
    }
}

impl AttributeKind for FieldInfoAttribute {
    open spec fn name_index(&self) -> u16 {
        FieldInfoAttribute::name_index(self)
    }

    open spec fn spec_name(&self) -> Seq<u8> {
        FieldInfoAttribute::spec_name(self)
    }

    open spec fn known_name(n: Seq<u8>) -> bool {
        is_field_info_attribute_name(n)
    }

    open spec fn valid_in(&self, pool: ConstantPool) -> bool {
        FieldInfoAttribute::valid_in(self, pool)
    }

    open spec fn outcome_named(s: Seq<u8>, pos: int, name: Seq<u8>, names: spec_fn(u16) -> Option<Seq<u8>>) -> Result<int, DecodeError> {
        FieldInfoAttribute::outcome_named(s, pos, name, names)
    }

    proof fn lemma_cut_named(s: Seq<u8>, pos: int, name: Seq<u8>, names: spec_fn(u16) -> Option<Seq<u8>>, k: int) {
        lemma_cut_need(s, pos, 6, k);
        lemma_cut_body::<Annotation>(s, pos, k);
        lemma_cut_body::<TypeAnnotation>(s, pos, k);
        lemma_cut_empty_body(s, pos, k);
    }

    proof fn lemma_unknown_named(s: Seq<u8>, pos: int, name: Seq<u8>, names: spec_fn(u16) -> Option<Seq<u8>>) {
    }

    fn parse_named(s: &[u8], pos: usize, name: &[u8], index: u16, pool: &ConstantPool) -> (r: Result<(FieldInfoAttribute, usize), DecodeError>) {
        FieldInfoAttribute::parse(s, pos, name, index, pool)
    }
}

#[derive(Debug)]
pub struct FieldInfoAttributes {
    pub attributes_count: u16,
    pub attributes: Vec<FieldInfoAttribute>,
}

impl Wire for FieldInfoAttributes {
    open spec fn wire(&self) -> Seq<u8> {
        be16(self.attributes_count) + wire_seq(self.attributes@)
    }
}

impl FieldInfoAttributes {
    /// The count agrees with the list, and every name resolves in the pool
    /// to the name of its variant.
    pub open spec fn valid_in(&self, pool: ConstantPool) -> bool {
        self.attributes_count == self.attributes@.len() && resolved_in(self.attributes@, pool)
    }

    /// Decodes a count and that many attributes, resolving each name in `pool`.
    pub fn parse(s: &[u8], pos: usize, pool: &ConstantPool) -> (r: Result<(FieldInfoAttributes, usize), DecodeError>)
        requires
            pos <= s@.len(),
        ensures
            decoded_from(s@, pos as int, r),
            r matches Ok((x, _)) ==> x.valid_in(*pool),
            follows(r, counted_attrs::<FieldInfoAttribute>(s@, pos as int, pool.names())),
    {
        let (attributes_count, p1) = read_u16(s, pos)?;
        let (attributes, p2) = parse_attribute_list::<FieldInfoAttribute>(s, p1, attributes_count as usize, pool)?;
        proof { lemma_extend(s@, pos as int, p1 as int, p2 as int); }
        Ok((FieldInfoAttributes { attributes_count, attributes }, p2))
    }
}

/// The attributes that may appear on a method.
#[derive(Debug)]
pub enum MethodInfoAttribute {
    Code(CodeAttribute),
    Exceptions(ExceptionsAttribute),
    AnnotationDefault(AnnotationDefaultAttribute),
    MethodParameters(MethodParametersAttribute),
    Synthetic(SyntheticAttribute),
    Deprecated(DeprecatedAttribute),
    Signature(SignatureAttribute),
    RuntimeVisibleAnnotations(RuntimeVisibleAnnotationsAttribute),
    RuntimeInvisibleAnnotations(RuntimeInvisibleAnnotationsAttribute),
    RuntimeVisibleTypeAnnotations(RuntimeVisibleTypeAnnotationsAttribute),
    RuntimeInvisibleTypeAnnotations(RuntimeInvisibleTypeAnnotationsAttribute),
    RuntimeVisibleParameterAnnotations(RuntimeVisibleParameterAnnotationsAttribute),
    RuntimeInvisibleParameterAnnotations(RuntimeInvisibleParameterAnnotationsAttribute),
}

/// Names of the attributes known on a method.
pub open spec fn is_method_info_attribute_name(n: Seq<u8>) -> bool {
    n == "Code".spec_bytes()
        || n == "Exceptions".spec_bytes()
        || n == "AnnotationDefault".spec_bytes()
        || n == "MethodParameters".spec_bytes()
        || n == "Synthetic".spec_bytes()
        || n == "Deprecated".spec_bytes()
        || n == "Signature".spec_bytes()
        || n == "RuntimeVisibleAnnotations".spec_bytes()
        || n == "RuntimeInvisibleAnnotations".spec_bytes()
        || n == "RuntimeVisibleTypeAnnotations".spec_bytes()
        || n == "RuntimeInvisibleTypeAnnotations".spec_bytes()
        || n == "RuntimeVisibleParameterAnnotations".spec_bytes()
        || n == "RuntimeInvisibleParameterAnnotations".spec_bytes()
}

impl MethodInfoAttribute {
    pub open spec fn name_index(&self) -> u16 {
        match self {
            MethodInfoAttribute::Code(a) => a.attribute_name_index,
            MethodInfoAttribute::Exceptions(a) => a.attribute_name_index,
            MethodInfoAttribute::AnnotationDefault(a) => a.attribute_name_index,
            MethodInfoAttribute::MethodParameters(a) => a.attribute_name_index,
            MethodInfoAttribute::Synthetic(a) => a.attribute_name_index,
            MethodInfoAttribute::Deprecated(a) => a.attribute_name_index,
            MethodInfoAttribute::Signature(a) => a.attribute_name_index,
            MethodInfoAttribute::RuntimeVisibleAnnotations(a) => a.attribute_name_index,
            MethodInfoAttribute::RuntimeInvisibleAnnotations(a) => a.attribute_name_index,
            MethodInfoAttribute::RuntimeVisibleTypeAnnotations(a) => a.attribute_name_index,
            MethodInfoAttribute::RuntimeInvisibleTypeAnnotations(a) => a.attribute_name_index,
            MethodInfoAttribute::RuntimeVisibleParameterAnnotations(a) => a.attribute_name_index,
            MethodInfoAttribute::RuntimeInvisibleParameterAnnotations(a) => a.attribute_name_index,
        }
    }

    /// The name that selects the variant.
    pub open spec fn spec_name(&self) -> Seq<u8> {
        match self {
            MethodInfoAttribute::Code(_) => "Code".spec_bytes(),
            MethodInfoAttribute::Exceptions(_) => "Exceptions".spec_bytes(),
            MethodInfoAttribute::AnnotationDefault(_) => "AnnotationDefault".spec_bytes(),
            MethodInfoAttribute::MethodParameters(_) => "MethodParameters".spec_bytes(),
            MethodInfoAttribute::Synthetic(_) => "Synthetic".spec_bytes(),
            MethodInfoAttribute::Deprecated(_) => "Deprecated".spec_bytes(),
            MethodInfoAttribute::Signature(_) => "Signature".spec_bytes(),
            MethodInfoAttribute::RuntimeVisibleAnnotations(_) => "RuntimeVisibleAnnotations".spec_bytes(),
            MethodInfoAttribute::RuntimeInvisibleAnnotations(_) => "RuntimeInvisibleAnnotations".spec_bytes(),
            MethodInfoAttribute::RuntimeVisibleTypeAnnotations(_) => "RuntimeVisibleTypeAnnotations".spec_bytes(),
            MethodInfoAttribute::RuntimeInvisibleTypeAnnotations(_) => "RuntimeInvisibleTypeAnnotations".spec_bytes(),
            MethodInfoAttribute::RuntimeVisibleParameterAnnotations(_) => "RuntimeVisibleParameterAnnotations".spec_bytes(),
            MethodInfoAttribute::RuntimeInvisibleParameterAnnotations(_) => "RuntimeInvisibleParameterAnnotations".spec_bytes(),
        }
    }

    pub open spec fn valid_in(&self, pool: ConstantPool) -> bool {
        match self {
            MethodInfoAttribute::Code(a) => a.valid_in(pool),
            MethodInfoAttribute::Exceptions(a) => a.valid(),
            MethodInfoAttribute::AnnotationDefault(a) => a.valid(),
            MethodInfoAttribute::MethodParameters(a) => a.valid(),
            MethodInfoAttribute::Synthetic(a) => a.valid(),
            MethodInfoAttribute::Deprecated(a) => a.valid(),
            MethodInfoAttribute::Signature(a) => a.valid(),
            MethodInfoAttribute::RuntimeVisibleAnnotations(a) => a.valid(),
            MethodInfoAttribute::RuntimeInvisibleAnnotations(a) => a.valid(),
            MethodInfoAttribute::RuntimeVisibleTypeAnnotations(a) => a.valid(),
            MethodInfoAttribute::RuntimeInvisibleTypeAnnotations(a) => a.valid(),
            MethodInfoAttribute::RuntimeVisibleParameterAnnotations(a) => a.valid(),
            MethodInfoAttribute::RuntimeInvisibleParameterAnnotations(a) => a.valid(),
        }
    }

    /// The layout after the name index.
    pub open spec fn body_wire(&self) -> Seq<u8> {
        match self {
            MethodInfoAttribute::Code(a) => a.wire(),
            MethodInfoAttribute::Exceptions(a) => a.wire(),
            MethodInfoAttribute::AnnotationDefault(a) => a.wire(),
            MethodInfoAttribute::MethodParameters(a) => a.wire(),
            MethodInfoAttribute::Synthetic(a) => a.wire(),
            MethodInfoAttribute::Deprecated(a) => a.wire(),
            MethodInfoAttribute::Signature(a) => a.wire(),
            MethodInfoAttribute::RuntimeVisibleAnnotations(a) => a.wire(),
            MethodInfoAttribute::RuntimeInvisibleAnnotations(a) => a.wire(),
            MethodInfoAttribute::RuntimeVisibleTypeAnnotations(a) => a.wire(),
            MethodInfoAttribute::RuntimeInvisibleTypeAnnotations(a) => a.wire(),
            MethodInfoAttribute::RuntimeVisibleParameterAnnotations(a) => a.wire(),
            MethodInfoAttribute::RuntimeInvisibleParameterAnnotations(a) => a.wire(),
        }
    }

    /// Where the body of the attribute named `name` ends, or why it cannot
    /// be decoded.
    pub open spec fn outcome_named(s: Seq<u8>, pos: int, name: Seq<u8>, names: spec_fn(u16) -> Option<Seq<u8>>) -> Result<int, DecodeError> {
        if name == "Code".spec_bytes() {
            code_outcome(s, pos, names)
        } else if name == "Exceptions".spec_bytes() {
            body_outcome::<u16>(s, pos)
        } else if name == "AnnotationDefault".spec_bytes() {
            match need(s, pos, 4) {
                Ok(p) => element_value_outcome(s, p, 0),
                Err(e) => Err(e),
            }
        } else if name == "MethodParameters".spec_bytes() {
            body8_outcome::<MethodParameter>(s, pos)
        } else if name == "Synthetic".spec_bytes() {
            empty_body_outcome(s, pos)
        } else if name == "Deprecated".spec_bytes() {
            empty_body_outcome(s, pos)
        } else if name == "Signature".spec_bytes() {
            need(s, pos, 6)
        } else if name == "RuntimeVisibleAnnotations".spec_bytes() {
            body_outcome::<Annotation>(s, pos)
        } else if name == "RuntimeInvisibleAnnotations".spec_bytes() {
            body_outcome::<Annotation>(s, pos)
        } else if name == "RuntimeVisibleTypeAnnotations".spec_bytes() {
            body_outcome::<TypeAnnotation>(s, pos)
        } else if name == "RuntimeInvisibleTypeAnnotations".spec_bytes() {
            body_outcome::<TypeAnnotation>(s, pos)
        } else if name == "RuntimeVisibleParameterAnnotations".spec_bytes() {
            body8_outcome::<ParameterAnnotation>(s, pos)
        } else if name == "RuntimeInvisibleParameterAnnotations".spec_bytes() {
            body8_outcome::<ParameterAnnotation>(s, pos)
        } else {
            Err(DecodeError::UnknownAttributeName)
        }
    }

    /// Decodes the body of the attribute named `name`, whose name index is
    /// `index`. A name not known here fails with `UnknownAttributeName`.
    pub fn parse(s: &[u8], pos: usize, name: &[u8], index: u16, pool: &ConstantPool) -> (r: Result<(MethodInfoAttribute, usize), DecodeError>)
        requires
            pos <= s@.len(),
        ensures
            no_trailing(r),
            r matches Ok((x, end)) ==> pos <= end <= s@.len() && s@.subrange(pos as int, end as int)
                == x.body_wire() && x.name_index() == index && x.spec_name() == name@ && x.valid_in(*pool),
            !is_method_info_attribute_name(name@) ==> r == Err::<(MethodInfoAttribute, usize), DecodeError>(DecodeError::UnknownAttributeName),
            follows(r, MethodInfoAttribute::outcome_named(s@, pos as int, name@, pool.names())),
    {
        if name_is(name, "Code") {
            let (a, end) = CodeAttribute::parse(s, pos, index, pool)?;
            Ok((MethodInfoAttribute::Code(a), end))
        } else if name_is(name, "Exceptions") {
            let (a, end) = ExceptionsAttribute::parse(s, pos, index)?;
            Ok((MethodInfoAttribute::Exceptions(a), end))
        } else if name_is(name, "AnnotationDefault") {
            let (a, end) = AnnotationDefaultAttribute::parse(s, pos, index)?;
            Ok((MethodInfoAttribute::AnnotationDefault(a), end))
        } else if name_is(name, "MethodParameters") {
            let (a, end) = MethodParametersAttribute::parse(s, pos, index)?;
            Ok((MethodInfoAttribute::MethodParameters(a), end))
        } else if name_is(name, "Synthetic") {
            let (a, end) = SyntheticAttribute::parse(s, pos, index)?;
            Ok((MethodInfoAttribute::Synthetic(a), end))
        } else if name_is(name, "Deprecated") {
            let (a, end) = DeprecatedAttribute::parse(s, pos, index)?;
            Ok((MethodInfoAttribute::Deprecated(a), end))
        } else if name_is(name, "Signature") {
            let (a, end) = SignatureAttribute::parse(s, pos, index)?;
            Ok((MethodInfoAttribute::Signature(a), end))
        } else if name_is(name, "RuntimeVisibleAnnotations") {
            let (a, end) = RuntimeVisibleAnnotationsAttribute::parse(s, pos, index)?;
            Ok((MethodInfoAttribute::RuntimeVisibleAnnotations(a), end))
        } else if name_is(name, "RuntimeInvisibleAnnotations") {
            let (a, end) = RuntimeInvisibleAnnotationsAttribute::parse(s, pos, index)?;
            Ok((MethodInfoAttribute::RuntimeInvisibleAnnotations(a), end))
        } else if name_is(name, "RuntimeVisibleTypeAnnotations") {
            let (a, end) = RuntimeVisibleTypeAnnotationsAttribute::parse(s, pos, index)?;
            Ok((MethodInfoAttribute::RuntimeVisibleTypeAnnotations(a), end))
        } else if name_is(name, "RuntimeInvisibleTypeAnnotations") {
            let (a, end) = RuntimeInvisibleTypeAnnotationsAttribute::parse(s, pos, index)?;
            Ok((MethodInfoAttribute::RuntimeInvisibleTypeAnnotations(a), end))
        } else if name_is(name, "RuntimeVisibleParameterAnnotations") {
            let (a, end) = RuntimeVisibleParameterAnnotationsAttribute::parse(s, pos, index)?;
            Ok((MethodInfoAttribute::RuntimeVisibleParameterAnnotations(a), end))
        } else if name_is(name, "RuntimeInvisibleParameterAnnotations") {
            let (a, end) = RuntimeInvisibleParameterAnnotationsAttribute::parse(s, pos, index)?;
            Ok((MethodInfoAttribute::RuntimeInvisibleParameterAnnotations(a), end))
        } else {
            Err(DecodeError::UnknownAttributeName)
        }
    }
}

impl Wire for MethodInfoAttribute {
    open spec fn wire(&self) -> Seq<u8> {
        be16(self.name_index()) + self.body_wire()
    }
}

impl AttributeKind for MethodInfoAttribute {
    open spec fn name_index(&self) -> u16 {
        MethodInfoAttribute::name_index(self)
    }

    open spec fn spec_name(&self) -> Seq<u8> {
        MethodInfoAttribute::spec_name(self)
    }

    open spec fn known_name(n: Seq<u8>) -> bool {
        is_method_info_attribute_name(n)
    }

    open spec fn valid_in(&self, pool: ConstantPool) -> bool {
        MethodInfoAttribute::valid_in(self, pool)
    }

    open spec fn outcome_named(s: Seq<u8>, pos: int, name: Seq<u8>, names: spec_fn(u16) -> Option<Seq<u8>>) -> Result<int, DecodeError> {
        MethodInfoAttribute::outcome_named(s, pos, name, names)
    }

    proof fn lemma_cut_named(s: Seq<u8>, pos: int, name: Seq<u8>, names: spec_fn(u16) -> Option<Seq<u8>>, k: int) {
        lemma_cut_need(s, pos, 4, k);
        lemma_cut_need(s, pos, 6, k);
        lemma_cut_body::<u16>(s, pos, k);
        lemma_cut_body8::<MethodParameter>(s, pos, k);
        lemma_cut_body::<Annotation>(s, pos, k);
        lemma_cut_body::<TypeAnnotation>(s, pos, k);
        lemma_cut_body8::<ParameterAnnotation>(s, pos, k);
        lemma_cut_empty_body(s, pos, k);
        lemma_cut_code(s, pos, names, k);
        if pos + 4 <= s.len() {
            lemma_cut_element_value(s, pos + 4, 0, clamp(pos + 4, k));
        }
    }

    proof fn lemma_unknown_named(s: Seq<u8>, pos: int, name: Seq<u8>, names: spec_fn(u16) -> Option<Seq<u8>>) {
    }

    fn parse_named(s: &[u8], pos: usize, name: &[u8], index: u16, pool: &ConstantPool) -> (r: Result<(MethodInfoAttribute, usize), DecodeError>) {
        MethodInfoAttribute::parse(s, pos, name, index, pool)
    }
}

#[derive(Debug)]
pub struct MethodInfoAttributes {
    pub attributes_count: u16,
    pub attributes: Vec<MethodInfoAttribute>,
}

impl Wire for MethodInfoAttributes {
    open spec fn wire(&self) -> Seq<u8> {
        be16(self.attributes_count) + wire_seq(self.attributes@)
    }
}

impl MethodInfoAttributes {
    /// The count agrees with the list, and every name resolves in the pool
    /// to the name of its variant.
    pub open spec fn valid_in(&self, pool: ConstantPool) -> bool {
        self.attributes_count == self.attributes@.len() && resolved_in(self.attributes@, pool)
    }

    /// Decodes a count and that many attributes, resolving each name in `pool`.
    pub fn parse(s: &[u8], pos: usize, pool: &ConstantPool) -> (r: Result<(MethodInfoAttributes, usize), DecodeError>)
        requires
            pos <= s@.len(),
        ensures
            decoded_from(s@, pos as int, r),
            r matches Ok((x, _)) ==> x.valid_in(*pool),
            follows(r, counted_attrs::<MethodInfoAttribute>(s@, pos as int, pool.names())),
    {
        let (attributes_count, p1) = read_u16(s, pos)?;
        let (attributes, p2) = parse_attribute_list::<MethodInfoAttribute>(s, p1, attributes_count as usize, pool)?;
        proof { lemma_extend(s@, pos as int, p1 as int, p2 as int); }
        Ok((MethodInfoAttributes { attributes_count, attributes }, p2))
    }
}

/// The attributes that may appear on a Code attribute.
#[derive(Debug)]
pub enum CodeNestedAttribute {
    LineNumberTable(LineNumberTableAttribute),
    LocalVariableTable(LocalVariableTableAttribute),
    LocalVariableTypeTable(LocalVariableTypeTableAttribute),
    StackMapTable(StackMapTableAttribute),
    RuntimeVisibleTypeAnnotations(RuntimeVisibleTypeAnnotationsAttribute),
    RuntimeInvisibleTypeAnnotations(RuntimeInvisibleTypeAnnotationsAttribute),
}

/// Names of the attributes known on a Code attribute.
pub open spec fn is_code_nested_attribute_name(n: Seq<u8>) -> bool {
    n == "LineNumberTable".spec_bytes()
        || n == "LocalVariableTable".spec_bytes()
        || n == "LocalVariableTypeTable".spec_bytes()
        || n == "StackMapTable".spec_bytes()
        || n == "RuntimeVisibleTypeAnnotations".spec_bytes()
        || n == "RuntimeInvisibleTypeAnnotations".spec_bytes()
}

impl CodeNestedAttribute {
    pub open spec fn name_index(&self) -> u16 {
        match self {
            CodeNestedAttribute::LineNumberTable(a) => a.attribute_name_index,
            CodeNestedAttribute::LocalVariableTable(a) => a.attribute_name_index,
            CodeNestedAttribute::LocalVariableTypeTable(a) => a.attribute_name_index,
            CodeNestedAttribute::StackMapTable(a) => a.attribute_name_index,
            CodeNestedAttribute::RuntimeVisibleTypeAnnotations(a) => a.attribute_name_index,
            CodeNestedAttribute::RuntimeInvisibleTypeAnnotations(a) => a.attribute_name_index,
        }
    }

    /// The name that selects the variant.
    pub open spec fn spec_name(&self) -> Seq<u8> {
        match self {
            CodeNestedAttribute::LineNumberTable(_) => "LineNumberTable".spec_bytes(),
            CodeNestedAttribute::LocalVariableTable(_) => "LocalVariableTable".spec_bytes(),
            CodeNestedAttribute::LocalVariableTypeTable(_) => "LocalVariableTypeTable".spec_bytes(),
            CodeNestedAttribute::StackMapTable(_) => "StackMapTable".spec_bytes(),
            CodeNestedAttribute::RuntimeVisibleTypeAnnotations(_) => "RuntimeVisibleTypeAnnotations".spec_bytes(),
            CodeNestedAttribute::RuntimeInvisibleTypeAnnotations(_) => "RuntimeInvisibleTypeAnnotations".spec_bytes(),
        }
    }

    pub open spec fn valid_in(&self, pool: ConstantPool) -> bool {
        match self {
            CodeNestedAttribute::LineNumberTable(a) => a.valid(),
            CodeNestedAttribute::LocalVariableTable(a) => a.valid(),
            CodeNestedAttribute::LocalVariableTypeTable(a) => a.valid(),
            CodeNestedAttribute::StackMapTable(a) => a.valid(),
            CodeNestedAttribute::RuntimeVisibleTypeAnnotations(a) => a.valid(),
            CodeNestedAttribute::RuntimeInvisibleTypeAnnotations(a) => a.valid(),
        }
    }

    /// The layout after the name index.
    pub open spec fn body_wire(&self) -> Seq<u8> {
        match self {
            CodeNestedAttribute::LineNumberTable(a) => a.wire(),
            CodeNestedAttribute::LocalVariableTable(a) => a.wire(),
            CodeNestedAttribute::LocalVariableTypeTable(a) => a.wire(),
            CodeNestedAttribute::StackMapTable(a) => a.wire(),
            CodeNestedAttribute::RuntimeVisibleTypeAnnotations(a) => a.wire(),
            CodeNestedAttribute::RuntimeInvisibleTypeAnnotations(a) => a.wire(),
        }
    }

    /// Where the body of the attribute named `name` ends, or why it cannot
    /// be decoded.
    pub open spec fn outcome_named(s: Seq<u8>, pos: int, name: Seq<u8>, names: spec_fn(u16) -> Option<Seq<u8>>) -> Result<int, DecodeError> {
        if name == "LineNumberTable".spec_bytes() {
            body_outcome::<LineNumberTableEntry>(s, pos)
        } else if name == "LocalVariableTable".spec_bytes() {
            body_outcome::<LocalVariableTableEntry>(s, pos)
        } else if name == "LocalVariableTypeTable".spec_bytes() {
            body_outcome::<LocalVariableTypeTableEntry>(s, pos)
        } else if name == "StackMapTable".spec_bytes() {
            body_outcome::<StackMapFrame>(s, pos)
        } else if name == "RuntimeVisibleTypeAnnotations".spec_bytes() {
            body_outcome::<TypeAnnotation>(s, pos)
        } else if name == "RuntimeInvisibleTypeAnnotations".spec_bytes() {
            body_outcome::<TypeAnnotation>(s, pos)
        } else {
            Err(DecodeError::UnknownAttributeName)
        }
    }

    /// Decodes the body of the attribute named `name`, whose name index is
    /// `index`. A name not known here fails with `UnknownAttributeName`.
    pub fn parse(s: &[u8], pos: usize, name: &[u8], index: u16, pool: &ConstantPool) -> (r: Result<(CodeNestedAttribute, usize), DecodeError>)
        requires
            pos <= s@.len(),
        ensures
            no_trailing(r),
            r matches Ok((x, end)) ==> pos <= end <= s@.len() && s@.subrange(pos as int, end as int)
                == x.body_wire() && x.name_index() == index && x.spec_name() == name@ && x.valid_in(*pool),
            !is_code_nested_attribute_name(name@) ==> r == Err::<(CodeNestedAttribute, usize), DecodeError>(DecodeError::UnknownAttributeName),
            follows(r, CodeNestedAttribute::outcome_named(s@, pos as int, name@, pool.names())),
    {
        if name_is(name, "LineNumberTable") {
            let (a, end) = LineNumberTableAttribute::parse(s, pos, index)?;
            Ok((CodeNestedAttribute::LineNumberTable(a), end))
        } else if name_is(name, "LocalVariableTable") {
            let (a, end) = LocalVariableTableAttribute::parse(s, pos, index)?;
            Ok((CodeNestedAttribute::LocalVariableTable(a), end))
        } else if name_is(name, "LocalVariableTypeTable") {
            let (a, end) = LocalVariableTypeTableAttribute::parse(s, pos, index)?;
            Ok((CodeNestedAttribute::LocalVariableTypeTable(a), end))
        } else if name_is(name, "StackMapTable") {
            let (a, end) = StackMapTableAttribute::parse(s, pos, index)?;
            Ok((CodeNestedAttribute::StackMapTable(a), end))
        } else if name_is(name, "RuntimeVisibleTypeAnnotations") {
            let (a, end) = RuntimeVisibleTypeAnnotationsAttribute::parse(s, pos, index)?;
            Ok((CodeNestedAttribute::RuntimeVisibleTypeAnnotations(a), end))
        } else if name_is(name, "RuntimeInvisibleTypeAnnotations") {
            let (a, end) = RuntimeInvisibleTypeAnnotationsAttribute::parse(s, pos, index)?;
            Ok((CodeNestedAttribute::RuntimeInvisibleTypeAnnotations(a), end))
        } else {
            Err(DecodeError::UnknownAttributeName)
        }
    }
}

impl Wire for CodeNestedAttribute {
    open spec fn wire(&self) -> Seq<u8> {
        be16(self.name_index()) + self.body_wire()
    }
}

impl AttributeKind for CodeNestedAttribute {
    open spec fn name_index(&self) -> u16 {
        CodeNestedAttribute::name_index(self)
    }

    open spec fn spec_name(&self) -> Seq<u8> {
        CodeNestedAttribute::spec_name(self)
    }

    open spec fn known_name(n: Seq<u8>) -> bool {
        is_code_nested_attribute_name(n)
    }

    open spec fn valid_in(&self, pool: ConstantPool) -> bool {
        CodeNestedAttribute::valid_in(self, pool)
    }

    open spec fn outcome_named(s: Seq<u8>, pos: int, name: Seq<u8>, names: spec_fn(u16) -> Option<Seq<u8>>) -> Result<int, DecodeError> {
        CodeNestedAttribute::outcome_named(s, pos, name, names)
    }

    proof fn lemma_cut_named(s: Seq<u8>, pos: int, name: Seq<u8>, names: spec_fn(u16) -> Option<Seq<u8>>, k: int) {
        lemma_cut_body::<LineNumberTableEntry>(s, pos, k);
        lemma_cut_body::<LocalVariableTableEntry>(s, pos, k);
        lemma_cut_body::<LocalVariableTypeTableEntry>(s, pos, k);
        lemma_cut_body::<StackMapFrame>(s, pos, k);
        lemma_cut_body::<TypeAnnotation>(s, pos, k);
    }

    proof fn lemma_unknown_named(s: Seq<u8>, pos: int, name: Seq<u8>, names: spec_fn(u16) -> Option<Seq<u8>>) {
    }

    fn parse_named(s: &[u8], pos: usize, name: &[u8], index: u16, pool: &ConstantPool) -> (r: Result<(CodeNestedAttribute, usize), DecodeError>) {
        CodeNestedAttribute::parse(s, pos, name, index, pool)
    }
}

#[derive(Debug)]
pub struct CodeAttributes {
    pub attributes_count: u16,
    pub attributes: Vec<CodeNestedAttribute>,
}

impl Wire for CodeAttributes {
    open spec fn wire(&self) -> Seq<u8> {
        be16(self.attributes_count) + wire_seq(self.attributes@)
    }
}

impl CodeAttributes {
    /// The count agrees with the list, and every name resolves in the pool
    /// to the name of its variant.
    pub open spec fn valid_in(&self, pool: ConstantPool) -> bool {
        self.attributes_count == self.attributes@.len() && resolved_in(self.attributes@, pool)
    }

    /// Decodes a count and that many attributes, resolving each name in `pool`.
    pub fn parse(s: &[u8], pos: usize, pool: &ConstantPool) -> (r: Result<(CodeAttributes, usize), DecodeError>)
        requires
            pos <= s@.len(),
        ensures
            decoded_from(s@, pos as int, r),
            r matches Ok((x, _)) ==> x.valid_in(*pool),
            follows(r, counted_attrs::<CodeNestedAttribute>(s@, pos as int, pool.names())),
    {
        let (attributes_count, p1) = read_u16(s, pos)?;
        let (attributes, p2) = parse_attribute_list::<CodeNestedAttribute>(s, p1, attributes_count as usize, pool)?;
        proof { lemma_extend(s@, pos as int, p1 as int, p2 as int); }
        Ok((CodeAttributes { attributes_count, attributes }, p2))
    }
}

/// The attributes that may appear on a record component.
#[derive(Debug)]
pub enum RecordComponentInfoAttribute {
    Signature(SignatureAttribute),
    RuntimeVisibleAnnotations(RuntimeVisibleAnnotationsAttribute),
    RuntimeInvisibleAnnotations(RuntimeInvisibleAnnotationsAttribute),
    RuntimeVisibleTypeAnnotations(RuntimeVisibleTypeAnnotationsAttribute),
    RuntimeInvisibleTypeAnnotations(RuntimeInvisibleTypeAnnotationsAttribute),
}

/// Names of the attributes known on a record component.
pub open spec fn is_record_component_info_attribute_name(n: Seq<u8>) -> bool {
    n == "Signature".spec_bytes()
        || n == "RuntimeVisibleAnnotations".spec_bytes()
        || n == "RuntimeInvisibleAnnotations".spec_bytes()
        || n == "RuntimeVisibleTypeAnnotations".spec_bytes()
        || n == "RuntimeInvisibleTypeAnnotations".spec_bytes()
}

impl RecordComponentInfoAttribute {
    pub open spec fn name_index(&self) -> u16 {
        match self {
            RecordComponentInfoAttribute::Signature(a) => a.attribute_name_index,
            RecordComponentInfoAttribute::RuntimeVisibleAnnotations(a) => a.attribute_name_index,
            RecordComponentInfoAttribute::RuntimeInvisibleAnnotations(a) => a.attribute_name_index,
            RecordComponentInfoAttribute::RuntimeVisibleTypeAnnotations(a) => a.attribute_name_index,
            RecordComponentInfoAttribute::RuntimeInvisibleTypeAnnotations(a) => a.attribute_name_index,
        }
    }

    /// The name that selects the variant.
    pub open spec fn spec_name(&self) -> Seq<u8> {
        match self {
            RecordComponentInfoAttribute::Signature(_) => "Signature".spec_bytes(),
            RecordComponentInfoAttribute::RuntimeVisibleAnnotations(_) => "RuntimeVisibleAnnotations".spec_bytes(),
            RecordComponentInfoAttribute::RuntimeInvisibleAnnotations(_) => "RuntimeInvisibleAnnotations".spec_bytes(),
            RecordComponentInfoAttribute::RuntimeVisibleTypeAnnotations(_) => "RuntimeVisibleTypeAnnotations".spec_bytes(),
            RecordComponentInfoAttribute::RuntimeInvisibleTypeAnnotations(_) => "RuntimeInvisibleTypeAnnotations".spec_bytes(),
        }
    }

    pub open spec fn valid_in(&self, pool: ConstantPool) -> bool {
        match self {
            RecordComponentInfoAttribute::Signature(a) => a.valid(),
            RecordComponentInfoAttribute::RuntimeVisibleAnnotations(a) => a.valid(),
            RecordComponentInfoAttribute::RuntimeInvisibleAnnotations(a) => a.valid(),
            RecordComponentInfoAttribute::RuntimeVisibleTypeAnnotations(a) => a.valid(),
            RecordComponentInfoAttribute::RuntimeInvisibleTypeAnnotations(a) => a.valid(),
        }
    }

    /// The layout after the name index.
    pub open spec fn body_wire(&self) -> Seq<u8> {
        match self {
            RecordComponentInfoAttribute::Signature(a) => a.wire(),
            RecordComponentInfoAttribute::RuntimeVisibleAnnotations(a) => a.wire(),
            RecordComponentInfoAttribute::RuntimeInvisibleAnnotations(a) => a.wire(),
            RecordComponentInfoAttribute::RuntimeVisibleTypeAnnotations(a) => a.wire(),
            RecordComponentInfoAttribute::RuntimeInvisibleTypeAnnotations(a) => a.wire(),
        }
    }

    /// Where the body of the attribute named `name` ends, or why it cannot
    /// be decoded.
    pub open spec fn outcome_named(s: Seq<u8>, pos: int, name: Seq<u8>, names: spec_fn(u16) -> Option<Seq<u8>>) -> Result<int, DecodeError> {
        if name == "Signature".spec_bytes() {
            need(s, pos, 6)
        } else if name == "RuntimeVisibleAnnotations".spec_bytes() {
            body_outcome::<Annotation>(s, pos)
        } else if name == "RuntimeInvisibleAnnotations".spec_bytes() {
            body_outcome::<Annotation>(s, pos)
        } else if name == "RuntimeVisibleTypeAnnotations".spec_bytes() {
            body_outcome::<TypeAnnotation>(s, pos)
        } else if name == "RuntimeInvisibleTypeAnnotations".spec_bytes() {
            body_outcome::<TypeAnnotation>(s, pos)
        } else {
            Err(DecodeError::UnknownAttributeName)
        }
    }

    /// Decodes the body of the attribute named `name`, whose name index is
    /// `index`. A name not known here fails with `UnknownAttributeName`.
    pub fn parse(s: &[u8], pos: usize, name: &[u8], index: u16, pool: &ConstantPool) -> (r: Result<(RecordComponentInfoAttribute, usize), DecodeError>)
        requires
            pos <= s@.len(),
        ensures
            no_trailing(r),
            r matches Ok((x, end)) ==> pos <= end <= s@.len() && s@.subrange(pos as int, end as int)
                == x.body_wire() && x.name_index() == index && x.spec_name() == name@ && x.valid_in(*pool),
            !is_record_component_info_attribute_name(name@) ==> r == Err::<(RecordComponentInfoAttribute, usize), DecodeError>(DecodeError::UnknownAttributeName),
            follows(r, RecordComponentInfoAttribute::outcome_named(s@, pos as int, name@, pool.names())),
    {
        if name_is(name, "Signature") {
            let (a, end) = SignatureAttribute::parse(s, pos, index)?;
            Ok((RecordComponentInfoAttribute::Signature(a), end))
        } else if name_is(name, "RuntimeVisibleAnnotations") {
            let (a, end) = RuntimeVisibleAnnotationsAttribute::parse(s, pos, index)?;
            Ok((RecordComponentInfoAttribute::RuntimeVisibleAnnotations(a), end))
        } else if name_is(name, "RuntimeInvisibleAnnotations") {
            let (a, end) = RuntimeInvisibleAnnotationsAttribute::parse(s, pos, index)?;
            Ok((RecordComponentInfoAttribute::RuntimeInvisibleAnnotations(a), end))
        } else if name_is(name, "RuntimeVisibleTypeAnnotations") {
            let (a, end) = RuntimeVisibleTypeAnnotationsAttribute::parse(s, pos, index)?;
            Ok((RecordComponentInfoAttribute::RuntimeVisibleTypeAnnotations(a), end))
        } else if name_is(name, "RuntimeInvisibleTypeAnnotations") {
            let (a, end) = RuntimeInvisibleTypeAnnotationsAttribute::parse(s, pos, index)?;
            Ok((RecordComponentInfoAttribute::RuntimeInvisibleTypeAnnotations(a), end))
        } else {
            Err(DecodeError::UnknownAttributeName)
        }
    }
}

impl Wire for RecordComponentInfoAttribute {
    open spec fn wire(&self) -> Seq<u8> {
        be16(self.name_index()) + self.body_wire()
    }
}

impl AttributeKind for RecordComponentInfoAttribute {
    open spec fn name_index(&self) -> u16 {
        RecordComponentInfoAttribute::name_index(self)
    }

    open spec fn spec_name(&self) -> Seq<u8> {
        RecordComponentInfoAttribute::spec_name(self)
    }

    open spec fn known_name(n: Seq<u8>) -> bool {
        is_record_component_info_attribute_name(n)
    }

    open spec fn valid_in(&self, pool: ConstantPool) -> bool {
        RecordComponentInfoAttribute::valid_in(self, pool)
    }

    open spec fn outcome_named(s: Seq<u8>, pos: int, name: Seq<u8>, names: spec_fn(u16) -> Option<Seq<u8>>) -> Result<int, DecodeError> {
        RecordComponentInfoAttribute::outcome_named(s, pos, name, names)
    }

    proof fn lemma_cut_named(s: Seq<u8>, pos: int, name: Seq<u8>, names: spec_fn(u16) -> Option<Seq<u8>>, k: int) {
        lemma_cut_need(s, pos, 6, k);
        lemma_cut_body::<Annotation>(s, pos, k);
        lemma_cut_body::<TypeAnnotation>(s, pos, k);
    }

    proof fn lemma_unknown_named(s: Seq<u8>, pos: int, name: Seq<u8>, names: spec_fn(u16) -> Option<Seq<u8>>) {
    }

    fn parse_named(s: &[u8], pos: usize, name: &[u8], index: u16, pool: &ConstantPool) -> (r: Result<(RecordComponentInfoAttribute, usize), DecodeError>) {
        RecordComponentInfoAttribute::parse(s, pos, name, index, pool)
    }
}

#[derive(Debug)]
pub struct RecordComponentInfoAttributes {
    pub attributes_count: u16,
    pub attributes: Vec<RecordComponentInfoAttribute>,
}

impl Wire for RecordComponentInfoAttributes {
    open spec fn wire(&self) -> Seq<u8> {
        be16(self.attributes_count) + wire_seq(self.attributes@)
    }
}

impl RecordComponentInfoAttributes {
    /// The count agrees with the list, and every name resolves in the pool
    /// to the name of its variant.
    pub open spec fn valid_in(&self, pool: ConstantPool) -> bool {
        self.attributes_count == self.attributes@.len() && resolved_in(self.attributes@, pool)
    }

    /// Decodes a count and that many attributes, resolving each name in `pool`.
    pub fn parse(s: &[u8], pos: usize, pool: &ConstantPool) -> (r: Result<(RecordComponentInfoAttributes, usize), DecodeError>)
        requires
            pos <= s@.len(),
        ensures
            decoded_from(s@, pos as int, r),
            r matches Ok((x, _)) ==> x.valid_in(*pool),
            follows(r, counted_attrs::<RecordComponentInfoAttribute>(s@, pos as int, pool.names())),
    {
        let (attributes_count, p1) = read_u16(s, pos)?;
        let (attributes, p2) = parse_attribute_list::<RecordComponentInfoAttribute>(s, p1, attributes_count as usize, pool)?;
        proof { lemma_extend(s@, pos as int, p1 as int, p2 as int); }
        Ok((RecordComponentInfoAttributes { attributes_count, attributes }, p2))
    }
}
} // verus!

//! Annotations, element values and type annotations: a recursive grammar.

use vstd::prelude::*;
use crate::bytes::{Wire, Decode, need, clamp, stable_under_cut, lemma_cut_need, lemma_cut_list, follows, list_outcome, u16_at_spec, all_valid, decode_list, be16, wire_seq, decoded_from, lemma_extend, read_u8, read_u16};
use crate::error::{DecodeError, no_trailing};

verus! {

#[derive(Debug)]
pub struct Annotation {
    pub type_index: u16,
    pub num_element_value_pairs: u16,
    pub element_value_pairs: Vec<ElementValuePair>,
}

#[derive(Debug)]
pub struct ElementValuePair {
    pub element_name_index: u16,
    pub value: ElementValue,
}

/// A tagged element value; `tag` is the tag byte read from the wire.
#[derive(Debug)]
pub struct ElementValue {
    pub tag: u8,
    pub value: ElementValueEnum,
}

#[derive(Debug)]
pub enum ElementValueEnum {
    /// Tags `B C D F I J S Z s`: an index of a constant.
    ConstValueIndex(u16),
    /// Tag `e`.
    EnumConstValue { type_name_index: u16, const_name_index: u16 },
    /// Tag `c`.
    ClassInfoIndex(u16),
    /// Tag `@`.
    AnnotationValue(Annotation),
    /// Tag `[`.
    ArrayValue { num_values: u16, values: Vec<ElementValue> },
}

/// Tags of constant element values.
pub open spec fn is_const_tag(tag: u8) -> bool {
    tag == 0x42 || tag == 0x43 || tag == 0x44 || tag == 0x46 || tag == 0x49 || tag == 0x4a
        || tag == 0x53 || tag == 0x5a || tag == 0x73
}

pub const TAG_ENUM: u8 = 0x65;
pub const TAG_CLASS: u8 = 0x63;
pub const TAG_ANNOTATION: u8 = 0x40;
pub const TAG_ARRAY: u8 = 0x5b;

pub open spec fn annotation_wire(a: Annotation) -> Seq<u8>
    decreases a,
{
    be16(a.type_index) + be16(a.num_element_value_pairs) + pairs_wire(a.element_value_pairs@)
}

pub open spec fn pairs_wire(ps: Seq<ElementValuePair>) -> Seq<u8>
    decreases ps,
{
    if ps.len() == 0 {
        Seq::empty()
    } else {
        pairs_wire(ps.drop_last()) + be16(ps.last().element_name_index) + element_value_wire(
            ps.last().value,
        )
    }
}

pub open spec fn element_values_wire(vs: Seq<ElementValue>) -> Seq<u8>
    decreases vs,
{
    if vs.len() == 0 {
        Seq::empty()
    } else {
        element_values_wire(vs.drop_last()) + element_value_wire(vs.last())
    }
}

pub open spec fn element_value_wire(ev: ElementValue) -> Seq<u8>
    decreases ev,
{
    seq![ev.tag] + match ev.value {
        ElementValueEnum::ConstValueIndex(i) => be16(i),
        ElementValueEnum::EnumConstValue { type_name_index, const_name_index } => be16(
            type_name_index,
        ) + be16(const_name_index),
        ElementValueEnum::ClassInfoIndex(i) => be16(i),
        ElementValueEnum::AnnotationValue(a) => annotation_wire(a),
        ElementValueEnum::ArrayValue { num_values, values } => be16(num_values) + element_values_wire(
            values@,
        ),
    }
}

pub open spec fn annotation_wf(a: Annotation) -> bool
    decreases a,
{
    a.num_element_value_pairs == a.element_value_pairs@.len() && pairs_wf(a.element_value_pairs@)
}

pub open spec fn pairs_wf(ps: Seq<ElementValuePair>) -> bool
    decreases ps,
{
    ps.len() == 0 || (pairs_wf(ps.drop_last()) && element_value_wf(ps.last().value))
}

pub open spec fn element_values_wf(vs: Seq<ElementValue>) -> bool
    decreases vs,
{
    vs.len() == 0 || (element_values_wf(vs.drop_last()) && element_value_wf(vs.last()))
}

/// The variant agrees with the tag, and counts agree with lengths.
pub open spec fn element_value_wf(ev: ElementValue) -> bool
    decreases ev,
{
    match ev.value {
        ElementValueEnum::ConstValueIndex(_) => is_const_tag(ev.tag),
        ElementValueEnum::EnumConstValue { .. } => ev.tag == TAG_ENUM,
        ElementValueEnum::ClassInfoIndex(_) => ev.tag == TAG_CLASS,
        ElementValueEnum::AnnotationValue(a) => ev.tag == TAG_ANNOTATION && annotation_wf(a),
        ElementValueEnum::ArrayValue { num_values, values } => ev.tag == TAG_ARRAY && num_values
            == values@.len() && element_values_wf(values@),
    }
}

/// Outcome of an annotation at `pos`, standing `depth` levels deep.
pub open spec fn annotation_outcome(s: Seq<u8>, pos: int, depth: int) -> Result<int, DecodeError>
    decreases MAX_NESTING - depth, 70000int, 0int,
{
    match need(s, pos, 4) {
        Ok(p) => pairs_outcome(s, p, u16_at_spec(s, pos + 2) as int, depth),
        Err(e) => Err(e),
    }
}

/// Outcome of `n` element-value pairs at `pos`.
pub open spec fn pairs_outcome(s: Seq<u8>, pos: int, n: int, depth: int) -> Result<int, DecodeError>
    decreases MAX_NESTING - depth, n, 2int,
{
    if n <= 0 {
        Ok(pos)
    } else {
        match pair_outcome(s, pos, depth) {
            Ok(p) => pairs_outcome(s, p, n - 1, depth),
            Err(e) => Err(e),
        }
    }
}

/// Outcome of one element-value pair at `pos`.
pub open spec fn pair_outcome(s: Seq<u8>, pos: int, depth: int) -> Result<int, DecodeError>
    decreases MAX_NESTING - depth, 0int, 1int,
{
    match need(s, pos, 2) {
        Ok(p) => element_value_outcome(s, p, depth),
        Err(e) => Err(e),
    }
}

/// Outcome of `n` element values at `pos`.
pub open spec fn values_outcome(s: Seq<u8>, pos: int, n: int, depth: int) -> Result<int, DecodeError>
    decreases MAX_NESTING - depth, n, 2int,
{
    if n <= 0 {
        Ok(pos)
    } else {
        match element_value_outcome(s, pos, depth) {
            Ok(p) => values_outcome(s, p, n - 1, depth),
            Err(e) => Err(e),
        }
    }
}

/// Outcome of an element value at `pos`, standing `depth` levels deep.
pub open spec fn element_value_outcome(s: Seq<u8>, pos: int, depth: int) -> Result<int, DecodeError>
    decreases MAX_NESTING - depth, 0int, 0int,
{
    if pos >= s.len() || pos < 0 {
        Err(DecodeError::InsufficientBytes)
    } else {
        let tag = s[pos];
        let p1 = pos + 1;
        if is_const_tag(tag) || tag == TAG_CLASS {
            need(s, p1, 2)
        } else if tag == TAG_ENUM {
            need(s, p1, 4)
        } else if tag == TAG_ANNOTATION {
            if depth >= MAX_NESTING {
                Err(DecodeError::NestingTooDeep)
            } else {
                annotation_outcome(s, p1, depth + 1)
            }
        } else if tag == TAG_ARRAY {
            if depth >= MAX_NESTING {
                Err(DecodeError::NestingTooDeep)
            } else {
                match need(s, p1, 2) {
                    Ok(p2) => values_outcome(s, p2, u16_at_spec(s, p1) as int, depth + 1),
                    Err(e) => Err(e),
                }
            }
        } else {
            Err(DecodeError::InvalidElementValueTag)
        }
    }
}

pub proof fn lemma_cut_annotation(s: Seq<u8>, pos: int, depth: int, k: int)
    requires
        0 <= pos <= k <= s.len(),
        depth <= MAX_NESTING,
    ensures
        stable_under_cut(annotation_outcome(s, pos, depth), annotation_outcome(s.take(k), pos, depth), pos, k, s.len()),
    decreases MAX_NESTING - depth, 70000int, 0int,
{
    lemma_cut_need(s, pos, 4, k);
    if pos + 4 <= s.len() {
        lemma_cut_pairs(s, pos + 4, u16_at_spec(s, pos + 2) as int, depth, clamp(pos + 4, k));
    }
}

pub proof fn lemma_cut_pairs(s: Seq<u8>, pos: int, n: int, depth: int, k: int)
    requires
        0 <= pos <= k <= s.len(),
        depth <= MAX_NESTING,
        n < 70000,
    ensures
        stable_under_cut(pairs_outcome(s, pos, n, depth), pairs_outcome(s.take(k), pos, n, depth), pos, k, s.len()),
    decreases MAX_NESTING - depth, n, 2int,
{
    if n > 0 {
        lemma_cut_pair(s, pos, depth, k);
        if let Ok(p) = pair_outcome(s, pos, depth) {
            if p <= s.len() {
                lemma_cut_pairs(s, p, n - 1, depth, clamp(p, k));
            }
        }
    }
}

pub proof fn lemma_cut_pair(s: Seq<u8>, pos: int, depth: int, k: int)
    requires
        0 <= pos <= k <= s.len(),
        depth <= MAX_NESTING,
    ensures
        stable_under_cut(pair_outcome(s, pos, depth), pair_outcome(s.take(k), pos, depth), pos, k, s.len()),
    decreases MAX_NESTING - depth, 0int, 1int,
{
    lemma_cut_need(s, pos, 2, k);
    if pos + 2 <= s.len() {
        lemma_cut_element_value(s, pos + 2, depth, clamp(pos + 2, k));
    }
}

pub proof fn lemma_cut_values(s: Seq<u8>, pos: int, n: int, depth: int, k: int)
    requires
        0 <= pos <= k <= s.len(),
        depth <= MAX_NESTING,
        n < 70000,
    ensures
        stable_under_cut(values_outcome(s, pos, n, depth), values_outcome(s.take(k), pos, n, depth), pos, k, s.len()),
    decreases MAX_NESTING - depth, n, 2int,
{
    if n > 0 {
        lemma_cut_element_value(s, pos, depth, k);
        if let Ok(p) = element_value_outcome(s, pos, depth) {
            if p <= s.len() {
                lemma_cut_values(s, p, n - 1, depth, clamp(p, k));
            }
        }
    }
}

pub proof fn lemma_cut_element_value(s: Seq<u8>, pos: int, depth: int, k: int)
    requires
        0 <= pos <= k <= s.len(),
        depth <= MAX_NESTING,
    ensures
        stable_under_cut(element_value_outcome(s, pos, depth), element_value_outcome(s.take(k), pos, depth), pos, k, s.len()),
    decreases MAX_NESTING - depth, 0int, 0int,
{
    if pos < s.len() {
        let tag = s[pos];
        if is_const_tag(tag) || tag == TAG_CLASS {
            lemma_cut_need(s, pos + 1, 2, clamp(pos + 1, k));
        } else if tag == TAG_ENUM {
            lemma_cut_need(s, pos + 1, 4, clamp(pos + 1, k));
        } else if tag == TAG_ANNOTATION && depth < MAX_NESTING {
            lemma_cut_annotation(s, pos + 1, depth + 1, clamp(pos + 1, k));
        } else if tag == TAG_ARRAY && depth < MAX_NESTING {
            lemma_cut_need(s, pos + 1, 2, clamp(pos + 1, k));
            if pos + 3 <= s.len() {
                lemma_cut_values(s, pos + 3, u16_at_spec(s, pos + 1) as int, depth + 1, clamp(pos + 3, k));
            }
        }
    }
}

pub proof fn lemma_cut_target_info(s: Seq<u8>, pos: int, tt: u8, k: int)
    requires
        0 <= pos <= k <= s.len(),
    ensures
        stable_under_cut(target_info_outcome(s, pos, tt), target_info_outcome(s.take(k), pos, tt), pos, k, s.len()),
{
    lemma_cut_need(s, pos, 1, k);
    lemma_cut_need(s, pos, 2, k);
    lemma_cut_need(s, pos, 3, k);
    if (tt == 0x40 || tt == 0x41) && pos + 2 <= s.len() {
        lemma_cut_list::<LocalVarTableEntry>(s, pos + 2, u16_at_spec(s, pos) as nat, clamp(pos + 2, k));
    }
}

pub proof fn lemma_cut_type_path(s: Seq<u8>, pos: int, k: int)
    requires
        0 <= pos <= k <= s.len(),
    ensures
        stable_under_cut(type_path_outcome(s, pos), type_path_outcome(s.take(k), pos), pos, k, s.len()),
{
    lemma_cut_need(s, pos, 1, k);
    if pos + 1 <= s.len() {
        lemma_cut_list::<TypePathEntry>(s, pos + 1, s[pos] as nat, clamp(pos + 1, k));
    }
}

pub proof fn lemma_cut_type_annotation(s: Seq<u8>, pos: int, k: int)
    requires
        0 <= pos <= k <= s.len(),
    ensures
        stable_under_cut(type_annotation_outcome(s, pos), type_annotation_outcome(s.take(k), pos), pos, k, s.len()),
{
    lemma_cut_need(s, pos, 1, k);
    if pos + 1 <= s.len() {
        lemma_cut_target_info(s, pos + 1, s[pos], clamp(pos + 1, k));
        if let Ok(p2) = target_info_outcome(s, pos + 1, s[pos]) {
            if p2 <= s.len() {
                lemma_cut_type_path(s, p2, clamp(p2, k));
                if let Ok(p3) = type_path_outcome(s, p2) {
                    if p3 <= s.len() {
                        lemma_cut_need(s, p3, 4, clamp(p3, k));
                        if p3 + 4 <= s.len() {
                            lemma_cut_pairs(s, p3 + 4, u16_at_spec(s, p3 + 2) as int, 0, clamp(p3 + 4, k));
                        }
                    }
                }
            }
        }
    }
}

impl Wire for Annotation {
    open spec fn wire(&self) -> Seq<u8> {
        annotation_wire(*self)
    }
}

impl Wire for ElementValuePair {
    open spec fn wire(&self) -> Seq<u8> {
        be16(self.element_name_index) + element_value_wire(self.value)
    }
}

impl Wire for ElementValue {
    open spec fn wire(&self) -> Seq<u8> {
        element_value_wire(*self)
    }
}

/// How deep annotations and arrays may nest inside an element value.
pub const MAX_NESTING: u32 = 256;

impl Annotation {
    /// Decodes an annotation: type index, pair count, then the pairs.
    pub fn parse(s: &[u8], pos: usize) -> (r: Result<(Annotation, usize), DecodeError>)
        requires
            pos <= s@.len(),
        ensures
            decoded_from(s@, pos as int, r),
            r matches Ok((a, _)) ==> annotation_wf(a),
            follows(r, annotation_outcome(s@, pos as int, 0)),
    {
        Annotation::parse_nested(s, pos, 0)
    }

    /// Decodes an annotation that stands `depth` levels deep.
    pub fn parse_nested(s: &[u8], pos: usize, depth: u32) -> (r: Result<(Annotation, usize), DecodeError>)
        requires
            pos <= s@.len(),
            depth <= MAX_NESTING,
        ensures
            decoded_from(s@, pos as int, r),
            r matches Ok((a, _)) ==> annotation_wf(a),
            follows(r, annotation_outcome(s@, pos as int, depth as int)),
        decreases s@.len() - pos, 0int,
    {
        let (type_index, p1) = read_u16(s, pos)?;
        let (num, p2) = read_u16(s, p1)?;
        proof { lemma_extend(s@, pos as int, p1 as int, p2 as int); }
        let mut pairs: Vec<ElementValuePair> = Vec::new();
        let mut p = p2;
        let mut i: u16 = 0;
        while i < num
            invariant
                i <= num,
                pos < p2 <= p <= s@.len(),
                pairs@.len() == i,
                s@.subrange(p2 as int, p as int) == pairs_wire(pairs@),
                pairs_wf(pairs@),
                depth <= MAX_NESTING,
                annotation_outcome(s@, pos as int, depth as int) == pairs_outcome(s@, p as int, (num - i) as int, depth as int),
            decreases num - i,
        {
            let (pair, q) = ElementValuePair::parse_nested(s, p, depth)?;
            proof {
                lemma_extend(s@, p2 as int, p as int, q as int);
                assert(pairs@.push(pair).drop_last() =~= pairs@);
            }
            pairs.push(pair);
            p = q;
            i = i + 1;
        }
        proof {
            lemma_extend(s@, pos as int, p2 as int, p as int);
            if pairs@.len() == 0 {
                assert(s@.subrange(p2 as int, p as int) =~= Seq::empty());
            }
        }
        let a = Annotation { type_index, num_element_value_pairs: num, element_value_pairs: pairs };
        Ok((a, p))
    }
}

impl ElementValuePair {
    /// Decodes an element name index and its value.
    pub fn parse(s: &[u8], pos: usize) -> (r: Result<(ElementValuePair, usize), DecodeError>)
        requires
            pos <= s@.len(),
        ensures
            r matches Ok((x, end)) ==> pos < end <= s@.len() && s@.subrange(pos as int, end as int)
                == be16(x.element_name_index) + element_value_wire(x.value) && element_value_wf(
                x.value,
            ),
            no_trailing(r),
            follows(r, pair_outcome(s@, pos as int, 0)),
    {
        ElementValuePair::parse_nested(s, pos, 0)
    }

    /// Decodes a pair whose value stands `depth` levels deep.
    pub fn parse_nested(s: &[u8], pos: usize, depth: u32) -> (r: Result<(ElementValuePair, usize), DecodeError>)
        requires
            pos <= s@.len(),
            depth <= MAX_NESTING,
        ensures
            no_trailing(r),
            r matches Ok((x, end)) ==> pos < end <= s@.len() && s@.subrange(pos as int, end as int)
                == be16(x.element_name_index) + element_value_wire(x.value) && element_value_wf(
                x.value,
            ),
            follows(r, pair_outcome(s@, pos as int, depth as int)),
        decreases s@.len() - pos, 2int,
    {
        let (element_name_index, p1) = read_u16(s, pos)?;
        let (value, p2) = ElementValue::parse_nested(s, p1, depth)?;
        proof { lemma_extend(s@, pos as int, p1 as int, p2 as int); }
        Ok((ElementValuePair { element_name_index, value }, p2))
    }
}

impl ElementValue {
    /// Decodes a tag byte and the value it announces.
    pub fn parse(s: &[u8], pos: usize) -> (r: Result<(ElementValue, usize), DecodeError>)
        requires
            pos <= s@.len(),
        ensures
            no_trailing(r),
            r matches Ok((x, end)) ==> pos < end <= s@.len() && s@.subrange(pos as int, end as int)
                == element_value_wire(x) && element_value_wf(x),
            pos < s@.len() && !is_const_tag(s@[pos as int]) && s@[pos as int] != TAG_ENUM
                && s@[pos as int] != TAG_CLASS && s@[pos as int] != TAG_ANNOTATION && s@[pos as int]
                != TAG_ARRAY ==> r == Err::<(ElementValue, usize), DecodeError>(
                DecodeError::InvalidElementValueTag,
            ),
            follows(r, element_value_outcome(s@, pos as int, 0)),
    {
        ElementValue::parse_nested(s, pos, 0)
    }

    /// Decodes a value that stands `depth` levels deep; an annotation or an
    /// array beyond `MAX_NESTING` levels fails with `NestingTooDeep`.
    pub fn parse_nested(s: &[u8], pos: usize, depth: u32) -> (r: Result<(ElementValue, usize), DecodeError>)
        requires
            pos <= s@.len(),
            depth <= MAX_NESTING,
        ensures
            no_trailing(r),
            r matches Ok((x, end)) ==> pos < end <= s@.len() && s@.subrange(pos as int, end as int)
                == element_value_wire(x) && element_value_wf(x),
            pos < s@.len() && !is_const_tag(s@[pos as int]) && s@[pos as int] != TAG_ENUM
                && s@[pos as int] != TAG_CLASS && s@[pos as int] != TAG_ANNOTATION && s@[pos as int]
                != TAG_ARRAY ==> r == Err::<(ElementValue, usize), DecodeError>(
                DecodeError::InvalidElementValueTag,
            ),
            follows(r, element_value_outcome(s@, pos as int, depth as int)),
        decreases s@.len() - pos, 1int,
    {
        let (tag, p1) = read_u8(s, pos)?;
        if tag == 0x42 || tag == 0x43 || tag == 0x44 || tag == 0x46 || tag == 0x49 || tag == 0x4a
            || tag == 0x53 || tag == 0x5a || tag == 0x73 {
            let (index, p2) = read_u16(s, p1)?;
            proof { lemma_extend(s@, pos as int, p1 as int, p2 as int); }
            Ok((ElementValue { tag, value: ElementValueEnum::ConstValueIndex(index) }, p2))
        } else if tag == TAG_ENUM {
            let (type_name_index, p2) = read_u16(s, p1)?;
            let (const_name_index, p3) = read_u16(s, p2)?;
            proof {
                lemma_extend(s@, pos as int, p1 as int, p2 as int);
                lemma_extend(s@, pos as int, p2 as int, p3 as int);
                lemma_extend(s@, p1 as int, p2 as int, p3 as int);
            }
            let value = ElementValueEnum::EnumConstValue { type_name_index, const_name_index };
            Ok((ElementValue { tag, value }, p3))
        } else if tag == TAG_CLASS {
            let (index, p2) = read_u16(s, p1)?;
            proof { lemma_extend(s@, pos as int, p1 as int, p2 as int); }
            Ok((ElementValue { tag, value: ElementValueEnum::ClassInfoIndex(index) }, p2))
        } else if tag == TAG_ANNOTATION {
            if depth >= MAX_NESTING {
                return Err(DecodeError::NestingTooDeep);
            }
            let (a, p2) = Annotation::parse_nested(s, p1, depth + 1)?;
            proof { lemma_extend(s@, pos as int, p1 as int, p2 as int); }
            Ok((ElementValue { tag, value: ElementValueEnum::AnnotationValue(a) }, p2))
        } else if tag == TAG_ARRAY {
            if depth >= MAX_NESTING {
                return Err(DecodeError::NestingTooDeep);
            }
            let (num, p2) = read_u16(s, p1)?;
            let mut values: Vec<ElementValue> = Vec::new();
            let mut p = p2;
            let mut i: u16 = 0;
            while i < num
                invariant
                    i <= num,
                    pos < p1 < p2 <= p <= s@.len(),
                    tag == s@[pos as int],
                    tag == TAG_ARRAY,
                    depth < MAX_NESTING,
                    values@.len() == i,
                    element_value_outcome(s@, pos as int, depth as int) == values_outcome(s@, p as int, (num - i) as int, depth as int + 1),
                    s@.subrange(p2 as int, p as int) == element_values_wire(values@),
                    element_values_wf(values@),
                decreases num - i,
            {
                let (v, q) = ElementValue::parse_nested(s, p, depth + 1)?;
                proof {
                    lemma_extend(s@, p2 as int, p as int, q as int);
                    assert(values@.push(v).drop_last() =~= values@);
                }
                values.push(v);
                p = q;
                i = i + 1;
            }
            proof {
                lemma_extend(s@, pos as int, p1 as int, p2 as int);
                lemma_extend(s@, p1 as int, p2 as int, p as int);
                lemma_extend(s@, pos as int, p1 as int, p as int);
                if values@.len() == 0 {
                    assert(s@.subrange(p2 as int, p as int) =~= Seq::empty());
                }
            }
            Ok((ElementValue { tag, value: ElementValueEnum::ArrayValue { num_values: num, values } }, p))
        } else {
            Err(DecodeError::InvalidElementValueTag)
        }
    }
}

impl Decode for Annotation {
    open spec fn valid(&self) -> bool {
        annotation_wf(*self)
    }

    open spec fn outcome(s: Seq<u8>, pos: int) -> Result<int, DecodeError> {
        annotation_outcome(s, pos, 0)
    }

    proof fn lemma_cut(s: Seq<u8>, pos: int, k: int) {
        lemma_cut_annotation(s, pos, 0, k);
    }

    fn decode(s: &[u8], pos: usize) -> (r: Result<(Annotation, usize), DecodeError>) {
        Annotation::parse(s, pos)
    }
}

/// The annotations of one formal parameter.
#[derive(Debug)]
pub struct ParameterAnnotation {
    pub num_annotations: u16,
    pub annotations: Vec<Annotation>,
}

impl Wire for ParameterAnnotation {
    open spec fn wire(&self) -> Seq<u8> {
        be16(self.num_annotations) + wire_seq(self.annotations@)
    }
}

impl Decode for ParameterAnnotation {
    open spec fn valid(&self) -> bool {
        self.num_annotations == self.annotations@.len() && all_valid(self.annotations@)
    }

    open spec fn outcome(s: Seq<u8>, pos: int) -> Result<int, DecodeError> {
        match need(s, pos, 2) {
            Ok(p) => list_outcome::<Annotation>(s, p, u16_at_spec(s, pos) as nat),
            Err(e) => Err(e),
        }
    }

    proof fn lemma_cut(s: Seq<u8>, pos: int, k: int) {
        lemma_cut_need(s, pos, 2, k);
        if pos + 2 <= s.len() {
            lemma_cut_list::<Annotation>(s, pos + 2, u16_at_spec(s, pos) as nat, clamp(pos + 2, k));
        }
    }

    fn decode(s: &[u8], pos: usize) -> (r: Result<(ParameterAnnotation, usize), DecodeError>) {
        let (num_annotations, p1) = read_u16(s, pos)?;
        let (annotations, p2) = decode_list::<Annotation>(s, p1, num_annotations as usize)?;
        proof { lemma_extend(s@, pos as int, p1 as int, p2 as int); }
        Ok((ParameterAnnotation { num_annotations, annotations }, p2))
    }
}

#[derive(Debug)]
pub struct LocalVarTableEntry {
    pub start_pc: u16,
    pub length: u16,
    pub index: u16,
}

impl Wire for LocalVarTableEntry {
    open spec fn wire(&self) -> Seq<u8> {
        be16(self.start_pc) + be16(self.length) + be16(self.index)
    }
}

impl Decode for LocalVarTableEntry {
    open spec fn valid(&self) -> bool {
        true
    }

    open spec fn outcome(s: Seq<u8>, pos: int) -> Result<int, DecodeError> {
        need(s, pos, 6)
    }

    proof fn lemma_cut(s: Seq<u8>, pos: int, k: int) {
        lemma_cut_need(s, pos, 6, k);
    }

    fn decode(s: &[u8], pos: usize) -> (r: Result<(LocalVarTableEntry, usize), DecodeError>) {
        let (start_pc, p1) = read_u16(s, pos)?;
        let (length, p2) = read_u16(s, p1)?;
        let (index, p3) = read_u16(s, p2)?;
        proof {
            lemma_extend(s@, pos as int, p1 as int, p2 as int);
            lemma_extend(s@, pos as int, p2 as int, p3 as int);
        }
        Ok((LocalVarTableEntry { start_pc, length, index }, p3))
    }
}

/// What a type annotation applies to; the variant is chosen by the
/// annotation's target type.
#[derive(Debug)]
pub enum TargetInfo {
    TypeParameter { type_parameter_index: u8 },
    Supertype { supertype_index: u16 },
    TypeParameterBound { type_parameter_index: u8, bound_index: u8 },
    Empty {},
    FormalParameter { formal_parameter_index: u8 },
    Throws { throws_type_index: u16 },
    Localvar { table_length: u16, local_var_table: Vec<LocalVarTableEntry> },
    Catch { exception_table_index: u16 },
    Offset { offset: u16 },
    TypeArgument { offset: u16, type_argument_index: u8 },
}

/// Outcome of the target description that target type `tt` announces.
pub open spec fn target_info_outcome(s: Seq<u8>, pos: int, tt: u8) -> Result<int, DecodeError> {
    if tt <= 0x01 || tt == 0x16 {
        need(s, pos, 1)
    } else if tt == 0x10 || tt == 0x17 || tt == 0x42 || (0x43 <= tt <= 0x46) || tt == 0x11 || tt
        == 0x12 {
        need(s, pos, 2)
    } else if 0x13 <= tt <= 0x15 {
        Ok(pos)
    } else if tt == 0x40 || tt == 0x41 {
        match need(s, pos, 2) {
            Ok(p) => list_outcome::<LocalVarTableEntry>(s, p, u16_at_spec(s, pos) as nat),
            Err(e) => Err(e),
        }
    } else if 0x47 <= tt <= 0x4b {
        need(s, pos, 3)
    } else {
        Err(DecodeError::InvalidTargetType)
    }
}

/// Outcome of a type path at `pos`.
pub open spec fn type_path_outcome(s: Seq<u8>, pos: int) -> Result<int, DecodeError> {
    match need(s, pos, 1) {
        Ok(p) => list_outcome::<TypePathEntry>(s, p, s[pos] as nat),
        Err(e) => Err(e),
    }
}

/// Outcome of a type annotation at `pos`.
pub open spec fn type_annotation_outcome(s: Seq<u8>, pos: int) -> Result<int, DecodeError> {
    match need(s, pos, 1) {
        Err(e) => Err(e),
        Ok(p1) => match target_info_outcome(s, p1, s[pos]) {
            Err(e) => Err(e),
            Ok(p2) => match type_path_outcome(s, p2) {
                Err(e) => Err(e),
                Ok(p3) => match need(s, p3, 4) {
                    Err(e) => Err(e),
                    Ok(p5) => pairs_outcome(s, p5, u16_at_spec(s, p3 + 2) as int, 0),
                },
            },
        },
    }
}

/// Target types that the format defines.
pub open spec fn is_target_type(tt: u8) -> bool {
    tt <= 0x01 || (0x10 <= tt <= 0x17) || (0x40 <= tt <= 0x4b)
}

impl TargetInfo {
    /// The variant is the one that target type `tt` selects, and counts
    /// agree with lengths.
    pub open spec fn fits(&self, tt: u8) -> bool {
        match self {
            TargetInfo::TypeParameter { .. } => tt <= 0x01,
            TargetInfo::Supertype { .. } => tt == 0x10,
            TargetInfo::TypeParameterBound { .. } => tt == 0x11 || tt == 0x12,
            TargetInfo::Empty {} => 0x13 <= tt <= 0x15,
            TargetInfo::FormalParameter { .. } => tt == 0x16,
            TargetInfo::Throws { .. } => tt == 0x17,
            TargetInfo::Localvar { table_length, local_var_table } => (tt == 0x40 || tt == 0x41)
                && *table_length == local_var_table@.len(),
            TargetInfo::Catch { .. } => tt == 0x42,
            TargetInfo::Offset { .. } => 0x43 <= tt <= 0x46,
            TargetInfo::TypeArgument { .. } => 0x47 <= tt <= 0x4b,
        }
    }

    /// Decodes the target description that target type `target_type` announces.
    pub fn parse(s: &[u8], pos: usize, target_type: u8) -> (r: Result<(TargetInfo, usize), DecodeError>)
        requires
            pos <= s@.len(),
        ensures
            decoded_from(s@, pos as int, r),
            r matches Ok((x, _)) ==> x.fits(target_type),
            follows(r, target_info_outcome(s@, pos as int, target_type)),
            !is_target_type(target_type) ==> r == Err::<(TargetInfo, usize), DecodeError>(
                DecodeError::InvalidTargetType,
            ),
    {
        let tt = target_type;
        if tt <= 0x01 || tt == 0x16 {
            let (i, p1) = read_u8(s, pos)?;
            if tt == 0x16 {
                Ok((TargetInfo::FormalParameter { formal_parameter_index: i }, p1))
            } else {
                Ok((TargetInfo::TypeParameter { type_parameter_index: i }, p1))
            }
        } else if tt == 0x10 || tt == 0x17 || tt == 0x42 || (0x43 <= tt && tt <= 0x46) {
            let (i, p1) = read_u16(s, pos)?;
            if tt == 0x10 {
                Ok((TargetInfo::Supertype { supertype_index: i }, p1))
            } else if tt == 0x17 {
                Ok((TargetInfo::Throws { throws_type_index: i }, p1))
            } else if tt == 0x42 {
                Ok((TargetInfo::Catch { exception_table_index: i }, p1))
            } else {
                Ok((TargetInfo::Offset { offset: i }, p1))
            }
        } else if tt == 0x11 || tt == 0x12 {
            let (a, p1) = read_u8(s, pos)?;
            let (b, p2) = read_u8(s, p1)?;
            proof {
                lemma_extend(s@, pos as int, p1 as int, p2 as int);
                assert(seq![a] + seq![b] =~= seq![a, b]);
            }
            Ok((TargetInfo::TypeParameterBound { type_parameter_index: a, bound_index: b }, p2))
        } else if 0x13 <= tt && tt <= 0x15 {
            proof { assert(s@.subrange(pos as int, pos as int) =~= Seq::empty()); }
            Ok((TargetInfo::Empty {}, pos))
        } else if tt == 0x40 || tt == 0x41 {
            let (table_length, p1) = read_u16(s, pos)?;
            let (local_var_table, p2) = decode_list::<LocalVarTableEntry>(s, p1, table_length as usize)?;
            proof { lemma_extend(s@, pos as int, p1 as int, p2 as int); }
            Ok((TargetInfo::Localvar { table_length, local_var_table }, p2))
        } else if 0x47 <= tt && tt <= 0x4b {
            let (offset, p1) = read_u16(s, pos)?;
            let (i, p2) = read_u8(s, p1)?;
            proof { lemma_extend(s@, pos as int, p1 as int, p2 as int); }
            Ok((TargetInfo::TypeArgument { offset, type_argument_index: i }, p2))
        } else {
            Err(DecodeError::InvalidTargetType)
        }
    }
}

impl Wire for TargetInfo {
    open spec fn wire(&self) -> Seq<u8> {
        match self {
            TargetInfo::TypeParameter { type_parameter_index } => seq![*type_parameter_index],
            TargetInfo::Supertype { supertype_index } => be16(*supertype_index),
            TargetInfo::TypeParameterBound { type_parameter_index, bound_index } => seq![
                *type_parameter_index,
                *bound_index,
            ],
            TargetInfo::Empty {} => Seq::empty(),
            TargetInfo::FormalParameter { formal_parameter_index } => seq![*formal_parameter_index],
            TargetInfo::Throws { throws_type_index } => be16(*throws_type_index),
            TargetInfo::Localvar { table_length, local_var_table } => be16(*table_length) + wire_seq(
                local_var_table@,
            ),
            TargetInfo::Catch { exception_table_index } => be16(*exception_table_index),
            TargetInfo::Offset { offset } => be16(*offset),
            TargetInfo::TypeArgument { offset, type_argument_index } => be16(*offset) + seq![
                *type_argument_index,
            ],
        }
    }
}

#[derive(Debug)]
pub struct TypePathEntry {
    pub type_path_kind: u8,
    pub type_argument_index: u8,
}

impl Wire for TypePathEntry {
    open spec fn wire(&self) -> Seq<u8> {
        seq![self.type_path_kind, self.type_argument_index]
    }
}

impl Decode for TypePathEntry {
    open spec fn valid(&self) -> bool {
        true
    }

    open spec fn outcome(s: Seq<u8>, pos: int) -> Result<int, DecodeError> {
        need(s, pos, 2)
    }

    proof fn lemma_cut(s: Seq<u8>, pos: int, k: int) {
        lemma_cut_need(s, pos, 2, k);
    }

    fn decode(s: &[u8], pos: usize) -> (r: Result<(TypePathEntry, usize), DecodeError>) {
        let (type_path_kind, p1) = read_u8(s, pos)?;
        let (type_argument_index, p2) = read_u8(s, p1)?;
        proof {
            lemma_extend(s@, pos as int, p1 as int, p2 as int);
            assert(seq![type_path_kind] + seq![type_argument_index] =~= seq![
                type_path_kind,
                type_argument_index,
            ]);
        }
        Ok((TypePathEntry { type_path_kind, type_argument_index }, p2))
    }
}

#[derive(Debug)]
pub struct TypePath {
    pub path_length: u8,
    pub path: Vec<TypePathEntry>,
}

impl Wire for TypePath {
    open spec fn wire(&self) -> Seq<u8> {
        seq![self.path_length] + wire_seq(self.path@)
    }
}

impl TypePath {
    /// Decodes a path length and that many path entries.
    pub fn parse(s: &[u8], pos: usize) -> (r: Result<(TypePath, usize), DecodeError>)
        requires
            pos <= s@.len(),
        ensures
            decoded_from(s@, pos as int, r),
            r matches Ok((x, _)) ==> x.path_length == x.path@.len(),
            follows(r, type_path_outcome(s@, pos as int)),
    {
        let (path_length, p1) = read_u8(s, pos)?;
        let (path, p2) = decode_list::<TypePathEntry>(s, p1, path_length as usize)?;
        proof { lemma_extend(s@, pos as int, p1 as int, p2 as int); }
        Ok((TypePath { path_length, path }, p2))
    }
}

#[derive(Debug)]
pub struct TypeAnnotation {
    pub target_type: u8,
    pub target_info: TargetInfo,
    pub target_path: TypePath,
    pub type_index: u16,
    pub element_value_pairs: Vec<ElementValuePair>,
}

impl Wire for TypeAnnotation {
    open spec fn wire(&self) -> Seq<u8> {
        seq![self.target_type] + self.target_info.wire() + self.target_path.wire() + be16(
            self.type_index,
        ) + be16(self.element_value_pairs@.len() as u16) + pairs_wire(self.element_value_pairs@)
    }
}

impl TypeAnnotation {
    /// Decodes a target type, its target description, a type path, a type
    /// index and the element-value pairs.
    pub fn parse(s: &[u8], pos: usize) -> (r: Result<(TypeAnnotation, usize), DecodeError>)
        requires
            pos <= s@.len(),
        ensures
            decoded_from(s@, pos as int, r),
            r matches Ok((x, _)) ==> x.valid(),
            follows(r, type_annotation_outcome(s@, pos as int)),
    {
        let (target_type, p1) = read_u8(s, pos)?;
        let (target_info, p2) = TargetInfo::parse(s, p1, target_type)?;
        let (target_path, p3) = TypePath::parse(s, p2)?;
        let (type_index, p4) = read_u16(s, p3)?;
        let (num, p5) = read_u16(s, p4)?;
        proof {
            lemma_extend(s@, pos as int, p1 as int, p2 as int);
            lemma_extend(s@, pos as int, p2 as int, p3 as int);
            lemma_extend(s@, pos as int, p3 as int, p4 as int);
            lemma_extend(s@, pos as int, p4 as int, p5 as int);
        }
        let mut pairs: Vec<ElementValuePair> = Vec::new();
        let mut p = p5;
        let mut i: u16 = 0;
        while i < num
            invariant
                i <= num,
                pos < p5 <= p <= s@.len(),
                pairs@.len() == i,
                type_annotation_outcome(s@, pos as int) == pairs_outcome(s@, p as int, (num - i) as int, 0),
                s@.subrange(p5 as int, p as int) == pairs_wire(pairs@),
                pairs_wf(pairs@),
            decreases num - i,
        {
            let (pair, q) = ElementValuePair::parse(s, p)?;
            proof {
                lemma_extend(s@, p5 as int, p as int, q as int);
                assert(pairs@.push(pair).drop_last() =~= pairs@);
            }
            pairs.push(pair);
            p = q;
            i = i + 1;
        }
        proof {
            lemma_extend(s@, pos as int, p5 as int, p as int);
            if pairs@.len() == 0 {
                assert(s@.subrange(p5 as int, p as int) =~= Seq::empty());
            }
        }
        let x = TypeAnnotation {
            target_type,
            target_info,
            target_path,
            type_index,
            element_value_pairs: pairs,
        };
        Ok((x, p))
    }
}

impl Decode for TypeAnnotation {
    open spec fn valid(&self) -> bool {
        &&& self.target_info.fits(self.target_type)
        &&& self.target_path.path_length == self.target_path.path@.len()
        &&& self.element_value_pairs@.len() < 0x1_0000
        &&& pairs_wf(self.element_value_pairs@)
    }

    open spec fn outcome(s: Seq<u8>, pos: int) -> Result<int, DecodeError> {
        type_annotation_outcome(s, pos)
    }

    proof fn lemma_cut(s: Seq<u8>, pos: int, k: int) {
        lemma_cut_type_annotation(s, pos, k);
    }

    fn decode(s: &[u8], pos: usize) -> (r: Result<(TypeAnnotation, usize), DecodeError>) {
        TypeAnnotation::parse(s, pos)
    }
}

} // verus!

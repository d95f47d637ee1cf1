//! The constant pool: a 1-indexed table of tagged constant records.

use vstd::prelude::*;
use crate::bytes::{Wire, follows, lemma_split, lemma_be16_reads, lemma_wire_seq_front, clamp, stable_under_cut, u16_at_spec, be16, be32, wire_seq, lemma_extend, lemma_wire_seq_push, read_u8, read_u16, read_u32, read_bytes};
use crate::error::DecodeError;

verus! {

/// One constant-pool record, keyed on the wire by a one-byte tag.
#[derive(Debug, Clone)]
pub enum Constant {
    Class { name_index: u16 },
    Fieldref { class_index: u16, name_and_type_index: u16 },
    Methodref { class_index: u16, name_and_type_index: u16 },
    InterfaceMethodref { class_index: u16, name_and_type_index: u16 },
    String { string_index: u16 },
    Integer { bytes: u32 },
    Float { bytes: u32 },
    Long { high_bytes: u32, low_bytes: u32 },
    Double { high_bytes: u32, low_bytes: u32 },
    NameAndType { name_index: u16, descriptor_index: u16 },
    Utf8 { length: u16, bytes: Vec<u8> },
    MethodHandle { reference_kind: u8, reference_index: u16 },
    MethodType { descriptor_index: u16 },
    Dynamic { bootstrap_method_attr_index: u16, name_and_type_index: u16 },
    InvokeDynamic { bootstrap_method_attr_index: u16, name_and_type_index: u16 },
    Module { name_index: u16 },
    Package { name_index: u16 },
    /// A record whose tag is not defined; it carries no payload.
    Unknown { tag: u8 },
}

/// Tags that name a defined constant kind.
pub open spec fn is_known_tag(tag: u8) -> bool {
    tag == 1 || (3 <= tag <= 12) || (15 <= tag <= 20)
}

impl Constant {
    pub open spec fn wf(&self) -> bool {
        match self {
            Constant::Utf8 { length, bytes } => bytes@.len() == *length as int,
            Constant::Unknown { tag } => !is_known_tag(*tag),
            _ => true,
        }
    }
}

impl Wire for Constant {
    open spec fn wire(&self) -> Seq<u8> {
        match self {
            Constant::Class { name_index } => seq![7u8] + be16(*name_index),
            Constant::Fieldref { class_index, name_and_type_index } => seq![9u8] + be16(*class_index)
                + be16(*name_and_type_index),
            Constant::Methodref { class_index, name_and_type_index } => seq![10u8] + be16(*class_index)
                + be16(*name_and_type_index),
            Constant::InterfaceMethodref { class_index, name_and_type_index } => seq![11u8] + be16(
                *class_index,
            ) + be16(*name_and_type_index),
            Constant::String { string_index } => seq![8u8] + be16(*string_index),
            Constant::Integer { bytes } => seq![3u8] + be32(*bytes),
            Constant::Float { bytes } => seq![4u8] + be32(*bytes),
            Constant::Long { high_bytes, low_bytes } => seq![5u8] + be32(*high_bytes) + be32(*low_bytes),
            Constant::Double { high_bytes, low_bytes } => seq![6u8] + be32(*high_bytes) + be32(*low_bytes),
            Constant::NameAndType { name_index, descriptor_index } => seq![12u8] + be16(*name_index)
                + be16(*descriptor_index),
            Constant::Utf8 { length, bytes } => seq![1u8] + be16(*length) + bytes@,
            Constant::MethodHandle { reference_kind, reference_index } => seq![15u8, *reference_kind]
                + be16(*reference_index),
            Constant::MethodType { descriptor_index } => seq![16u8] + be16(*descriptor_index),
            Constant::Dynamic { bootstrap_method_attr_index, name_and_type_index } => seq![17u8]
                + be16(*bootstrap_method_attr_index) + be16(*name_and_type_index),
            Constant::InvokeDynamic { bootstrap_method_attr_index, name_and_type_index } => seq![18u8]
                + be16(*bootstrap_method_attr_index) + be16(*name_and_type_index),
            Constant::Module { name_index } => seq![19u8] + be16(*name_index),
            Constant::Package { name_index } => seq![20u8] + be16(*name_index),
            Constant::Unknown { tag } => seq![*tag],
        }
    }
}

/// The decoded pool. `count` is the count field of the class file, one more
/// than the number of records; valid indices are `1 .. count`.
///
/// Each record takes one slot, Long and Double included: the slot that the
/// class-file format leaves unused after those two kinds is not reserved here.
#[derive(Debug, Clone)]
pub struct ConstantPool {
    pub count: u16,
    pub constants: Vec<Constant>,
}

impl Wire for ConstantPool {
    open spec fn wire(&self) -> Seq<u8> {
        be16(self.count) + wire_seq(self.constants@)
    }
}

impl ConstantPool {
    pub open spec fn wf(&self) -> bool {
        &&& self.count >= 1
        &&& self.constants@.len() == self.count - 1
        &&& forall|i: int| 0 <= i < self.constants@.len() ==> #[trigger] self.constants@[i].wf()
    }

    /// The index names a slot of the pool.
    pub open spec fn valid_index(&self, index: u16) -> bool {
        1 <= index < self.count && index - 1 < self.constants@.len()
    }

    /// The record at a valid index.
    pub open spec fn at(&self, index: u16) -> Constant {
        self.constants@[index - 1]
    }

    /// The bytes of the Utf8 record at `index`, if there is one.
    pub open spec fn utf8_at(&self, index: u16) -> Option<Seq<u8>> {
        if self.valid_index(index) {
            match self.at(index) {
                Constant::Utf8 { bytes, .. } => Some(bytes@),
                _ => None,
            }
        } else {
            None
        }
    }

    /// The name lookup of the pool: the bytes of the Utf8 record at an index.
    pub open spec fn names(&self) -> spec_fn(u16) -> Option<Seq<u8>> {
        |i: u16| self.utf8_at(i)
    }

    /// An empty pool: count 1, no records.
    pub fn new() -> (r: ConstantPool)
        ensures
            r.wf(),
            r.count == 1,
            r.constants@.len() == 0,
    {
        ConstantPool { count: 1, constants: Vec::new() }
    }

    /// Looks up the record at a 1-based index.
    pub fn get_class(&self, index: u16) -> (r: Result<&Constant, DecodeError>)
        ensures
            r is Ok <==> self.valid_index(index),
            r matches Ok(c) ==> *c == self.at(index),
            r is Err ==> r == Err::<&Constant, DecodeError>(DecodeError::InvalidConstantIndex),
    {
        if index == 0 || index >= self.count {
            return Err(DecodeError::InvalidConstantIndex);
        }
        let i = (index - 1) as usize;
        if i >= self.constants.len() {
            return Err(DecodeError::InvalidConstantIndex);
        }
        Ok(&self.constants[i])
    }

    /// Looks up the record at a 1-based index and requires it to be a Class.
    pub fn check_class_index(&self, index: u16) -> (r: Result<&Constant, DecodeError>)
        ensures
            r is Ok <==> self.valid_index(index) && self.at(index) is Class,
            r matches Ok(c) ==> *c == self.at(index),
            r is Err ==> r == Err::<&Constant, DecodeError>(DecodeError::InvalidConstantIndex),
    {
        let c = self.get_class(index)?;
        check_constant_pool_class(c)
    }

    /// Resolves the Utf8 record at `index` to its bytes.
    pub fn utf8_bytes(&self, index: u16) -> (r: Result<&Vec<u8>, DecodeError>)
        ensures
            r is Ok <==> self.utf8_at(index) is Some,
            r matches Ok(b) ==> self.utf8_at(index) == Some(b@),
            r is Err ==> r == Err::<&Vec<u8>, DecodeError>(DecodeError::InvalidConstantIndex),
    {
        match self.get_class(index) {
            Ok(Constant::Utf8 { bytes, .. }) => Ok(bytes),
            _ => Err(DecodeError::InvalidConstantIndex),
        }
    }
}

impl Constant {
    /// The two records hold the same values.
    pub open spec fn same_as(&self, other: Constant) -> bool {
        match (*self, other) {
            (Constant::Utf8 { length: l1, bytes: b1 }, Constant::Utf8 { length: l2, bytes: b2 }) =>
                l1 == l2 && b1@ == b2@,
            _ => !(*self is Utf8) && *self == other,
        }
    }

    /// A copy of the record.
    pub fn duplicate(&self) -> (r: Constant)
        ensures
            r.same_as(*self),
    {
        match self {
            Constant::Utf8 { length, bytes } => {
                let copy = copy_bytes(bytes.as_slice());
                Constant::Utf8 { length: *length, bytes: copy }
            },
            Constant::Class { name_index } => Constant::Class { name_index: *name_index },
            Constant::Fieldref { class_index, name_and_type_index } => Constant::Fieldref { class_index: *class_index, name_and_type_index: *name_and_type_index },
            Constant::Methodref { class_index, name_and_type_index } => Constant::Methodref { class_index: *class_index, name_and_type_index: *name_and_type_index },
            Constant::InterfaceMethodref { class_index, name_and_type_index } => Constant::InterfaceMethodref { class_index: *class_index, name_and_type_index: *name_and_type_index },
            Constant::String { string_index } => Constant::String { string_index: *string_index },
            Constant::Integer { bytes } => Constant::Integer { bytes: *bytes },
            Constant::Float { bytes } => Constant::Float { bytes: *bytes },
            Constant::Long { high_bytes, low_bytes } => Constant::Long { high_bytes: *high_bytes, low_bytes: *low_bytes },
            Constant::Double { high_bytes, low_bytes } => Constant::Double { high_bytes: *high_bytes, low_bytes: *low_bytes },
            Constant::NameAndType { name_index, descriptor_index } => Constant::NameAndType { name_index: *name_index, descriptor_index: *descriptor_index },
            Constant::MethodHandle { reference_kind, reference_index } => Constant::MethodHandle { reference_kind: *reference_kind, reference_index: *reference_index },
            Constant::MethodType { descriptor_index } => Constant::MethodType { descriptor_index: *descriptor_index },
            Constant::Dynamic { bootstrap_method_attr_index, name_and_type_index } => Constant::Dynamic { bootstrap_method_attr_index: *bootstrap_method_attr_index, name_and_type_index: *name_and_type_index },
            Constant::InvokeDynamic { bootstrap_method_attr_index, name_and_type_index } => Constant::InvokeDynamic { bootstrap_method_attr_index: *bootstrap_method_attr_index, name_and_type_index: *name_and_type_index },
            Constant::Module { name_index } => Constant::Module { name_index: *name_index },
            Constant::Package { name_index } => Constant::Package { name_index: *name_index },
            Constant::Unknown { tag } => Constant::Unknown { tag: *tag },
        }
    }
}

fn copy_bytes(b: &[u8]) -> (r: Vec<u8>)
    ensures
        r@ == b@,
{
    let mut out: Vec<u8> = Vec::new();
    let mut i: usize = 0;
    while i < b.len()
        invariant
            i <= b@.len(),
            out@ == b@.subrange(0, i as int),
        decreases b@.len() - i,
    {
        out.push(b[i]);
        assert(out@ =~= b@.subrange(0, i as int + 1));
        i = i + 1;
    }
    assert(out@ =~= b@);
    out
}

impl ConstantPool {
    /// A copy of the pool.
    pub fn duplicate(&self) -> (r: ConstantPool)
        ensures
            r.count == self.count,
            r.constants@.len() == self.constants@.len(),
            forall|i: int| 0 <= i < r.constants@.len() ==> #[trigger] r.constants@[i].same_as(self.constants@[i]),
    {
        let mut constants: Vec<Constant> = Vec::new();
        let mut i: usize = 0;
        while i < self.constants.len()
            invariant
                i <= self.constants@.len(),
                constants@.len() == i,
                forall|k: int| 0 <= k < i ==> #[trigger] constants@[k].same_as(self.constants@[k]),
            decreases self.constants@.len() - i,
        {
            let c = self.constants[i].duplicate();
            constants.push(c);
            i = i + 1;
        }
        ConstantPool { count: self.count, constants }
    }
}

/// Accepts a record only if it is a Class constant.
pub fn check_constant_pool_class(constant: &Constant) -> (r: Result<&Constant, DecodeError>)
    ensures
        r is Ok <==> *constant is Class,
        r matches Ok(c) ==> c == constant,
        r is Err ==> r == Err::<&Constant, DecodeError>(DecodeError::InvalidConstantIndex),
{
    match constant {
        Constant::Class { .. } => Ok(constant),
        _ => Err(DecodeError::InvalidConstantIndex),
    }
}

/// Number of bytes that follow the tag of a record; for Utf8 it is read
/// from the record's length field.
pub open spec fn payload_size(s: Seq<u8>, pos: int) -> int {
    let tag = s[pos];
    if tag == 7 || tag == 8 || tag == 16 || tag == 19 || tag == 20 {
        2
    } else if tag == 9 || tag == 10 || tag == 11 || tag == 12 || tag == 17 || tag == 18 || tag
        == 3 || tag == 4 {
        4
    } else if tag == 5 || tag == 6 {
        8
    } else if tag == 15 {
        3
    } else if tag == 1 {
        if pos + 3 <= s.len() {
            2 + u16_at_spec(s, pos + 1)
        } else {
            2
        }
    } else {
        0
    }
}

/// The record at `st` is Utf8 exactly when `c` is, and then `c` holds the
/// record's bytes.
pub open spec fn matches_record(c: Constant, s: Seq<u8>, st: int) -> bool {
    match c {
        Constant::Utf8 { bytes, .. } => s[st] == 1 && bytes@ == s.subrange(st + 3, st + 3 + u16_at_spec(s, st + 1)),
        _ => s[st] != 1,
    }
}

/// Where record `i` (from 0) of a run of records starting at `p0` begins.
pub open spec fn record_start(s: Seq<u8>, p0: int, i: nat) -> int
    decreases i,
{
    if i == 0 {
        p0
    } else {
        record_start(s, p0 + 1 + payload_size(s, p0), (i - 1) as nat)
    }
}

/// The record after record `i` starts where record `i` ends.
pub proof fn lemma_record_start_step(s: Seq<u8>, p0: int, i: nat)
    ensures
        record_start(s, p0, i + 1) == record_start(s, p0, i) + 1 + payload_size(s, record_start(s, p0, i)),
    decreases i,
{
    let q0 = p0 + 1 + payload_size(s, p0);
    assert(record_start(s, p0, i + 1) == record_start(s, q0, i));
    if i > 0 {
        assert(record_start(s, p0, i) == record_start(s, q0, (i - 1) as nat));
        lemma_record_start_step(s, q0, (i - 1) as nat);
    } else {
        assert(record_start(s, q0, 0) == q0);
    }
}

/// Cutting the buffer at `k` after `n` fitting records keeps them and
/// their positions; cutting before their end makes them not fit.
pub proof fn lemma_cut_records(s: Seq<u8>, p: int, n: nat, k: int)
    requires
        0 <= p <= k <= s.len(),
        records_fit(s, p, n),
    ensures
        p <= record_start(s, p, n) <= s.len(),
        record_start(s, p, n) <= k ==> records_fit(s.take(k), p, n) && forall|i: nat|
            i <= n ==> #[trigger] record_start(s.take(k), p, i) == record_start(s, p, i),
        record_start(s, p, n) <= k ==> forall|i: nat|
            i < n ==> p <= #[trigger] record_start(s, p, i) && record_start(s, p, i) + 1 + payload_size(s, record_start(s, p, i))
                <= record_start(s, p, n),
        record_start(s, p, n) > k ==> !records_fit(s.take(k), p, n),
    decreases n,
{
    if n > 0 {
        let q = p + 1 + payload_size(s, p);
        lemma_cut_records(s, q, (n - 1) as nat, clamp(q, k));
        if record_start(s, p, n) <= k {
            assert(payload_size(s.take(k), p) == payload_size(s, p));
            assert forall|i: nat| i <= n implies #[trigger] record_start(s.take(k), p, i) == record_start(s, p, i) by {
                if i > 0 {
                    assert(record_start(s.take(k), q, (i - 1) as nat) == record_start(s, q, (i - 1) as nat));
                }
            }
            assert forall|i: nat| i < n implies p <= #[trigger] record_start(s, p, i) && record_start(s, p, i) + 1 + payload_size(s, record_start(s, p, i))
                <= record_start(s, p, n) by {
                if i > 0 {
                    assert(record_start(s, q, (i - 1) as nat) + 1 + payload_size(s, record_start(s, q, (i - 1) as nat))
                        <= record_start(s, q, (n - 1) as nat));
                }
            }
        } else if q <= k {
            assert(payload_size(s.take(k), p) == payload_size(s, p));
        }
    }
}

/// The name lookup of the pool whose count is at `pos`, read off the bytes:
/// the bytes of the Utf8 record at a valid index.
pub open spec fn pool_names(s: Seq<u8>, pos: int) -> spec_fn(u16) -> Option<Seq<u8>> {
    |idx: u16|
        if 1 <= idx < u16_at_spec(s, pos) && s[record_start(s, pos + 2, (idx - 1) as nat)] == 1 {
            let st = record_start(s, pos + 2, (idx - 1) as nat);
            Some(s.subrange(st + 3, st + 3 + u16_at_spec(s, st + 1)))
        } else {
            None
        }
}

/// Outcome of a pool at `pos`: its count, then the records.
pub open spec fn pool_outcome(s: Seq<u8>, pos: int) -> Result<int, DecodeError> {
    if pos + 2 > s.len() {
        Err(DecodeError::InsufficientBytes)
    } else if u16_at_spec(s, pos) == 0 {
        Err(DecodeError::InvalidConstantIndex)
    } else if records_fit(s, pos + 2, (u16_at_spec(s, pos) - 1) as nat) {
        Ok(record_start(s, pos + 2, (u16_at_spec(s, pos) - 1) as nat))
    } else {
        Err(DecodeError::InsufficientBytes)
    }
}

/// Decodes one record at `pos`. An undefined tag gives `Unknown` and
/// consumes the tag byte alone.
pub fn parse_constant(s: &[u8], pos: usize) -> (r: Result<(Constant, usize), DecodeError>)
    requires
        pos <= s@.len(),
    ensures
        r matches Ok((c, end)) ==> pos < end <= s@.len() && s@.subrange(pos as int, end as int)
            == c.wire() && c.wf() && end == pos + 1 + payload_size(s@, pos as int) && matches_record(
            c,
            s@,
            pos as int,
        ),
        r is Ok <==> pos < s@.len() && pos + 1 + payload_size(s@, pos as int) <= s@.len(),
        r is Err ==> r == Err::<(Constant, usize), DecodeError>(DecodeError::InsufficientBytes),
{
    let (tag, p0) = read_u8(s, pos)?;
    match tag {
        7 | 8 | 16 | 19 | 20 => {
            let (a, p1) = read_u16(s, p0)?;
            proof { lemma_extend(s@, pos as int, p0 as int, p1 as int); }
            let c = if tag == 7 {
                Constant::Class { name_index: a }
            } else if tag == 8 {
                Constant::String { string_index: a }
            } else if tag == 16 {
                Constant::MethodType { descriptor_index: a }
            } else if tag == 19 {
                Constant::Module { name_index: a }
            } else {
                Constant::Package { name_index: a }
            };
            Ok((c, p1))
        },
        9 | 10 | 11 | 12 | 17 | 18 => {
            let (a, p1) = read_u16(s, p0)?;
            let (b, p2) = read_u16(s, p1)?;
            proof {
                lemma_extend(s@, pos as int, p0 as int, p1 as int);
                lemma_extend(s@, pos as int, p1 as int, p2 as int);
            }
            let c = if tag == 9 {
                Constant::Fieldref { class_index: a, name_and_type_index: b }
            } else if tag == 10 {
                Constant::Methodref { class_index: a, name_and_type_index: b }
            } else if tag == 11 {
                Constant::InterfaceMethodref { class_index: a, name_and_type_index: b }
            } else if tag == 12 {
                Constant::NameAndType { name_index: a, descriptor_index: b }
            } else if tag == 17 {
                Constant::Dynamic { bootstrap_method_attr_index: a, name_and_type_index: b }
            } else {
                Constant::InvokeDynamic { bootstrap_method_attr_index: a, name_and_type_index: b }
            };
            Ok((c, p2))
        },
        3 | 4 => {
            let (a, p1) = read_u32(s, p0)?;
            proof { lemma_extend(s@, pos as int, p0 as int, p1 as int); }
            let c = if tag == 3 {
                Constant::Integer { bytes: a }
            } else {
                Constant::Float { bytes: a }
            };
            Ok((c, p1))
        },
        5 | 6 => {
            let (a, p1) = read_u32(s, p0)?;
            let (b, p2) = read_u32(s, p1)?;
            proof {
                lemma_extend(s@, pos as int, p0 as int, p1 as int);
                lemma_extend(s@, pos as int, p1 as int, p2 as int);
            }
            let c = if tag == 5 {
                Constant::Long { high_bytes: a, low_bytes: b }
            } else {
                Constant::Double { high_bytes: a, low_bytes: b }
            };
            Ok((c, p2))
        },
        1 => {
            let (length, p1) = read_u16(s, p0)?;
            let (bytes, p2) = read_bytes(s, p1, length as usize)?;
            proof {
                lemma_extend(s@, pos as int, p0 as int, p1 as int);
                lemma_extend(s@, pos as int, p1 as int, p2 as int);
            }
            Ok((Constant::Utf8 { length, bytes }, p2))
        },
        15 => {
            let (kind, p1) = read_u8(s, p0)?;
            let (index, p2) = read_u16(s, p1)?;
            proof {
                lemma_extend(s@, pos as int, p0 as int, p1 as int);
                lemma_extend(s@, pos as int, p1 as int, p2 as int);
                assert(seq![tag] + seq![kind] =~= seq![15u8, kind]);
            }
            Ok((Constant::MethodHandle { reference_kind: kind, reference_index: index }, p2))
        },
        _ => Ok((Constant::Unknown { tag }, p0)),
    }
}

/// `n` records, one after the other, fit in `s` from `pos`.
pub open spec fn records_fit(s: Seq<u8>, pos: int, n: nat) -> bool
    decreases n,
{
    n == 0 || (0 <= pos < s.len() && pos + 1 + payload_size(s, pos) <= s.len() && records_fit(
        s,
        pos + 1 + payload_size(s, pos),
        (n - 1) as nat,
    ))
}

/// A well-formed record laid out at `p` spans the tag and the payload size
/// its bytes give.
pub proof fn lemma_constant_layout(s: Seq<u8>, p: int, c: Constant)
    requires
        c.wf(),
        0 <= p,
        p + c.wire().len() <= s.len(),
        s.subrange(p, p + c.wire().len()) == c.wire(),
    ensures
        1 + payload_size(s, p) == c.wire().len(),
{
    assert(s[p] == s.subrange(p, p + c.wire().len())[0]);
    if let Constant::Utf8 { length, bytes } = c {
        lemma_split(s, p, seq![1u8] + be16(length), bytes@);
        lemma_split(s, p, seq![1u8], be16(length));
        lemma_be16_reads(s, p + 1, length);
    }
}

/// Well-formed records laid out one after the other at `p` fit, and end
/// where their layout ends.
pub proof fn lemma_records_layout(s: Seq<u8>, p: int, cs: Seq<Constant>)
    requires
        forall|i: int| 0 <= i < cs.len() ==> #[trigger] cs[i].wf(),
        0 <= p,
        p + wire_seq(cs).len() <= s.len(),
        s.subrange(p, p + wire_seq(cs).len()) == wire_seq(cs),
    ensures
        records_fit(s, p, cs.len()),
        record_start(s, p, cs.len()) == p + wire_seq(cs).len(),
    decreases cs.len(),
{
    if cs.len() > 0 {
        lemma_wire_seq_front(cs);
        let rest = cs.drop_first();
        lemma_split(s, p, cs[0].wire(), wire_seq(rest));
        lemma_constant_layout(s, p, cs[0]);
        assert forall|i: int| 0 <= i < rest.len() implies #[trigger] rest[i].wf() by {
            assert(rest[i] == cs[i + 1]);
        }
        lemma_records_layout(s, p + cs[0].wire().len(), rest);
    }
}

/// A well-formed pool laid out at `pos` decodes, ending where its layout ends.
pub proof fn lemma_pool_layout(s: Seq<u8>, pos: int, cp: ConstantPool)
    requires
        cp.wf(),
        0 <= pos,
        pos + cp.wire().len() <= s.len(),
        s.subrange(pos, pos + cp.wire().len()) == cp.wire(),
    ensures
        pool_outcome(s, pos) == Ok::<int, DecodeError>(pos + cp.wire().len()),
{
    lemma_split(s, pos, be16(cp.count), wire_seq(cp.constants@));
    lemma_be16_reads(s, pos, cp.count);
    lemma_records_layout(s, pos + 2, cp.constants@);
}

/// Cutting the buffer keeps or shortens the pool's outcome as for any layout.
pub proof fn lemma_cut_pool(s: Seq<u8>, pos: int, k: int)
    requires
        0 <= pos <= k <= s.len(),
    ensures
        stable_under_cut(pool_outcome(s, pos), pool_outcome(s.take(k), pos), pos, k, s.len()),
        pool_outcome(s, pos) matches Ok(e) && e <= k ==> pool_names(s.take(k), pos) == pool_names(s, pos),
{
    if pos + 2 <= s.len() && u16_at_spec(s, pos) >= 1 && records_fit(s, pos + 2, (u16_at_spec(s, pos) - 1) as nat) {
        let n = (u16_at_spec(s, pos) - 1) as nat;
        lemma_cut_records(s, pos + 2, n, clamp(pos + 2, k));
        if record_start(s, pos + 2, n) <= k {
            lemma_cut_records(s, pos + 2, n, k);
            let c = s.take(k);
            assert(u16_at_spec(c, pos) == u16_at_spec(s, pos));
            assert forall|idx: u16| #[trigger] pool_names(c, pos)(idx) == pool_names(s, pos)(idx) by {
                if 1 <= idx < u16_at_spec(s, pos) {
                    let i = (idx - 1) as nat;
                    let st = record_start(s, pos + 2, i);
                    assert(record_start(c, pos + 2, i) == st);
                    assert(st + 1 + payload_size(s, st) <= record_start(s, pos + 2, n));
                    assert(c[st] == s[st]);
                    if s[st] == 1 {
                        assert(u16_at_spec(c, st + 1) == u16_at_spec(s, st + 1));
                        assert(c.subrange(st + 3, st + 3 + u16_at_spec(s, st + 1)) =~= s.subrange(st + 3, st + 3 + u16_at_spec(s, st + 1)));
                    }
                }
            }
            assert(pool_names(c, pos) =~= pool_names(s, pos));
        }
    }
}

/// Decodes the pool count at `pos` and then `count - 1` records.
pub fn parse_constant_pool(s: &[u8], pos: usize) -> (r: Result<(ConstantPool, usize), DecodeError>)
    requires
        pos <= s@.len(),
    ensures
        r matches Ok((cp, end)) ==> pos <= end <= s@.len() && s@.subrange(pos as int, end as int)
            == cp.wire() && cp.wf(),
        follows(r, pool_outcome(s@, pos as int)),
        r matches Ok((cp, _)) ==> cp.names() == pool_names(s@, pos as int),
        r is Ok <==> pos + 2 <= s@.len() && u16_at_spec(s@, pos as int) >= 1 && records_fit(
            s@,
            pos + 2,
            (u16_at_spec(s@, pos as int) - 1) as nat,
        ),
        pos + 2 <= s@.len() && u16_at_spec(s@, pos as int) == 0 ==> r == Err::<
            (ConstantPool, usize),
            DecodeError,
        >(DecodeError::InvalidConstantIndex),
{
    let (count, p0) = read_u16(s, pos)?;
    if count == 0 {
        return Err(DecodeError::InvalidConstantIndex);
    }
    let mut constants: Vec<Constant> = Vec::new();
    let mut p = p0;
    let mut i: u16 = 1;
    while i < count
        invariant
            1 <= i <= count,
            count == u16_at_spec(s@, pos as int),
            p0 == pos + 2,
            pos < p0 <= p <= s@.len(),
            constants@.len() == i - 1,
            s@.subrange(pos as int, p0 as int) == be16(count),
            s@.subrange(p0 as int, p as int) == wire_seq(constants@),
            forall|k: int| 0 <= k < constants@.len() ==> #[trigger] constants@[k].wf(),
            records_fit(s@, p0 as int, (count - 1) as nat) <==> records_fit(s@, p as int, (count - i) as nat),
            p == record_start(s@, p0 as int, (i - 1) as nat),
            forall|k: int| 0 <= k < constants@.len() ==> #[trigger] matches_record(constants@[k], s@, record_start(s@, p0 as int, k as nat)),
        decreases count - i,
    {
        let (c, q) = parse_constant(s, p)?;
        proof {
            lemma_extend(s@, p0 as int, p as int, q as int);
            lemma_wire_seq_push(constants@, c);
        }
        proof {
            lemma_record_start_step(s@, p0 as int, (i - 1) as nat);
        }
        constants.push(c);
        p = q;
        i = i + 1;
    }
    let cp = ConstantPool { count, constants };
    proof {
        assert forall|idx: u16| #[trigger] cp.utf8_at(idx) == pool_names(s@, pos as int)(idx) by {
            if 1 <= idx < count {
                let k = idx - 1;
                assert(matches_record(cp.constants@[k as int], s@, record_start(s@, p0 as int, k as nat)));
            }
        }
        assert(cp.names() =~= pool_names(s@, pos as int));
        lemma_extend(s@, pos as int, p0 as int, p as int);
        if constants@.len() == 0 {
            assert(s@.subrange(p0 as int, p as int) =~= Seq::empty());
        }
    }
    Ok((cp, p))
}

} // verus!

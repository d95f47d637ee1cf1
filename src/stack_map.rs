//! Stack-map frames and the verification types they list.

use vstd::prelude::*;
use crate::bytes::{Wire, Decode, lemma_wire_seq_push, need, clamp, lemma_cut_need, lemma_cut_list, follows, list_outcome, u16_at_spec, all_valid, decode_list, be16, wire_seq, decoded_from, lemma_extend, read_u8, read_u16};
use crate::error::{DecodeError, no_trailing};

verus! {

/// A verification type; `tag` is the tag byte read from the wire.
#[derive(Debug)]
pub enum VerificationTypeInfo {
    TopVariableInfo { tag: u8 },
    IntegerVariableInfo { tag: u8 },
    FloatVariableInfo { tag: u8 },
    LongVariableInfo { tag: u8 },
    DoubleVariableInfo { tag: u8 },
    NullVariableInfo { tag: u8 },
    UninitializedThisVariableInfo { tag: u8 },
    ObjectVariableInfo { tag: u8, cpool_index: u16 },
    UninitializedVariableInfo { tag: u8, offset: u16 },
}

impl Wire for VerificationTypeInfo {
    open spec fn wire(&self) -> Seq<u8> {
        match self {
            VerificationTypeInfo::ObjectVariableInfo { tag, cpool_index } => seq![*tag] + be16(
                *cpool_index,
            ),
            VerificationTypeInfo::UninitializedVariableInfo { tag, offset } => seq![*tag] + be16(
                *offset,
            ),
            VerificationTypeInfo::TopVariableInfo { tag } => seq![*tag],
            VerificationTypeInfo::IntegerVariableInfo { tag } => seq![*tag],
            VerificationTypeInfo::FloatVariableInfo { tag } => seq![*tag],
            VerificationTypeInfo::LongVariableInfo { tag } => seq![*tag],
            VerificationTypeInfo::DoubleVariableInfo { tag } => seq![*tag],
            VerificationTypeInfo::NullVariableInfo { tag } => seq![*tag],
            VerificationTypeInfo::UninitializedThisVariableInfo { tag } => seq![*tag],
        }
    }
}

impl VerificationTypeInfo {
    /// The tag that the variant stands for.
    pub open spec fn tag_of(&self) -> u8 {
        match self {
            VerificationTypeInfo::TopVariableInfo { .. } => 0,
            VerificationTypeInfo::IntegerVariableInfo { .. } => 1,
            VerificationTypeInfo::FloatVariableInfo { .. } => 2,
            VerificationTypeInfo::LongVariableInfo { .. } => 3,
            VerificationTypeInfo::DoubleVariableInfo { .. } => 4,
            VerificationTypeInfo::NullVariableInfo { .. } => 5,
            VerificationTypeInfo::UninitializedThisVariableInfo { .. } => 6,
            VerificationTypeInfo::ObjectVariableInfo { .. } => 7,
            VerificationTypeInfo::UninitializedVariableInfo { .. } => 8,
        }
    }

    /// The stored tag byte.
    pub open spec fn stored_tag(&self) -> u8 {
        match self {
            VerificationTypeInfo::TopVariableInfo { tag } => *tag,
            VerificationTypeInfo::IntegerVariableInfo { tag } => *tag,
            VerificationTypeInfo::FloatVariableInfo { tag } => *tag,
            VerificationTypeInfo::LongVariableInfo { tag } => *tag,
            VerificationTypeInfo::DoubleVariableInfo { tag } => *tag,
            VerificationTypeInfo::NullVariableInfo { tag } => *tag,
            VerificationTypeInfo::UninitializedThisVariableInfo { tag } => *tag,
            VerificationTypeInfo::ObjectVariableInfo { tag, .. } => *tag,
            VerificationTypeInfo::UninitializedVariableInfo { tag, .. } => *tag,
        }
    }

    /// Decodes one verification type: a tag in 0..=8, and for tags 7 and 8
    /// a 16-bit operand.
    pub fn parse(s: &[u8], pos: usize) -> (r: Result<(VerificationTypeInfo, usize), DecodeError>)
        requires
            pos <= s@.len(),
        ensures
            decoded_from(s@, pos as int, r),
            r matches Ok((x, _)) ==> x.valid(),
            follows(r, VerificationTypeInfo::outcome(s@, pos as int)),
            r is Ok <==> pos < s@.len() && s@[pos as int] <= 8 && (s@[pos as int] >= 7 ==> pos + 3
                <= s@.len()),
            pos < s@.len() && s@[pos as int] > 8 ==> r == Err::<
                (VerificationTypeInfo, usize),
                DecodeError,
            >(DecodeError::InvalidVerificationTag),
    {
        let (tag, p1) = read_u8(s, pos)?;
        if tag == 7 || tag == 8 {
            let (operand, p2) = read_u16(s, p1)?;
            proof { lemma_extend(s@, pos as int, p1 as int, p2 as int); }
            if tag == 7 {
                Ok((VerificationTypeInfo::ObjectVariableInfo { tag, cpool_index: operand }, p2))
            } else {
                Ok((VerificationTypeInfo::UninitializedVariableInfo { tag, offset: operand }, p2))
            }
        } else {
            let x = match tag {
                0 => VerificationTypeInfo::TopVariableInfo { tag },
                1 => VerificationTypeInfo::IntegerVariableInfo { tag },
                2 => VerificationTypeInfo::FloatVariableInfo { tag },
                3 => VerificationTypeInfo::LongVariableInfo { tag },
                4 => VerificationTypeInfo::DoubleVariableInfo { tag },
                5 => VerificationTypeInfo::NullVariableInfo { tag },
                6 => VerificationTypeInfo::UninitializedThisVariableInfo { tag },
                _ => {
                    return Err(DecodeError::InvalidVerificationTag);
                },
            };
            Ok((x, p1))
        }
    }

    /// Decodes verification types one after the other until the end of the
    /// buffer.
    pub fn parse_vec(s: &[u8], pos: usize) -> (r: Result<(Vec<VerificationTypeInfo>, usize), DecodeError>)
        requires
            pos <= s@.len(),
        ensures
            r matches Ok((v, end)) ==> end == s@.len() && s@.subrange(pos as int, end as int) == wire_seq(v@)
                && all_valid(v@),
            follows(r, types_to_end_outcome(s@, pos as int)),
    {
        let mut out: Vec<VerificationTypeInfo> = Vec::new();
        let mut p: usize = pos;
        while p < s.len()
            invariant
                pos <= p <= s@.len(),
                s@.len() == s.len(),
                s@.subrange(pos as int, p as int) == wire_seq(out@),
                all_valid(out@),
                types_to_end_outcome(s@, pos as int) == types_to_end_outcome(s@, p as int),
            decreases s@.len() - p,
        {
            let (x, q) = VerificationTypeInfo::parse(s, p)?;
            proof {
                lemma_extend(s@, pos as int, p as int, q as int);
                lemma_wire_seq_push(out@, x);
            }
            out.push(x);
            p = q;
        }
        proof {
            if out@.len() == 0 {
                assert(s@.subrange(pos as int, p as int) =~= Seq::empty());
            }
        }
        Ok((out, p))
    }

    /// Decodes `count` verification types, one after the other.
    pub fn parse_vec_with_count(s: &[u8], pos: usize, count: usize) -> (r: Result<
        (Vec<VerificationTypeInfo>, usize),
        DecodeError,
    >)
        requires
            pos <= s@.len(),
        ensures
            no_trailing(r),
            r matches Ok((v, end)) ==> v@.len() == count && pos <= end <= s@.len() && s@.subrange(
                pos as int,
                end as int,
            ) == wire_seq(v@) && all_valid(v@),
            follows(r, list_outcome::<VerificationTypeInfo>(s@, pos as int, count as nat)),
    {
        decode_list::<VerificationTypeInfo>(s, pos, count)
    }
}

impl Decode for VerificationTypeInfo {
    open spec fn valid(&self) -> bool {
        self.stored_tag() == self.tag_of()
    }

    open spec fn outcome(s: Seq<u8>, pos: int) -> Result<int, DecodeError> {
        if pos >= s.len() {
            Err(DecodeError::InsufficientBytes)
        } else if s[pos] > 8 {
            Err(DecodeError::InvalidVerificationTag)
        } else if s[pos] >= 7 {
            need(s, pos + 1, 2)
        } else {
            Ok(pos + 1)
        }
    }

    proof fn lemma_cut(s: Seq<u8>, pos: int, k: int) {
        if pos < s.len() && 7 <= s[pos] <= 8 {
            lemma_cut_need(s, pos + 1, 2, clamp(pos + 1, k));
        }
    }

    fn decode(s: &[u8], pos: usize) -> (r: Result<(VerificationTypeInfo, usize), DecodeError>) {
        VerificationTypeInfo::parse(s, pos)
    }
}

/// Outcome of verification types from `pos` to the end of the buffer.
pub open spec fn types_to_end_outcome(s: Seq<u8>, pos: int) -> Result<int, DecodeError>
    decreases s.len() - pos,
    when 0 <= pos <= s.len()
{
    if pos >= s.len() {
        Ok(pos)
    } else if s[pos] > 8 {
        Err(DecodeError::InvalidVerificationTag)
    } else if s[pos] >= 7 {
        if pos + 3 <= s.len() {
            types_to_end_outcome(s, pos + 3)
        } else {
            Err(DecodeError::InsufficientBytes)
        }
    } else {
        types_to_end_outcome(s, pos + 1)
    }
}

/// One frame of a stack map; `frame_type` is the byte that selects the kind.
#[derive(Debug)]
pub enum StackMapFrame {
    SameFrame { frame_type: u8 },
    SameLocals1StackItemFrame { frame_type: u8, stack: Vec<VerificationTypeInfo> },
    SameLocals1StackItemFrameExtended {
        frame_type: u8,
        offset_delta: u16,
        stack: Vec<VerificationTypeInfo>,
    },
    ChopFrame { frame_type: u8, offset_delta: u16 },
    SameFrameExtended { frame_type: u8, offset_delta: u16 },
    AppendFrame { frame_type: u8, offset_delta: u16, locals: Vec<VerificationTypeInfo> },
    FullFrame {
        frame_type: u8,
        offset_delta: u16,
        number_of_locals: u16,
        locals: Vec<VerificationTypeInfo>,
        number_of_stack_items: u16,
        stack: Vec<VerificationTypeInfo>,
    },
}

impl Wire for StackMapFrame {
    open spec fn wire(&self) -> Seq<u8> {
        match self {
            StackMapFrame::SameFrame { frame_type } => seq![*frame_type],
            StackMapFrame::SameLocals1StackItemFrame { frame_type, stack } => seq![*frame_type]
                + wire_seq(stack@),
            StackMapFrame::SameLocals1StackItemFrameExtended { frame_type, offset_delta, stack } =>
                seq![*frame_type] + be16(*offset_delta) + wire_seq(stack@),
            StackMapFrame::ChopFrame { frame_type, offset_delta } => seq![*frame_type] + be16(
                *offset_delta,
            ),
            StackMapFrame::SameFrameExtended { frame_type, offset_delta } => seq![*frame_type]
                + be16(*offset_delta),
            StackMapFrame::AppendFrame { frame_type, offset_delta, locals } => seq![*frame_type]
                + be16(*offset_delta) + wire_seq(locals@),
            StackMapFrame::FullFrame {
                frame_type,
                offset_delta,
                number_of_locals,
                locals,
                number_of_stack_items,
                stack,
            } => seq![*frame_type] + be16(*offset_delta) + be16(*number_of_locals) + wire_seq(
                locals@,
            ) + be16(*number_of_stack_items) + wire_seq(stack@),
        }
    }
}

impl Decode for StackMapFrame {
    /// The variant is the one its frame type selects, and the lists have
    /// the lengths that the frame type or the counts give.
    open spec fn valid(&self) -> bool {
        match self {
            StackMapFrame::SameFrame { frame_type } => *frame_type <= 63,
            StackMapFrame::SameLocals1StackItemFrame { frame_type, stack } => 64 <= *frame_type
                <= 127 && stack@.len() == 1 && all_valid(stack@),
            StackMapFrame::SameLocals1StackItemFrameExtended { frame_type, stack, .. } => *frame_type
                >= 128 && *frame_type <= 247 && stack@.len() == 1 && all_valid(stack@),
            StackMapFrame::ChopFrame { frame_type, .. } => 248 <= *frame_type <= 250,
            StackMapFrame::SameFrameExtended { frame_type, .. } => *frame_type == 251,
            StackMapFrame::AppendFrame { frame_type, locals, .. } => 252 <= *frame_type <= 254
                && locals@.len() == *frame_type - 251 && all_valid(locals@),
            StackMapFrame::FullFrame {
                frame_type,
                number_of_locals,
                locals,
                number_of_stack_items,
                stack,
                ..
            } => *frame_type == 255 && locals@.len() == *number_of_locals && stack@.len()
                == *number_of_stack_items && all_valid(locals@) && all_valid(stack@),
        }
    }

    open spec fn outcome(s: Seq<u8>, pos: int) -> Result<int, DecodeError> {
        if pos >= s.len() {
            Err(DecodeError::InsufficientBytes)
        } else {
            let ft = s[pos];
            let p1 = pos + 1;
            if ft <= 63 {
                Ok(p1)
            } else if ft <= 127 {
                list_outcome::<VerificationTypeInfo>(s, p1, 1)
            } else {
                match need(s, p1, 2) {
                    Err(e) => Err(e),
                    Ok(p2) => if ft <= 247 {
                        list_outcome::<VerificationTypeInfo>(s, p2, 1)
                    } else if ft <= 251 {
                        Ok(p2)
                    } else if ft <= 254 {
                        list_outcome::<VerificationTypeInfo>(s, p2, (ft - 251) as nat)
                    } else {
                        match need(s, p2, 2) {
                            Err(e) => Err(e),
                            Ok(p3) => match list_outcome::<VerificationTypeInfo>(
                                s,
                                p3,
                                u16_at_spec(s, p2) as nat,
                            ) {
                                Err(e) => Err(e),
                                Ok(p4) => match need(s, p4, 2) {
                                    Err(e) => Err(e),
                                    Ok(p5) => list_outcome::<VerificationTypeInfo>(
                                        s,
                                        p5,
                                        u16_at_spec(s, p4) as nat,
                                    ),
                                },
                            },
                        }
                    },
                }
            }
        }
    }

    proof fn lemma_cut(s: Seq<u8>, pos: int, k: int) {
        if pos < s.len() {
            let ft = s[pos];
            if 64 <= ft <= 127 {
                lemma_cut_list::<VerificationTypeInfo>(s, pos + 1, 1, clamp(pos + 1, k));
            } else if ft >= 128 {
                lemma_cut_need(s, pos + 1, 2, clamp(pos + 1, k));
                if pos + 3 <= s.len() {
                    if ft <= 247 {
                        lemma_cut_list::<VerificationTypeInfo>(s, pos + 3, 1, clamp(pos + 3, k));
                    } else if 252 <= ft <= 254 {
                        lemma_cut_list::<VerificationTypeInfo>(s, pos + 3, (ft - 251) as nat, clamp(pos + 3, k));
                    } else if ft == 255 {
                        lemma_cut_need(s, pos + 3, 2, clamp(pos + 3, k));
                        if pos + 5 <= s.len() {
                            let n = u16_at_spec(s, pos + 3) as nat;
                            lemma_cut_list::<VerificationTypeInfo>(s, pos + 5, n, clamp(pos + 5, k));
                            if let Ok(p4) = list_outcome::<VerificationTypeInfo>(s, pos + 5, n) {
                                if p4 <= s.len() {
                                    lemma_cut_need(s, p4, 2, clamp(p4, k));
                                    if p4 + 2 <= s.len() {
                                        lemma_cut_list::<VerificationTypeInfo>(s, p4 + 2, u16_at_spec(s, p4) as nat, clamp(p4 + 2, k));
                                    }
                                }
                            }
                        }
                    }
                }
            }
        }
    }

    fn decode(s: &[u8], pos: usize) -> (r: Result<(StackMapFrame, usize), DecodeError>) {
        StackMapFrame::parse(s, pos)
    }
}

impl StackMapFrame {
    /// Decodes one frame; its first byte selects the kind.
    pub fn parse(s: &[u8], pos: usize) -> (r: Result<(StackMapFrame, usize), DecodeError>)
        requires
            pos <= s@.len(),
        ensures
            decoded_from(s@, pos as int, r),
            r matches Ok((x, _)) ==> x.valid(),
            follows(r, StackMapFrame::outcome(s@, pos as int)),
    {
        let (frame_type, p1) = read_u8(s, pos)?;
        if frame_type <= 63 {
            Ok((StackMapFrame::SameFrame { frame_type }, p1))
        } else if frame_type <= 127 {
            let (stack, p2) = decode_list::<VerificationTypeInfo>(s, p1, 1)?;
            proof { lemma_extend(s@, pos as int, p1 as int, p2 as int); }
            Ok((StackMapFrame::SameLocals1StackItemFrame { frame_type, stack }, p2))
        } else {
            let (offset_delta, p2) = read_u16(s, p1)?;
            proof { lemma_extend(s@, pos as int, p1 as int, p2 as int); }
            if frame_type <= 247 {
                let (stack, p3) = decode_list::<VerificationTypeInfo>(s, p2, 1)?;
                proof { lemma_extend(s@, pos as int, p2 as int, p3 as int); }
                Ok((StackMapFrame::SameLocals1StackItemFrameExtended { frame_type, offset_delta, stack }, p3))
            } else if frame_type <= 250 {
                Ok((StackMapFrame::ChopFrame { frame_type, offset_delta }, p2))
            } else if frame_type == 251 {
                Ok((StackMapFrame::SameFrameExtended { frame_type, offset_delta }, p2))
            } else if frame_type <= 254 {
                let n = (frame_type - 251) as usize;
                let (locals, p3) = decode_list::<VerificationTypeInfo>(s, p2, n)?;
                proof { lemma_extend(s@, pos as int, p2 as int, p3 as int); }
                Ok((StackMapFrame::AppendFrame { frame_type, offset_delta, locals }, p3))
            } else {
                let (number_of_locals, p3) = read_u16(s, p2)?;
                let (locals, p4) = decode_list::<VerificationTypeInfo>(s, p3, number_of_locals as usize)?;
                let (number_of_stack_items, p5) = read_u16(s, p4)?;
                let (stack, p6) = decode_list::<VerificationTypeInfo>(s, p5, number_of_stack_items as usize)?;
                proof {
                    lemma_extend(s@, pos as int, p2 as int, p3 as int);
                    lemma_extend(s@, pos as int, p3 as int, p4 as int);
                    lemma_extend(s@, pos as int, p4 as int, p5 as int);
                    lemma_extend(s@, pos as int, p5 as int, p6 as int);
                }
                let x = StackMapFrame::FullFrame {
                    frame_type,
                    offset_delta,
                    number_of_locals,
                    locals,
                    number_of_stack_items,
                    stack,
                };
                Ok((x, p6))
            }
        }
    }
}

} // verus!

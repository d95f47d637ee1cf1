use classfile::annotation::{Annotation, ElementValue, ElementValueEnum, TargetInfo, TypeAnnotation, TypePath};
use classfile::error::DecodeError;
use classfile::records::LineNumberTableEntry;
use classfile::stack_map::{StackMapFrame, VerificationTypeInfo};

#[test]
fn element_value_kinds() {
    let (v, end) = ElementValue::parse(&[b'I', 0, 7], 0).unwrap();
    assert_eq!(end, 3);
    assert_eq!(v.tag, b'I');
    assert!(matches!(v.value, ElementValueEnum::ConstValueIndex(7)));

    let (v, _) = ElementValue::parse(&[b'e', 0, 1, 0, 2], 0).unwrap();
    assert!(matches!(v.value, ElementValueEnum::EnumConstValue { type_name_index: 1, const_name_index: 2 }));

    let (v, _) = ElementValue::parse(&[b'c', 0, 9], 0).unwrap();
    assert!(matches!(v.value, ElementValueEnum::ClassInfoIndex(9)));

    let (v, end) = ElementValue::parse(&[b'@', 0, 4, 0, 1, 0, 5, b'Z', 0, 6], 0).unwrap();
    assert_eq!(end, 10);
    match v.value {
        ElementValueEnum::AnnotationValue(a) => {
            assert_eq!(a.type_index, 4);
            assert_eq!(a.num_element_value_pairs, 1);
            assert_eq!(a.element_value_pairs[0].element_name_index, 5);
        }
        other => panic!("expected an annotation, got {:?}", other),
    }

    let (v, end) = ElementValue::parse(&[b'[', 0, 2, b's', 0, 1, b'[', 0, 0], 0).unwrap();
    assert_eq!(end, 9);
    match v.value {
        ElementValueEnum::ArrayValue { num_values, values } => {
            assert_eq!(num_values, 2);
            assert!(matches!(values[1].value, ElementValueEnum::ArrayValue { num_values: 0, .. }));
        }
        other => panic!("expected an array, got {:?}", other),
    }
}

#[test]
fn undefined_element_value_tag_fails() {
    assert_eq!(ElementValue::parse(&[b'X', 0, 1], 0).unwrap_err(), DecodeError::InvalidElementValueTag);
    assert_eq!(
        Annotation::parse(&[0, 1, 0, 1, 0, 2, b'?'], 0).unwrap_err(),
        DecodeError::InvalidElementValueTag
    );
}

#[test]
fn nested_truncation_is_insufficient() {
    assert_eq!(ElementValue::parse(&[b'[', 0, 2, b'I', 0, 1], 0).unwrap_err(), DecodeError::InsufficientBytes);
}

#[test]
fn type_annotation_with_local_variable_target() {
    let bytes = [0x40, 0, 1, 0, 2, 0, 3, 0, 4, 1, 3, 0, 0, 9, 0, 0];
    let (t, end) = TypeAnnotation::parse(&bytes, 0).unwrap();
    assert_eq!(end, bytes.len());
    assert_eq!(t.target_type, 0x40);
    match t.target_info {
        TargetInfo::Localvar { table_length, local_var_table } => {
            assert_eq!(table_length, 1);
            assert_eq!(local_var_table[0].start_pc, 2);
            assert_eq!(local_var_table[0].length, 3);
            assert_eq!(local_var_table[0].index, 4);
        }
        other => panic!("expected a local variable target, got {:?}", other),
    }
    assert_eq!(t.target_path.path_length, 1);
    assert_eq!(t.target_path.path[0].type_path_kind, 3);
    assert_eq!(t.type_index, 9);
    assert!(t.element_value_pairs.is_empty());
}

#[test]
fn target_info_follows_target_type() {
    let (t, end) = TargetInfo::parse(&[], 0, 0x13).unwrap();
    assert_eq!(end, 0);
    assert!(matches!(t, TargetInfo::Empty {}));
    let (t, _) = TargetInfo::parse(&[0, 7, 2], 0, 0x47).unwrap();
    assert!(matches!(t, TargetInfo::TypeArgument { offset: 7, type_argument_index: 2 }));
    let (t, _) = TargetInfo::parse(&[1, 2], 0, 0x11).unwrap();
    assert!(matches!(t, TargetInfo::TypeParameterBound { type_parameter_index: 1, bound_index: 2 }));
    assert_eq!(TargetInfo::parse(&[0, 0], 0, 0x30).unwrap_err(), DecodeError::InvalidTargetType);
}

#[test]
fn type_path_reads_its_length() {
    let (p, end) = TypePath::parse(&[2, 0, 0, 3, 1], 0).unwrap();
    assert_eq!(end, 5);
    assert_eq!(p.path.len(), 2);
    assert_eq!(p.path[1].type_argument_index, 1);
}

#[test]
fn verification_types() {
    let (v, end) = VerificationTypeInfo::parse(&[7, 0, 12], 0).unwrap();
    assert_eq!(end, 3);
    assert!(matches!(v, VerificationTypeInfo::ObjectVariableInfo { tag: 7, cpool_index: 12 }));
    let (v, end) = VerificationTypeInfo::parse(&[1], 0).unwrap();
    assert_eq!(end, 1);
    assert!(matches!(v, VerificationTypeInfo::IntegerVariableInfo { tag: 1 }));
    assert_eq!(VerificationTypeInfo::parse(&[9], 0).unwrap_err(), DecodeError::InvalidVerificationTag);
    let (list, end) = VerificationTypeInfo::parse_vec_with_count(&[1, 8, 0, 3, 0], 0, 3).unwrap();
    assert_eq!(end, 5);
    assert_eq!(list.len(), 3);
}

#[test]
fn stack_map_frames() {
    let (f, end) = StackMapFrame::parse(&[5], 0).unwrap();
    assert_eq!(end, 1);
    assert!(matches!(f, StackMapFrame::SameFrame { frame_type: 5 }));

    let (f, end) = StackMapFrame::parse(&[70, 1], 0).unwrap();
    assert_eq!(end, 2);
    assert!(matches!(f, StackMapFrame::SameLocals1StackItemFrame { frame_type: 70, .. }));

    let (f, end) = StackMapFrame::parse(&[247, 0, 3, 2], 0).unwrap();
    assert_eq!(end, 4);
    assert!(matches!(f, StackMapFrame::SameLocals1StackItemFrameExtended { offset_delta: 3, .. }));

    let (f, _) = StackMapFrame::parse(&[249, 0, 4], 0).unwrap();
    assert!(matches!(f, StackMapFrame::ChopFrame { frame_type: 249, offset_delta: 4 }));

    let (f, _) = StackMapFrame::parse(&[251, 0, 4], 0).unwrap();
    assert!(matches!(f, StackMapFrame::SameFrameExtended { offset_delta: 4, .. }));

    let (f, end) = StackMapFrame::parse(&[253, 0, 1, 1, 7, 0, 2], 0).unwrap();
    assert_eq!(end, 7);
    match f {
        StackMapFrame::AppendFrame { locals, .. } => assert_eq!(locals.len(), 2),
        other => panic!("expected an append frame, got {:?}", other),
    }

    let (f, end) = StackMapFrame::parse(&[255, 0, 1, 0, 1, 4, 0, 2, 5, 6], 0).unwrap();
    assert_eq!(end, 10);
    match f {
        StackMapFrame::FullFrame { number_of_locals, locals, number_of_stack_items, stack, .. } => {
            assert_eq!(number_of_locals, 1);
            assert_eq!(locals.len(), 1);
            assert_eq!(number_of_stack_items, 2);
            assert_eq!(stack.len(), 2);
        }
        other => panic!("expected a full frame, got {:?}", other),
    }
}

#[test]
fn reserved_frame_types_decode_as_extended() {
    let (f, end) = StackMapFrame::parse(&[128, 0, 9, 1], 0).unwrap();
    assert_eq!(end, 4);
    assert!(matches!(f, StackMapFrame::SameLocals1StackItemFrameExtended { frame_type: 128, offset_delta: 9, .. }));
    let (f, end) = StackMapFrame::parse(&[246, 0, 1, 7, 0, 3], 0).unwrap();
    assert_eq!(end, 6);
    assert!(matches!(f, StackMapFrame::SameLocals1StackItemFrameExtended { frame_type: 246, .. }));
    assert_eq!(StackMapFrame::parse(&[200, 0], 0).unwrap_err(), DecodeError::InsufficientBytes);
}

#[test]
fn line_number_entry() {
    let (e, end) = LineNumberTableEntry::parse(&[0, 1, 0, 42], 0).unwrap();
    assert_eq!(end, 4);
    assert_eq!(e.start_pc, 1);
    assert_eq!(e.line_number, 42);
    assert_eq!(LineNumberTableEntry::parse(&[0, 1, 0], 0).unwrap_err(), DecodeError::InsufficientBytes);
}

#[test]
fn deep_nesting_is_refused() {
    let mut bytes = Vec::new();
    for _ in 0..300 {
        bytes.extend([b'[', 0, 1]);
    }
    bytes.extend([b'I', 0, 1]);
    assert_eq!(ElementValue::parse(&bytes, 0).unwrap_err(), DecodeError::NestingTooDeep);
}

#[test]
fn moderate_nesting_decodes() {
    let mut bytes = Vec::new();
    for _ in 0..10 {
        bytes.extend([b'[', 0, 1]);
    }
    bytes.extend([b'I', 0, 1]);
    let (_, end) = ElementValue::parse(&bytes, 0).unwrap();
    assert_eq!(end, bytes.len());
}

#[test]
fn verification_types_to_the_end() {
    let (v, end) = VerificationTypeInfo::parse_vec(&[9, 1, 7, 0, 4, 0], 1).unwrap();
    assert_eq!(end, 6);
    assert_eq!(v.len(), 3);
    assert!(matches!(v[1], VerificationTypeInfo::ObjectVariableInfo { tag: 7, cpool_index: 4 }));
    assert!(VerificationTypeInfo::parse_vec(&[], 0).unwrap().0.is_empty());
    assert_eq!(VerificationTypeInfo::parse_vec(&[1, 8, 0], 0).unwrap_err(), DecodeError::InsufficientBytes);
    assert_eq!(VerificationTypeInfo::parse_vec(&[1, 9], 0).unwrap_err(), DecodeError::InvalidVerificationTag);
}

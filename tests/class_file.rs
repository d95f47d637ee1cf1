use classfile::class_file::{parse_all, ClassFileParser};
use classfile::constant_pool::{Constant, ConstantPool};
use classfile::error::DecodeError;
use classfile::family::{ClassFileAttribute, CodeNestedAttribute, MethodInfoAttribute, RecordComponentInfoAttribute};

fn u16be(v: u16) -> Vec<u8> {
    v.to_be_bytes().to_vec()
}

fn u32be(v: u32) -> Vec<u8> {
    v.to_be_bytes().to_vec()
}

fn utf8_entry(s: &str) -> Vec<u8> {
    let mut out = vec![1u8];
    out.extend(u16be(s.len() as u16));
    out.extend(s.as_bytes());
    out
}

/// Magic, version 0.65, the given pool entries, empty flags and indices,
/// and the given interfaces/fields/methods/attributes sections.
fn class_bytes(pool: &[Vec<u8>], methods: &[Vec<u8>], class_attrs: &[Vec<u8>]) -> Vec<u8> {
    let mut out = vec![0xCA, 0xFE, 0xBA, 0xBE, 0x00, 0x00, 0x00, 0x41];
    out.extend(u16be(pool.len() as u16 + 1));
    for e in pool {
        out.extend(e);
    }
    out.extend([0, 0, 0, 0, 0, 0]);
    out.extend(u16be(0));
    out.extend(u16be(0));
    out.extend(u16be(methods.len() as u16));
    for m in methods {
        out.extend(m);
    }
    out.extend(u16be(class_attrs.len() as u16));
    for a in class_attrs {
        out.extend(a);
    }
    out
}

fn method_bytes(attrs: &[Vec<u8>]) -> Vec<u8> {
    let mut out = vec![0, 0, 0, 1, 0, 1];
    out.extend(u16be(attrs.len() as u16));
    for a in attrs {
        out.extend(a);
    }
    out
}

fn attribute(name_index: u16, body: &[u8]) -> Vec<u8> {
    let mut out = u16be(name_index);
    out.extend(u32be(body.len() as u32));
    out.extend(body);
    out
}

fn code_body(code: &[u8], nested: &[Vec<u8>]) -> Vec<u8> {
    let mut out = vec![0, 1, 0, 1];
    out.extend(u32be(code.len() as u32));
    out.extend(code);
    out.extend(u16be(0));
    out.extend(u16be(nested.len() as u16));
    for a in nested {
        out.extend(a);
    }
    out
}

fn minimal() -> Vec<u8> {
    vec![
        0xCA, 0xFE, 0xBA, 0xBE, 0x00, 0x00, 0x00, 0x41, 0x00, 0x01, 0x00, 0x00, 0x00, 0x00, 0x00,
        0x00, 0x00, 0x00, 0x00, 0x00,
    ]
}

fn with_method_and_attribute_counts(mut bytes: Vec<u8>) -> Vec<u8> {
    bytes.extend([0x00, 0x00, 0x00, 0x00]);
    bytes
}

fn scenario_c() -> Vec<u8> {
    let code_attr = attribute(1, &code_body(&[0x00], &[]));
    class_bytes(&[utf8_entry("Code")], &[method_bytes(&[code_attr])], &[])
}

#[test]
fn minimal_class_decodes() {
    let bytes = with_method_and_attribute_counts(minimal());
    let cf = parse_all(&bytes).unwrap();
    assert_eq!(cf.header.magic, 0xCAFEBABE);
    assert_eq!(cf.header.minor, 0);
    assert_eq!(cf.header.major, 65);
    assert_eq!(cf.constant_pool.count, 1);
    assert!(cf.constant_pool.constants.is_empty());
    assert_eq!(cf.access_flags, 0);
    assert_eq!(cf.this_class, 0);
    assert_eq!(cf.super_class, 0);
    assert!(cf.interfaces.interfaces.is_empty());
    assert!(cf.fields.fields.is_empty());
    assert!(cf.methods.methods.is_empty());
    assert!(cf.attributes.attributes.is_empty());
}

#[test]
fn minimal_class_parser_consumes_everything() {
    let bytes = with_method_and_attribute_counts(minimal());
    let mut parser = ClassFileParser::new();
    let (_, end) = parser.parse(&bytes).unwrap();
    assert_eq!(end, bytes.len());
}

#[test]
fn first_byte_changed_is_magic_mismatch() {
    let mut bytes = with_method_and_attribute_counts(minimal());
    bytes[0] = 0xCB;
    assert_eq!(parse_all(&bytes).unwrap_err(), DecodeError::MagicMismatch);
}

#[test]
fn listing_without_method_and_attribute_counts_is_insufficient() {
    assert_eq!(parse_all(&minimal()).unwrap_err(), DecodeError::InsufficientBytes);
}

#[test]
fn short_buffer_is_insufficient() {
    assert_eq!(parse_all(&[]).unwrap_err(), DecodeError::InsufficientBytes);
    assert_eq!(parse_all(&[0xCA, 0xFE]).unwrap_err(), DecodeError::InsufficientBytes);
}

#[test]
fn wrong_magic_with_nothing_after_is_magic_mismatch() {
    assert_eq!(parse_all(&[0, 0, 0, 0]).unwrap_err(), DecodeError::MagicMismatch);
}

#[test]
fn code_attribute_with_one_nop() {
    let cf = parse_all(&scenario_c()).unwrap();
    assert_eq!(cf.methods.methods.len(), 1);
    let method = &cf.methods.methods[0];
    assert_eq!(method.attributes.attributes.len(), 1);
    match &method.attributes.attributes[0] {
        MethodInfoAttribute::Code(code) => {
            assert_eq!(code.max_stack, 1);
            assert_eq!(code.max_locals, 1);
            assert_eq!(code.code_length, 1);
            assert_eq!(code.code.len(), 1);
            assert_eq!(code.code[0].name, "nop");
            assert_eq!(code.code[0].length, 1);
            assert!(code.exception_table.is_empty());
            assert!(code.attributes.attributes.is_empty());
        }
        other => panic!("expected Code, got {:?}", other),
    }
}

#[test]
fn unknown_method_attribute_name_fails() {
    let attr = attribute(1, &[]);
    let bytes = class_bytes(&[utf8_entry("NotARealAttribute")], &[method_bytes(&[attr])], &[]);
    assert_eq!(parse_all(&bytes).unwrap_err(), DecodeError::UnknownAttributeName);
}

#[test]
fn unknown_class_attribute_name_fails() {
    let attr = attribute(1, &[]);
    let bytes = class_bytes(&[utf8_entry("NotARealAttribute")], &[], &[attr]);
    assert_eq!(parse_all(&bytes).unwrap_err(), DecodeError::UnknownAttributeName);
}

#[test]
fn unknown_name_nested_in_code_fails() {
    let nested = attribute(2, &[]);
    let code_attr = attribute(1, &code_body(&[0x00], &[nested]));
    let bytes = class_bytes(
        &[utf8_entry("Code"), utf8_entry("NotARealAttribute")],
        &[method_bytes(&[code_attr])],
        &[],
    );
    assert_eq!(parse_all(&bytes).unwrap_err(), DecodeError::UnknownAttributeName);
}

#[test]
fn name_known_elsewhere_is_unknown_on_a_method() {
    let attr = attribute(1, &u16be(1));
    let bytes = class_bytes(&[utf8_entry("SourceFile")], &[method_bytes(&[attr])], &[]);
    assert_eq!(parse_all(&bytes).unwrap_err(), DecodeError::UnknownAttributeName);
}

#[test]
fn attribute_name_index_out_of_range_fails() {
    let attr = attribute(5, &[]);
    let bytes = class_bytes(&[utf8_entry("Code")], &[], &[attr]);
    assert_eq!(parse_all(&bytes).unwrap_err(), DecodeError::InvalidConstantIndex);
}

#[test]
fn attribute_name_not_utf8_fails() {
    let attr = attribute(1, &[]);
    let bytes = class_bytes(&[vec![7, 0, 1]], &[], &[attr]);
    assert_eq!(parse_all(&bytes).unwrap_err(), DecodeError::InvalidConstantIndex);
}

#[test]
fn pool_count_beyond_buffer_is_insufficient() {
    let mut bytes = vec![0xCA, 0xFE, 0xBA, 0xBE, 0x00, 0x00, 0x00, 0x41];
    bytes.extend(u16be(4));
    bytes.extend(utf8_entry("A"));
    assert_eq!(parse_all(&bytes).unwrap_err(), DecodeError::InsufficientBytes);
}

#[test]
fn zero_pool_count_is_rejected() {
    let mut bytes = minimal();
    bytes[9] = 0;
    assert_eq!(parse_all(&with_method_and_attribute_counts(bytes)).unwrap_err(), DecodeError::InvalidConstantIndex);
}

#[test]
fn every_truncation_is_insufficient() {
    let bytes = scenario_c();
    for n in 0..bytes.len() {
        assert_eq!(parse_all(&bytes[..n]).unwrap_err(), DecodeError::InsufficientBytes, "prefix {}", n);
    }
}

#[test]
fn trailing_bytes_are_rejected() {
    let mut bytes = with_method_and_attribute_counts(minimal());
    bytes.push(0);
    assert_eq!(parse_all(&bytes).unwrap_err(), DecodeError::TrailingBytes);
    let mut parser = ClassFileParser::new();
    let (_, end) = parser.parse(&bytes).unwrap();
    assert_eq!(end, bytes.len() - 1);
}

#[test]
fn parser_keeps_the_pool() {
    let mut parser = ClassFileParser::new();
    assert_eq!(parser.constant_pool.count, 1);
    let (cf, _) = parser.parse(&scenario_c()).unwrap();
    assert_eq!(parser.constant_pool.count, 2);
    assert_eq!(cf.constant_pool.count, 2);
    match &parser.constant_pool.constants[0] {
        Constant::Utf8 { length, bytes } => {
            assert_eq!(*length, 4);
            assert_eq!(bytes.as_slice(), b"Code");
        }
        other => panic!("expected Utf8, got {:?}", other),
    }
}

#[test]
fn this_and_super_class_are_not_checked() {
    let mut bytes = class_bytes(&[utf8_entry("A")], &[], &[]);
    // this_class and super_class point at the Utf8 record.
    let at = 10 + 4;
    bytes[at + 2] = 0;
    bytes[at + 3] = 1;
    bytes[at + 4] = 0;
    bytes[at + 5] = 1;
    let cf = parse_all(&bytes).unwrap();
    assert_eq!(cf.this_class, 1);
    assert!(cf.constant_pool.check_class_index(cf.this_class).is_err());
}

#[test]
fn source_file_and_signature_on_the_class() {
    let pool = [utf8_entry("SourceFile"), utf8_entry("Signature"), utf8_entry("A.java")];
    let attrs = [attribute(1, &u16be(3)), attribute(2, &u16be(3))];
    let cf = parse_all(&class_bytes(&pool, &[], &attrs)).unwrap();
    assert_eq!(cf.attributes.attributes_count, 2);
    match &cf.attributes.attributes[0] {
        ClassFileAttribute::SourceFile(a) => {
            assert_eq!(a.attribute_name_index, 1);
            assert_eq!(a.attribute_length, 2);
            assert_eq!(a.source_file_index, 3);
        }
        other => panic!("expected SourceFile, got {:?}", other),
    }
    assert!(matches!(&cf.attributes.attributes[1], ClassFileAttribute::Signature(s) if s.signature_index == 3));
}

#[test]
fn synthetic_with_nonzero_length_fails() {
    let attr = attribute(1, &[0]);
    let bytes = class_bytes(&[utf8_entry("Synthetic")], &[], &[attr]);
    assert_eq!(parse_all(&bytes).unwrap_err(), DecodeError::InvalidAttributeLength);
}

#[test]
fn deprecated_with_zero_length_decodes() {
    let attr = attribute(1, &[]);
    let cf = parse_all(&class_bytes(&[utf8_entry("Deprecated")], &[], &[attr])).unwrap();
    assert!(matches!(&cf.attributes.attributes[0], ClassFileAttribute::Deprecated(d) if d.attribute_length == 0));
}

#[test]
fn record_component_attributes_resolve() {
    let pool = [utf8_entry("Record"), utf8_entry("Signature")];
    let mut body = u16be(1);
    body.extend(u16be(2));
    body.extend(u16be(2));
    body.extend(u16be(1));
    body.extend(attribute(2, &u16be(2)));
    let cf = parse_all(&class_bytes(&pool, &[], &[attribute(1, &body)])).unwrap();
    match &cf.attributes.attributes[0] {
        ClassFileAttribute::Record(r) => {
            assert_eq!(r.record_components_count, 1);
            let comp = &r.record_components[0];
            assert_eq!(comp.name_index, 2);
            assert_eq!(comp.attributes.attributes_count, 1);
            assert!(matches!(&comp.attributes.attributes[0], RecordComponentInfoAttribute::Signature(s) if s.signature_index == 2));
        }
        other => panic!("expected Record, got {:?}", other),
    }
}

#[test]
fn unknown_name_in_record_component_fails() {
    let pool = [utf8_entry("Record"), utf8_entry("Code")];
    let mut body = u16be(1);
    body.extend(u16be(2));
    body.extend(u16be(2));
    body.extend(u16be(1));
    body.extend(attribute(2, &[]));
    let bytes = class_bytes(&pool, &[], &[attribute(1, &body)]);
    assert_eq!(parse_all(&bytes).unwrap_err(), DecodeError::UnknownAttributeName);
}

#[test]
fn module_attribute_decodes() {
    let pool = [utf8_entry("Module")];
    let mut body = vec![];
    for v in [9u16, 0x20, 0] {
        body.extend(u16be(v));
    }
    body.extend(u16be(1));
    for v in [4u16, 0x8000, 0] {
        body.extend(u16be(v));
    }
    body.extend(u16be(1));
    for v in [5u16, 0, 2, 6, 7] {
        body.extend(u16be(v));
    }
    body.extend(u16be(0));
    body.extend(u16be(1));
    body.extend(u16be(8));
    body.extend(u16be(1));
    for v in [10u16, 1, 11] {
        body.extend(u16be(v));
    }
    let cf = parse_all(&class_bytes(&pool, &[], &[attribute(1, &body)])).unwrap();
    match &cf.attributes.attributes[0] {
        ClassFileAttribute::Module(m) => {
            assert_eq!(m.module_name_index, 9);
            assert_eq!(m.module_flags, 0x20);
            assert_eq!(m.module_requires.len(), 1);
            assert_eq!(m.module_requires[0].requires_index, 4);
            assert_eq!(m.exports[0].exports_to, vec![6, 7]);
            assert!(m.opens.is_empty());
            assert_eq!(m.uses, vec![8]);
            assert_eq!(m.provides[0].provides_with, vec![11]);
        }
        other => panic!("expected Module, got {:?}", other),
    }
}

#[test]
fn line_numbers_nested_in_code() {
    let mut table = u16be(2);
    for v in [0u16, 10, 1, 11] {
        table.extend(u16be(v));
    }
    let nested = attribute(2, &table);
    let code_attr = attribute(1, &code_body(&[0x04, 0xAC], &[nested]));
    let bytes = class_bytes(&[utf8_entry("Code"), utf8_entry("LineNumberTable")], &[method_bytes(&[code_attr])], &[]);
    let cf = parse_all(&bytes).unwrap();
    match &cf.methods.methods[0].attributes.attributes[0] {
        MethodInfoAttribute::Code(code) => {
            assert_eq!(code.attributes_count, 1);
            assert_eq!(code.code[0].name, "iconst_1");
            assert_eq!(code.code[1].name, "ireturn");
            match &code.attributes.attributes[0] {
                CodeNestedAttribute::LineNumberTable(t) => {
                    assert_eq!(t.line_number_table_length, 2);
                    assert_eq!(t.line_number_table[1].start_pc, 1);
                    assert_eq!(t.line_number_table[1].line_number, 11);
                }
                other => panic!("expected LineNumberTable, got {:?}", other),
            }
        }
        other => panic!("expected Code, got {:?}", other),
    }
}

#[test]
fn code_length_past_the_buffer_is_insufficient() {
    let mut body = vec![0, 1, 0, 1];
    body.extend(u32be(100));
    body.push(0);
    let code_attr = attribute(1, &body);
    let bytes = class_bytes(&[utf8_entry("Code")], &[method_bytes(&[code_attr])], &[]);
    assert_eq!(parse_all(&bytes).unwrap_err(), DecodeError::InsufficientBytes);
}

#[test]
fn method_name_index_zero_is_rejected() {
    let method = vec![0, 0, 0, 0, 0, 0, 0, 0];
    let bytes = class_bytes(&[], &[method], &[]);
    assert_eq!(parse_all(&bytes).unwrap_err(), DecodeError::InvalidConstantIndex);
}

#[test]
fn method_descriptor_not_utf8_is_rejected() {
    let method = vec![0, 0, 0, 1, 0, 2, 0, 0];
    let bytes = class_bytes(&[utf8_entry("m"), vec![7, 0, 1]], &[method], &[]);
    assert_eq!(parse_all(&bytes).unwrap_err(), DecodeError::InvalidConstantIndex);
}

#[test]
fn code_body_with_undefined_opcode() {
    let body = [0, 0, 0, 0x0D, 0, 1, 0, 1, 0, 0, 0, 1, 0xCB, 0, 0, 0, 0];
    let pool = ConstantPool::new();
    let (attr, end) = MethodInfoAttribute::parse(&body, 0, b"Code", 1, &pool).unwrap();
    assert_eq!(end, body.len());
    match attr {
        MethodInfoAttribute::Code(ca) => {
            assert_eq!(ca.code.len(), 1);
            assert_eq!(ca.code[0].name, "Unknown");
            assert_eq!(ca.code[0].opcode, 0xCB);
            assert_eq!(ca.code[0].length, 1);
            assert_eq!(ca.code[0].stack_behavior, "Unknown bytecode");
            assert!(ca.code[0].data.is_empty());
        }
        other => panic!("expected Code, got {:?}", other),
    }
}

use classfile::constant_pool::{check_constant_pool_class, parse_constant, parse_constant_pool, Constant, ConstantPool};
use classfile::error::DecodeError;

fn sample_pool() -> ConstantPool {
    let bytes = [
        0x00, 0x04, // count: three records
        0x07, 0x00, 0x02, // Class -> #2
        0x01, 0x00, 0x01, b'A', // Utf8 "A"
        0x05, 0x00, 0x00, 0x00, 0x01, 0x00, 0x00, 0x00, 0x02, // Long 1:2
    ];
    let (pool, end) = parse_constant_pool(&bytes, 0).unwrap();
    assert_eq!(end, bytes.len());
    pool
}

#[test]
fn lookup_bounds() {
    let pool = sample_pool();
    assert_eq!(pool.count, 4);
    assert_eq!(pool.get_class(0).unwrap_err(), DecodeError::InvalidConstantIndex);
    assert_eq!(pool.get_class(4).unwrap_err(), DecodeError::InvalidConstantIndex);
    assert_eq!(pool.get_class(500).unwrap_err(), DecodeError::InvalidConstantIndex);
    for i in 1..4 {
        assert!(pool.get_class(i).is_ok());
    }
    assert!(matches!(pool.get_class(1).unwrap(), Constant::Class { name_index: 2 }));
    assert!(matches!(pool.get_class(3).unwrap(), Constant::Long { high_bytes: 1, low_bytes: 2 }));
}

#[test]
fn empty_pool_has_no_valid_index() {
    let pool = ConstantPool::new();
    assert_eq!(pool.get_class(0).unwrap_err(), DecodeError::InvalidConstantIndex);
    assert_eq!(pool.get_class(1).unwrap_err(), DecodeError::InvalidConstantIndex);
}

#[test]
fn class_check() {
    let pool = sample_pool();
    assert!(pool.check_class_index(1).is_ok());
    assert_eq!(pool.check_class_index(2).unwrap_err(), DecodeError::InvalidConstantIndex);
    assert_eq!(pool.check_class_index(0).unwrap_err(), DecodeError::InvalidConstantIndex);
    let c = Constant::Integer { bytes: 3 };
    assert!(check_constant_pool_class(&c).is_err());
    let k = Constant::Class { name_index: 1 };
    assert!(check_constant_pool_class(&k).is_ok());
}

#[test]
fn utf8_lookup() {
    let pool = sample_pool();
    assert_eq!(pool.utf8_bytes(2).unwrap().as_slice(), b"A");
    assert_eq!(pool.utf8_bytes(1).unwrap_err(), DecodeError::InvalidConstantIndex);
}

#[test]
fn every_kind_decodes() {
    let cases: Vec<(Vec<u8>, usize)> = vec![
        (vec![9, 0, 1, 0, 2], 5),
        (vec![10, 0, 1, 0, 2], 5),
        (vec![11, 0, 1, 0, 2], 5),
        (vec![8, 0, 3], 3),
        (vec![3, 0, 0, 0, 7], 5),
        (vec![4, 0x3f, 0x80, 0, 0], 5),
        (vec![6, 0, 0, 0, 0, 0, 0, 0, 1], 9),
        (vec![12, 0, 1, 0, 2], 5),
        (vec![15, 6, 0, 9], 4),
        (vec![16, 0, 4], 3),
        (vec![17, 0, 0, 0, 5], 5),
        (vec![18, 0, 1, 0, 5], 5),
        (vec![19, 0, 2], 3),
        (vec![20, 0, 2], 3),
    ];
    for (bytes, len) in cases {
        let (_, end) = parse_constant(&bytes, 0).unwrap();
        assert_eq!(end, len, "tag {}", bytes[0]);
    }
    let (c, _) = parse_constant(&[15, 6, 0, 9], 0).unwrap();
    assert!(matches!(c, Constant::MethodHandle { reference_kind: 6, reference_index: 9 }));
    let (c, _) = parse_constant(&[3, 0, 0, 1, 2], 0).unwrap();
    assert!(matches!(c, Constant::Integer { bytes: 0x0102 }));
}

#[test]
fn unknown_tag_is_kept_and_parsing_goes_on() {
    let bytes = [0x00, 0x03, 0x02, 0x07, 0x00, 0x01];
    let (pool, end) = parse_constant_pool(&bytes, 0).unwrap();
    assert_eq!(end, bytes.len());
    assert!(matches!(pool.constants[0], Constant::Unknown { tag: 2 }));
    assert!(matches!(pool.constants[1], Constant::Class { name_index: 1 }));
}

#[test]
fn truncated_record_is_insufficient() {
    assert_eq!(parse_constant(&[1, 0, 5, b'a'], 0).unwrap_err(), DecodeError::InsufficientBytes);
    assert_eq!(parse_constant(&[], 0).unwrap_err(), DecodeError::InsufficientBytes);
    assert_eq!(parse_constant_pool(&[0x00, 0x03, 0x07, 0x00, 0x01], 0).unwrap_err(), DecodeError::InsufficientBytes);
}

#[test]
fn duplicate_keeps_records() {
    let pool = sample_pool();
    let copy = pool.duplicate();
    assert_eq!(copy.count, pool.count);
    assert_eq!(copy.constants.len(), 3);
    match copy.get_class(2).unwrap() {
        Constant::Utf8 { length, bytes } => {
            assert_eq!(*length, 1);
            assert_eq!(bytes.as_slice(), b"A");
        }
        other => panic!("expected Utf8, got {:?}", other),
    }
}

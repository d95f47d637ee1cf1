use classfile::flags::{class_access_flags, field_access_flags, inner_class_access_flags, java_version_name, method_access_flags};
use classfile::hex::{hex_utf8, hex_viewer};

#[test]
fn class_flags() {
    assert_eq!(class_access_flags(0x0021), "ACC_PUBLIC ACC_SUPER ");
    assert_eq!(class_access_flags(0), "No access flags");
    assert_eq!(class_access_flags(0x8000), "ACC_MODULE ");
    assert_eq!(class_access_flags(0x0002), "No access flags");
}

#[test]
fn field_flags() {
    assert_eq!(field_access_flags(0x001A), "ACC_PRIVATE ACC_STATIC ACC_FINAL ");
    assert_eq!(field_access_flags(0x4000), "ACC_ENUM ");
}

#[test]
fn method_flags() {
    assert_eq!(method_access_flags(0x0009), "ACC_PUBLIC ACC_STATIC ");
    assert_eq!(method_access_flags(0x0880), "ACC_VARARGS ACC_STRICT ");
    assert_eq!(method_access_flags(0), "No access flags");
}

#[test]
fn inner_class_flags() {
    assert_eq!(inner_class_access_flags(0x0609), "ACC_PUBLIC ACC_STATIC ACC_ABSTRACT ");
    assert_eq!(inner_class_access_flags(0x0020), "ACC_INTERFACE ");
}

#[test]
fn version_names() {
    assert_eq!(java_version_name(65), "Java SE 21");
    assert_eq!(java_version_name(52), "Java SE 8");
    assert_eq!(java_version_name(45), "JDK 1.1");
    assert_eq!(java_version_name(1), "Unknown Java Version");
}

#[test]
fn hex_layout() {
    assert_eq!(hex_viewer(&[]), "");
    assert_eq!(hex_viewer(&[0xCA, 0xFE, 0xBA, 0xBE]), "CA FE BA BE, ");
    let sixteen: Vec<u8> = (0u8..16).collect();
    assert_eq!(
        hex_viewer(&sixteen),
        "00 01 02 03, 04 05 06 07, 08 09 0A 0B, 0C 0D 0E 0F, \n"
    );
}

#[test]
fn utf8_or_escapes() {
    assert_eq!(hex_utf8(b"Code"), "Code");
    assert_eq!(hex_utf8("é".as_bytes()), "é");
    assert_eq!(hex_utf8(&[0x41, 0xFF]), "\\x41\\xFF");
    assert_eq!(hex_utf8(&[]), "");
}

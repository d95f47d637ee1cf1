//! Names of access flags and class-file versions, for display.

use vstd::prelude::*;
use vstd::string::StringExecFns;

verus! {

/// The name of one flag, with a trailing space, when its bit is set.
pub open spec fn word_if(flags: u16, mask: u16, word: &str) -> Seq<char> {
    if flags & mask != 0 {
        word@
    } else {
        Seq::empty()
    }
}

/// The names of the set flags, or a fixed text when none is set.
pub open spec fn or_no_flags(words: Seq<char>) -> Seq<char> {
    if words.len() == 0 {
        "No access flags"@
    } else {
        words
    }
}

/// Names of the flags of a class that `flags` sets, in a fixed order.
pub open spec fn class_flag_words(flags: u16) -> Seq<char> {
    word_if(flags, 0x0001, "ACC_PUBLIC ")
        + word_if(flags, 0x0010, "ACC_FINAL ")
        + word_if(flags, 0x0020, "ACC_SUPER ")
        + word_if(flags, 0x0200, "ACC_INTERFACE ")
        + word_if(flags, 0x0400, "ACC_ABSTRACT ")
        + word_if(flags, 0x1000, "ACC_SYNTHETIC ")
        + word_if(flags, 0x2000, "ACC_ANNOTATION ")
        + word_if(flags, 0x4000, "ACC_ENUM ")
        + word_if(flags, 0x8000, "ACC_MODULE ")
}

/// Names the access flags of a class.
pub fn class_access_flags(flags: u16) -> (r: String)
    ensures
        r@ == or_no_flags(class_flag_words(flags)),
{
    let mut result = String::new();
    if flags & 0x0001 != 0 {
        result.append("ACC_PUBLIC ");
    }
    assert(result@ =~= word_if(flags, 0x0001, "ACC_PUBLIC "));
    if flags & 0x0010 != 0 {
        result.append("ACC_FINAL ");
    }
    assert(result@ == word_if(flags, 0x0001, "ACC_PUBLIC ")
        + word_if(flags, 0x0010, "ACC_FINAL "));
    if flags & 0x0020 != 0 {
        result.append("ACC_SUPER ");
    }
    assert(result@ == word_if(flags, 0x0001, "ACC_PUBLIC ")
        + word_if(flags, 0x0010, "ACC_FINAL ")
        + word_if(flags, 0x0020, "ACC_SUPER "));
    if flags & 0x0200 != 0 {
        result.append("ACC_INTERFACE ");
    }
    assert(result@ == word_if(flags, 0x0001, "ACC_PUBLIC ")
        + word_if(flags, 0x0010, "ACC_FINAL ")
        + word_if(flags, 0x0020, "ACC_SUPER ")
        + word_if(flags, 0x0200, "ACC_INTERFACE "));
    if flags & 0x0400 != 0 {
        result.append("ACC_ABSTRACT ");
    }
    assert(result@ == word_if(flags, 0x0001, "ACC_PUBLIC ")
        + word_if(flags, 0x0010, "ACC_FINAL ")
        + word_if(flags, 0x0020, "ACC_SUPER ")
        + word_if(flags, 0x0200, "ACC_INTERFACE ")
        + word_if(flags, 0x0400, "ACC_ABSTRACT "));
    if flags & 0x1000 != 0 {
        result.append("ACC_SYNTHETIC ");
    }
    assert(result@ == word_if(flags, 0x0001, "ACC_PUBLIC ")
        + word_if(flags, 0x0010, "ACC_FINAL ")
        + word_if(flags, 0x0020, "ACC_SUPER ")
        + word_if(flags, 0x0200, "ACC_INTERFACE ")
        + word_if(flags, 0x0400, "ACC_ABSTRACT ")
        + word_if(flags, 0x1000, "ACC_SYNTHETIC "));
    if flags & 0x2000 != 0 {
        result.append("ACC_ANNOTATION ");
    }
    assert(result@ == word_if(flags, 0x0001, "ACC_PUBLIC ")
        + word_if(flags, 0x0010, "ACC_FINAL ")
        + word_if(flags, 0x0020, "ACC_SUPER ")
        + word_if(flags, 0x0200, "ACC_INTERFACE ")
        + word_if(flags, 0x0400, "ACC_ABSTRACT ")
        + word_if(flags, 0x1000, "ACC_SYNTHETIC ")
        + word_if(flags, 0x2000, "ACC_ANNOTATION "));
    if flags & 0x4000 != 0 {
        result.append("ACC_ENUM ");
    }
    assert(result@ == word_if(flags, 0x0001, "ACC_PUBLIC ")
        + word_if(flags, 0x0010, "ACC_FINAL ")
        + word_if(flags, 0x0020, "ACC_SUPER ")
        + word_if(flags, 0x0200, "ACC_INTERFACE ")
        + word_if(flags, 0x0400, "ACC_ABSTRACT ")
        + word_if(flags, 0x1000, "ACC_SYNTHETIC ")
        + word_if(flags, 0x2000, "ACC_ANNOTATION ")
        + word_if(flags, 0x4000, "ACC_ENUM "));
    if flags & 0x8000 != 0 {
        result.append("ACC_MODULE ");
    }
    assert(result@ == word_if(flags, 0x0001, "ACC_PUBLIC ")
        + word_if(flags, 0x0010, "ACC_FINAL ")
        + word_if(flags, 0x0020, "ACC_SUPER ")
        + word_if(flags, 0x0200, "ACC_INTERFACE ")
        + word_if(flags, 0x0400, "ACC_ABSTRACT ")
        + word_if(flags, 0x1000, "ACC_SYNTHETIC ")
        + word_if(flags, 0x2000, "ACC_ANNOTATION ")
        + word_if(flags, 0x4000, "ACC_ENUM ")
        + word_if(flags, 0x8000, "ACC_MODULE "));
    if result.as_str().is_empty() {
        result.append("No access flags");
        assert(result@ =~= "No access flags"@);
    }
    result
}

/// Names of the flags of a field that `flags` sets, in a fixed order.
pub open spec fn field_flag_words(flags: u16) -> Seq<char> {
    word_if(flags, 0x0001, "ACC_PUBLIC ")
        + word_if(flags, 0x0002, "ACC_PRIVATE ")
        + word_if(flags, 0x0004, "ACC_PROTECTED ")
        + word_if(flags, 0x0008, "ACC_STATIC ")
        + word_if(flags, 0x0010, "ACC_FINAL ")
        + word_if(flags, 0x0040, "ACC_VOLATILE ")
        + word_if(flags, 0x0080, "ACC_TRANSIENT ")
        + word_if(flags, 0x1000, "ACC_SYNTHETIC ")
        + word_if(flags, 0x4000, "ACC_ENUM ")
}

/// Names the access flags of a field.
pub fn field_access_flags(flags: u16) -> (r: String)
    ensures
        r@ == or_no_flags(field_flag_words(flags)),
{
    let mut result = String::new();
    if flags & 0x0001 != 0 {
        result.append("ACC_PUBLIC ");
    }
    assert(result@ =~= word_if(flags, 0x0001, "ACC_PUBLIC "));
    if flags & 0x0002 != 0 {
        result.append("ACC_PRIVATE ");
    }
    assert(result@ == word_if(flags, 0x0001, "ACC_PUBLIC ")
        + word_if(flags, 0x0002, "ACC_PRIVATE "));
    if flags & 0x0004 != 0 {
        result.append("ACC_PROTECTED ");
    }
    assert(result@ == word_if(flags, 0x0001, "ACC_PUBLIC ")
        + word_if(flags, 0x0002, "ACC_PRIVATE ")
        + word_if(flags, 0x0004, "ACC_PROTECTED "));
    if flags & 0x0008 != 0 {
        result.append("ACC_STATIC ");
    }
    assert(result@ == word_if(flags, 0x0001, "ACC_PUBLIC ")
        + word_if(flags, 0x0002, "ACC_PRIVATE ")
        + word_if(flags, 0x0004, "ACC_PROTECTED ")
        + word_if(flags, 0x0008, "ACC_STATIC "));
    if flags & 0x0010 != 0 {
        result.append("ACC_FINAL ");
    }
    assert(result@ == word_if(flags, 0x0001, "ACC_PUBLIC ")
        + word_if(flags, 0x0002, "ACC_PRIVATE ")
        + word_if(flags, 0x0004, "ACC_PROTECTED ")
        + word_if(flags, 0x0008, "ACC_STATIC ")
        + word_if(flags, 0x0010, "ACC_FINAL "));
    if flags & 0x0040 != 0 {
        result.append("ACC_VOLATILE ");
    }
    assert(result@ == word_if(flags, 0x0001, "ACC_PUBLIC ")
        + word_if(flags, 0x0002, "ACC_PRIVATE ")
        + word_if(flags, 0x0004, "ACC_PROTECTED ")
        + word_if(flags, 0x0008, "ACC_STATIC ")
        + word_if(flags, 0x0010, "ACC_FINAL ")
        + word_if(flags, 0x0040, "ACC_VOLATILE "));
    if flags & 0x0080 != 0 {
        result.append("ACC_TRANSIENT ");
    }
    assert(result@ == word_if(flags, 0x0001, "ACC_PUBLIC ")
        + word_if(flags, 0x0002, "ACC_PRIVATE ")
        + word_if(flags, 0x0004, "ACC_PROTECTED ")
        + word_if(flags, 0x0008, "ACC_STATIC ")
        + word_if(flags, 0x0010, "ACC_FINAL ")
        + word_if(flags, 0x0040, "ACC_VOLATILE ")
        + word_if(flags, 0x0080, "ACC_TRANSIENT "));
    if flags & 0x1000 != 0 {
        result.append("ACC_SYNTHETIC ");
    }
    assert(result@ == word_if(flags, 0x0001, "ACC_PUBLIC ")
        + word_if(flags, 0x0002, "ACC_PRIVATE ")
        + word_if(flags, 0x0004, "ACC_PROTECTED ")
        + word_if(flags, 0x0008, "ACC_STATIC ")
        + word_if(flags, 0x0010, "ACC_FINAL ")
        + word_if(flags, 0x0040, "ACC_VOLATILE ")
        + word_if(flags, 0x0080, "ACC_TRANSIENT ")
        + word_if(flags, 0x1000, "ACC_SYNTHETIC "));
    if flags & 0x4000 != 0 {
        result.append("ACC_ENUM ");
    }
    assert(result@ == word_if(flags, 0x0001, "ACC_PUBLIC ")
        + word_if(flags, 0x0002, "ACC_PRIVATE ")
        + word_if(flags, 0x0004, "ACC_PROTECTED ")
        + word_if(flags, 0x0008, "ACC_STATIC ")
        + word_if(flags, 0x0010, "ACC_FINAL ")
        + word_if(flags, 0x0040, "ACC_VOLATILE ")
        + word_if(flags, 0x0080, "ACC_TRANSIENT ")
        + word_if(flags, 0x1000, "ACC_SYNTHETIC ")
        + word_if(flags, 0x4000, "ACC_ENUM "));
    if result.as_str().is_empty() {
        result.append("No access flags");
        assert(result@ =~= "No access flags"@);
    }
    result
}

/// Names of the flags of a method that `flags` sets, in a fixed order.
pub open spec fn method_flag_words(flags: u16) -> Seq<char> {
    word_if(flags, 0x0001, "ACC_PUBLIC ")
        + word_if(flags, 0x0002, "ACC_PRIVATE ")
        + word_if(flags, 0x0004, "ACC_PROTECTED ")
        + word_if(flags, 0x0008, "ACC_STATIC ")
        + word_if(flags, 0x0010, "ACC_FINAL ")
        + word_if(flags, 0x0020, "ACC_SYNCHRONIZED ")
        + word_if(flags, 0x0040, "ACC_BRIDGE ")
        + word_if(flags, 0x0080, "ACC_VARARGS ")
        + word_if(flags, 0x0100, "ACC_NATIVE ")
        + word_if(flags, 0x0400, "ACC_ABSTRACT ")
        + word_if(flags, 0x0800, "ACC_STRICT ")
        + word_if(flags, 0x1000, "ACC_SYNTHETIC ")
}

/// Names the access flags of a method.
pub fn method_access_flags(flags: u16) -> (r: String)
    ensures
        r@ == or_no_flags(method_flag_words(flags)),
{
    let mut result = String::new();
    if flags & 0x0001 != 0 {
        result.append("ACC_PUBLIC ");
    }
    assert(result@ =~= word_if(flags, 0x0001, "ACC_PUBLIC "));
    if flags & 0x0002 != 0 {
        result.append("ACC_PRIVATE ");
    }
    assert(result@ == word_if(flags, 0x0001, "ACC_PUBLIC ")
        + word_if(flags, 0x0002, "ACC_PRIVATE "));
    if flags & 0x0004 != 0 {
        result.append("ACC_PROTECTED ");
    }
    assert(result@ == word_if(flags, 0x0001, "ACC_PUBLIC ")
        + word_if(flags, 0x0002, "ACC_PRIVATE ")
        + word_if(flags, 0x0004, "ACC_PROTECTED "));
    if flags & 0x0008 != 0 {
        result.append("ACC_STATIC ");
    }
    assert(result@ == word_if(flags, 0x0001, "ACC_PUBLIC ")
        + word_if(flags, 0x0002, "ACC_PRIVATE ")
        + word_if(flags, 0x0004, "ACC_PROTECTED ")
        + word_if(flags, 0x0008, "ACC_STATIC "));
    if flags & 0x0010 != 0 {
        result.append("ACC_FINAL ");
    }
    assert(result@ == word_if(flags, 0x0001, "ACC_PUBLIC ")
        + word_if(flags, 0x0002, "ACC_PRIVATE ")
        + word_if(flags, 0x0004, "ACC_PROTECTED ")
        + word_if(flags, 0x0008, "ACC_STATIC ")
        + word_if(flags, 0x0010, "ACC_FINAL "));
    if flags & 0x0020 != 0 {
        result.append("ACC_SYNCHRONIZED ");
    }
    assert(result@ == word_if(flags, 0x0001, "ACC_PUBLIC ")
        + word_if(flags, 0x0002, "ACC_PRIVATE ")
        + word_if(flags, 0x0004, "ACC_PROTECTED ")
        + word_if(flags, 0x0008, "ACC_STATIC ")
        + word_if(flags, 0x0010, "ACC_FINAL ")
        + word_if(flags, 0x0020, "ACC_SYNCHRONIZED "));
    if flags & 0x0040 != 0 {
        result.append("ACC_BRIDGE ");
    }
    assert(result@ == word_if(flags, 0x0001, "ACC_PUBLIC ")
        + word_if(flags, 0x0002, "ACC_PRIVATE ")
        + word_if(flags, 0x0004, "ACC_PROTECTED ")
        + word_if(flags, 0x0008, "ACC_STATIC ")
        + word_if(flags, 0x0010, "ACC_FINAL ")
        + word_if(flags, 0x0020, "ACC_SYNCHRONIZED ")
        + word_if(flags, 0x0040, "ACC_BRIDGE "));
    if flags & 0x0080 != 0 {
        result.append("ACC_VARARGS ");
    }
    assert(result@ == word_if(flags, 0x0001, "ACC_PUBLIC ")
        + word_if(flags, 0x0002, "ACC_PRIVATE ")
        + word_if(flags, 0x0004, "ACC_PROTECTED ")
        + word_if(flags, 0x0008, "ACC_STATIC ")
        + word_if(flags, 0x0010, "ACC_FINAL ")
        + word_if(flags, 0x0020, "ACC_SYNCHRONIZED ")
        + word_if(flags, 0x0040, "ACC_BRIDGE ")
        + word_if(flags, 0x0080, "ACC_VARARGS "));
    if flags & 0x0100 != 0 {
        result.append("ACC_NATIVE ");
    }
    assert(result@ == word_if(flags, 0x0001, "ACC_PUBLIC ")
        + word_if(flags, 0x0002, "ACC_PRIVATE ")
        + word_if(flags, 0x0004, "ACC_PROTECTED ")
        + word_if(flags, 0x0008, "ACC_STATIC ")
        + word_if(flags, 0x0010, "ACC_FINAL ")
        + word_if(flags, 0x0020, "ACC_SYNCHRONIZED ")
        + word_if(flags, 0x0040, "ACC_BRIDGE ")
        + word_if(flags, 0x0080, "ACC_VARARGS ")
        + word_if(flags, 0x0100, "ACC_NATIVE "));
    if flags & 0x0400 != 0 {
        result.append("ACC_ABSTRACT ");
    }
    assert(result@ == word_if(flags, 0x0001, "ACC_PUBLIC ")
        + word_if(flags, 0x0002, "ACC_PRIVATE ")
        + word_if(flags, 0x0004, "ACC_PROTECTED ")
        + word_if(flags, 0x0008, "ACC_STATIC ")
        + word_if(flags, 0x0010, "ACC_FINAL ")
        + word_if(flags, 0x0020, "ACC_SYNCHRONIZED ")
        + word_if(flags, 0x0040, "ACC_BRIDGE ")
        + word_if(flags, 0x0080, "ACC_VARARGS ")
        + word_if(flags, 0x0100, "ACC_NATIVE ")
        + word_if(flags, 0x0400, "ACC_ABSTRACT "));
    if flags & 0x0800 != 0 {
        result.append("ACC_STRICT ");
    }
    assert(result@ == word_if(flags, 0x0001, "ACC_PUBLIC ")
        + word_if(flags, 0x0002, "ACC_PRIVATE ")
        + word_if(flags, 0x0004, "ACC_PROTECTED ")
        + word_if(flags, 0x0008, "ACC_STATIC ")
        + word_if(flags, 0x0010, "ACC_FINAL ")
        + word_if(flags, 0x0020, "ACC_SYNCHRONIZED ")
        + word_if(flags, 0x0040, "ACC_BRIDGE ")
        + word_if(flags, 0x0080, "ACC_VARARGS ")
        + word_if(flags, 0x0100, "ACC_NATIVE ")
        + word_if(flags, 0x0400, "ACC_ABSTRACT ")
        + word_if(flags, 0x0800, "ACC_STRICT "));
    if flags & 0x1000 != 0 {
        result.append("ACC_SYNTHETIC ");
    }
    assert(result@ == word_if(flags, 0x0001, "ACC_PUBLIC ")
        + word_if(flags, 0x0002, "ACC_PRIVATE ")
        + word_if(flags, 0x0004, "ACC_PROTECTED ")
        + word_if(flags, 0x0008, "ACC_STATIC ")
        + word_if(flags, 0x0010, "ACC_FINAL ")
        + word_if(flags, 0x0020, "ACC_SYNCHRONIZED ")
        + word_if(flags, 0x0040, "ACC_BRIDGE ")
        + word_if(flags, 0x0080, "ACC_VARARGS ")
        + word_if(flags, 0x0100, "ACC_NATIVE ")
        + word_if(flags, 0x0400, "ACC_ABSTRACT ")
        + word_if(flags, 0x0800, "ACC_STRICT ")
        + word_if(flags, 0x1000, "ACC_SYNTHETIC "));
    if result.as_str().is_empty() {
        result.append("No access flags");
        assert(result@ =~= "No access flags"@);
    }
    result
}

/// Names of the flags of an inner class that `flags` sets, in a fixed order.
pub open spec fn inner_class_flag_words(flags: u16) -> Seq<char> {
    word_if(flags, 0x0001, "ACC_PUBLIC ")
        + word_if(flags, 0x0002, "ACC_PRIVATE ")
        + word_if(flags, 0x0004, "ACC_PROTECTED ")
        + word_if(flags, 0x0008, "ACC_STATIC ")
        + word_if(flags, 0x0010, "ACC_FINAL ")
        + word_if(flags, 0x0020, "ACC_INTERFACE ")
        + word_if(flags, 0x0200, "ACC_ABSTRACT ")
        + word_if(flags, 0x1000, "ACC_SYNTHETIC ")
        + word_if(flags, 0x2000, "ACC_ANNOTATION ")
        + word_if(flags, 0x4000, "ACC_ENUM ")
}

/// Names the access flags of an inner class.
pub fn inner_class_access_flags(flags: u16) -> (r: String)
    ensures
        r@ == or_no_flags(inner_class_flag_words(flags)),
{
    let mut result = String::new();
    if flags & 0x0001 != 0 {
        result.append("ACC_PUBLIC ");
    }
    assert(result@ =~= word_if(flags, 0x0001, "ACC_PUBLIC "));
    if flags & 0x0002 != 0 {
        result.append("ACC_PRIVATE ");
    }
    assert(result@ == word_if(flags, 0x0001, "ACC_PUBLIC ")
        + word_if(flags, 0x0002, "ACC_PRIVATE "));
    if flags & 0x0004 != 0 {
        result.append("ACC_PROTECTED ");
    }
    assert(result@ == word_if(flags, 0x0001, "ACC_PUBLIC ")
        + word_if(flags, 0x0002, "ACC_PRIVATE ")
        + word_if(flags, 0x0004, "ACC_PROTECTED "));
    if flags & 0x0008 != 0 {
        result.append("ACC_STATIC ");
    }
    assert(result@ == word_if(flags, 0x0001, "ACC_PUBLIC ")
        + word_if(flags, 0x0002, "ACC_PRIVATE ")
        + word_if(flags, 0x0004, "ACC_PROTECTED ")
        + word_if(flags, 0x0008, "ACC_STATIC "));
    if flags & 0x0010 != 0 {
        result.append("ACC_FINAL ");
    }
    assert(result@ == word_if(flags, 0x0001, "ACC_PUBLIC ")
        + word_if(flags, 0x0002, "ACC_PRIVATE ")
        + word_if(flags, 0x0004, "ACC_PROTECTED ")
        + word_if(flags, 0x0008, "ACC_STATIC ")
        + word_if(flags, 0x0010, "ACC_FINAL "));
    if flags & 0x0020 != 0 {
        result.append("ACC_INTERFACE ");
    }
    assert(result@ == word_if(flags, 0x0001, "ACC_PUBLIC ")
        + word_if(flags, 0x0002, "ACC_PRIVATE ")
        + word_if(flags, 0x0004, "ACC_PROTECTED ")
        + word_if(flags, 0x0008, "ACC_STATIC ")
        + word_if(flags, 0x0010, "ACC_FINAL ")
        + word_if(flags, 0x0020, "ACC_INTERFACE "));
    if flags & 0x0200 != 0 {
        result.append("ACC_ABSTRACT ");
    }
    assert(result@ == word_if(flags, 0x0001, "ACC_PUBLIC ")
        + word_if(flags, 0x0002, "ACC_PRIVATE ")
        + word_if(flags, 0x0004, "ACC_PROTECTED ")
        + word_if(flags, 0x0008, "ACC_STATIC ")
        + word_if(flags, 0x0010, "ACC_FINAL ")
        + word_if(flags, 0x0020, "ACC_INTERFACE ")
        + word_if(flags, 0x0200, "ACC_ABSTRACT "));
    if flags & 0x1000 != 0 {
        result.append("ACC_SYNTHETIC ");
    }
    assert(result@ == word_if(flags, 0x0001, "ACC_PUBLIC ")
        + word_if(flags, 0x0002, "ACC_PRIVATE ")
        + word_if(flags, 0x0004, "ACC_PROTECTED ")
        + word_if(flags, 0x0008, "ACC_STATIC ")
        + word_if(flags, 0x0010, "ACC_FINAL ")
        + word_if(flags, 0x0020, "ACC_INTERFACE ")
        + word_if(flags, 0x0200, "ACC_ABSTRACT ")
        + word_if(flags, 0x1000, "ACC_SYNTHETIC "));
    if flags & 0x2000 != 0 {
        result.append("ACC_ANNOTATION ");
    }
    assert(result@ == word_if(flags, 0x0001, "ACC_PUBLIC ")
        + word_if(flags, 0x0002, "ACC_PRIVATE ")
        + word_if(flags, 0x0004, "ACC_PROTECTED ")
        + word_if(flags, 0x0008, "ACC_STATIC ")
        + word_if(flags, 0x0010, "ACC_FINAL ")
        + word_if(flags, 0x0020, "ACC_INTERFACE ")
        + word_if(flags, 0x0200, "ACC_ABSTRACT ")
        + word_if(flags, 0x1000, "ACC_SYNTHETIC ")
        + word_if(flags, 0x2000, "ACC_ANNOTATION "));
    if flags & 0x4000 != 0 {
        result.append("ACC_ENUM ");
    }
    assert(result@ == word_if(flags, 0x0001, "ACC_PUBLIC ")
        + word_if(flags, 0x0002, "ACC_PRIVATE ")
        + word_if(flags, 0x0004, "ACC_PROTECTED ")
        + word_if(flags, 0x0008, "ACC_STATIC ")
        + word_if(flags, 0x0010, "ACC_FINAL ")
        + word_if(flags, 0x0020, "ACC_INTERFACE ")
        + word_if(flags, 0x0200, "ACC_ABSTRACT ")
        + word_if(flags, 0x1000, "ACC_SYNTHETIC ")
        + word_if(flags, 0x2000, "ACC_ANNOTATION ")
        + word_if(flags, 0x4000, "ACC_ENUM "));
    if result.as_str().is_empty() {
        result.append("No access flags");
        assert(result@ =~= "No access flags"@);
    }
    result
}

/// The release that introduced a major version number.
pub open spec fn version_name(major: u16) -> Seq<char> {
    match major {
        69 => "Java SE 25"@,
        68 => "Java SE 24"@,
        67 => "Java SE 23"@,
        66 => "Java SE 22"@,
        65 => "Java SE 21"@,
        64 => "Java SE 20"@,
        63 => "Java SE 19"@,
        62 => "Java SE 18"@,
        61 => "Java SE 17"@,
        60 => "Java SE 16"@,
        59 => "Java SE 15"@,
        58 => "Java SE 14"@,
        57 => "Java SE 13"@,
        56 => "Java SE 12"@,
        55 => "Java SE 11"@,
        54 => "Java SE 10"@,
        53 => "Java SE 9"@,
        52 => "Java SE 8"@,
        51 => "Java SE 7"@,
        50 => "Java SE 6.0"@,
        49 => "Java SE 5.0"@,
        48 => "JDK 1.4"@,
        47 => "JDK 1.3"@,
        46 => "JDK 1.2"@,
        45 => "JDK 1.1"@,
        _ => "Unknown Java Version"@,
    }
}

/// Names the release that introduced a major version number.
pub fn java_version_name(major: u16) -> (r: &'static str)
    ensures
        r@ == version_name(major),
{
    match major {
        69 => "Java SE 25",
        68 => "Java SE 24",
        67 => "Java SE 23",
        66 => "Java SE 22",
        65 => "Java SE 21",
        64 => "Java SE 20",
        63 => "Java SE 19",
        62 => "Java SE 18",
        61 => "Java SE 17",
        60 => "Java SE 16",
        59 => "Java SE 15",
        58 => "Java SE 14",
        57 => "Java SE 13",
        56 => "Java SE 12",
        55 => "Java SE 11",
        54 => "Java SE 10",
        53 => "Java SE 9",
        52 => "Java SE 8",
        51 => "Java SE 7",
        50 => "Java SE 6.0",
        49 => "Java SE 5.0",
        48 => "JDK 1.4",
        47 => "JDK 1.3",
        46 => "JDK 1.2",
        45 => "JDK 1.1",
        _ => "Unknown Java Version",
    }
}

} // verus!

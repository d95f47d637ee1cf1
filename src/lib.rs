//! Decoder for the JVM class-file format, with every step proved against a
//! byte-level statement of the wire layout.
//!
//! Each decoder takes a buffer and a position and, on success, returns the
//! value and the position after it. Its contract says two things: the bytes
//! it consumed are exactly the layout (`Wire::wire`) of the value it
//! returned, and its result is the outcome that a spec function of the
//! bytes gives (`*_outcome`: where the layout ends, or the first error met).
//! The class-file outcome is `class_file::class_outcome`; cutting a buffer
//! inside a layout turns that outcome into `InsufficientBytes`
//! (`class_file::lemma_truncated_class_is_insufficient`).
//!
//! Choices where the format leaves room:
//! - the constant pool gives every record one slot, Long and Double too;
//! - `this_class` and `super_class` are kept as read, not checked;
//! - an attribute name unknown in its context fails the whole decode;
//! - the declared length of an attribute is kept, not checked against its
//!   body; Synthetic and Deprecated must declare length 0, and otherwise
//!   fail with `InvalidAttributeLength`;
//! - stack-map frame types 128 to 247 all decode as the extended
//!   same-locals frame, the codes the format reserves included, so every
//!   frame-type byte is defined;
//! - element values use the full tag set of the format;
//! - the three variable-length instructions get their true length;
//! - annotations and arrays nest at most `annotation::MAX_NESTING` deep.

pub mod error;
pub mod bytes;
pub mod constant_pool;
pub mod instructions;
pub mod annotation;
pub mod stack_map;
pub mod records;
pub mod attribute;
pub mod family;
pub mod class_file;
pub mod flags;
pub mod hex;

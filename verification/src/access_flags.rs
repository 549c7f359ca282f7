use vstd::prelude::*;

verus! {

/// Declared public; may be accessed from outside its package.
pub const ACC_PUBLIC: u16 = 0x0001;

/// Declared final; no subclasses allowed.
pub const ACC_FINAL: u16 = 0x0010;

/// Treat superclass methods specially when invoked.
pub const ACC_SUPER: u16 = 0x0020;

/// Is an interface, not a class.
pub const ACC_INTERFACE: u16 = 0x0200;

/// Declared abstract; must not be instantiated.
pub const ACC_ABSTRACT: u16 = 0x0400;

/// Declared synthetic; not present in the source code.
pub const ACC_SYNTHETIC: u16 = 0x1000;

/// Declared as an annotation interface.
pub const ACC_ANNOTATION: u16 = 0x2000;

/// Declared as an enum class.
pub const ACC_ENUM: u16 = 0x4000;

/// Is a module, not a class or interface.
pub const ACC_MODULE: u16 = 0x8000;

/// Every bit of `mask` is set in `bits`.
pub open spec fn has_all(bits: u16, mask: u16) -> bool {
    bits & mask == mask
}

/// `mask` is one of the nine named flags.
pub open spec fn is_flag(mask: u16) -> bool {
    ||| mask == ACC_PUBLIC
    ||| mask == ACC_FINAL
    ||| mask == ACC_SUPER
    ||| mask == ACC_INTERFACE
    ||| mask == ACC_ABSTRACT
    ||| mask == ACC_SYNTHETIC
    ||| mask == ACC_ANNOTATION
    ||| mask == ACC_ENUM
    ||| mask == ACC_MODULE
}

/// A mask of flags to denote access permissions and properties of a class or
/// interface. Each named flag is one bit of the value, and each predicate
/// tests its own bit and no other.
#[derive(Clone, Copy, Debug, PartialEq, Eq)]
pub struct AccessFlags(u16);

impl View for AccessFlags {
    type V = u16;

    closed spec fn view(&self) -> u16 {
        self.0
    }
}

impl AccessFlags {
    /// Wraps the raw 16-bit flag value.
    pub fn new(flags: u16) -> (access_flags: Self)
        ensures
            access_flags@ == flags,
    {
        Self(flags)
    }

    /// Whether the public flag is set.
    pub fn is_public(&self) -> (set: bool)
        ensures
            set == has_all(self@, ACC_PUBLIC),
    {
        (self.0 & ACC_PUBLIC) == ACC_PUBLIC
    }

    /// Whether the final flag is set.
    pub fn is_final(&self) -> (set: bool)
        ensures
            set == has_all(self@, ACC_FINAL),
    {
        (self.0 & ACC_FINAL) == ACC_FINAL
    }

    /// Whether the super flag is set.
    pub fn is_super(&self) -> (set: bool)
        ensures
            set == has_all(self@, ACC_SUPER),
    {
        (self.0 & ACC_SUPER) == ACC_SUPER
    }

    /// Whether the interface flag is set.
    pub fn is_interface(&self) -> (set: bool)
        ensures
            set == has_all(self@, ACC_INTERFACE),
    {
        (self.0 & ACC_INTERFACE) == ACC_INTERFACE
    }

    /// Whether the abstract flag is set.
    pub fn is_abstract(&self) -> (set: bool)
        ensures
            set == has_all(self@, ACC_ABSTRACT),
    {
        (self.0 & ACC_ABSTRACT) == ACC_ABSTRACT
    }

    /// Whether the synthetic flag is set.
    pub fn is_synthetic(&self) -> (set: bool)
        ensures
            set == has_all(self@, ACC_SYNTHETIC),
    {
        (self.0 & ACC_SYNTHETIC) == ACC_SYNTHETIC
    }

    /// Whether the annotation flag is set.
    pub fn is_annotation(&self) -> (set: bool)
        ensures
            set == has_all(self@, ACC_ANNOTATION),
    {
        (self.0 & ACC_ANNOTATION) == ACC_ANNOTATION
    }

    /// Whether the enum flag is set.
    pub fn is_enum(&self) -> (set: bool)
        ensures
            set == has_all(self@, ACC_ENUM),
    {
        (self.0 & ACC_ENUM) == ACC_ENUM
    }

    /// Whether the module flag is set.
    pub fn is_module(&self) -> (set: bool)
        ensures
            set == has_all(self@, ACC_MODULE),
    {
        (self.0 & ACC_MODULE) == ACC_MODULE
    }
}

/// The named flags are independent of each other: setting or clearing one of
/// them in any value changes the answer for that flag only.
pub proof fn lemma_flags_independent(bits: u16, changed: u16, other: u16)
    requires
        is_flag(changed),
        is_flag(other),
        changed != other,
    ensures
        has_all(bits | changed, changed),
        !has_all(bits & !changed, changed),
        has_all(bits | changed, other) == has_all(bits, other),
        has_all(bits & !changed, other) == has_all(bits, other),
{
    assert(has_all(bits | changed, changed) && !has_all(bits & !changed, changed) && has_all(
        bits | changed,
        other,
    ) == has_all(bits, other) && has_all(bits & !changed, other) == has_all(bits, other))
        by (bit_vector)
        requires
            is_flag(changed),
            is_flag(other),
            changed != other,
    ;
}

} // verus!

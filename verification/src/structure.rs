//! The schema-agnostic data model of an exchange file: the dynamically
//! shaped parameter tree, entity instances, typed entity references and
//! the decimal representation of real literals.

use core::marker::PhantomData;
use vstd::prelude::*;

verus! {

/// The largest power-of-ten scale a [`StepReal`] may carry.
pub const MAX_SCALE: u32 = 18;

/// A real literal from an exchange file, kept exactly as the decimal the
/// file spelled out: the value is `mantissa / 10^scale`.
///
/// Exchange files write reals as decimal text, so a mantissa and a decimal
/// scale represent every literal exactly; nothing in this crate does
/// approximate arithmetic on them.
#[derive(Clone, Copy, Debug, PartialEq, Eq, Structural)]
pub struct StepReal {
    mantissa: i64,
    scale: u32,
}

impl StepReal {
    /// The mantissa, as a mathematical integer.
    pub closed spec fn mantissa_val(self) -> int {
        self.mantissa as int
    }

    /// The decimal scale: the value is `mantissa / 10^scale`.
    pub closed spec fn scale_val(self) -> nat {
        self.scale as nat
    }

    /// Every `StepReal` keeps its scale small enough that `10^scale`
    /// fits comfortably in 64 bits.
    #[verifier::type_invariant]
    pub open spec fn wf(self) -> bool {
        self.scale_val() <= MAX_SCALE
    }

    pub fn new(mantissa: i64, scale: u32) -> (r: StepReal)
        requires
            scale <= MAX_SCALE,
        ensures
            r.mantissa_val() == mantissa,
            r.scale_val() == scale,
    {
        StepReal { mantissa, scale }
    }

    pub fn mantissa(&self) -> (m: i64)
        ensures
            m == self.mantissa_val(),
    {
        self.mantissa
    }

    pub fn scale(&self) -> (s: u32)
        ensures
            s == self.scale_val(),
    {
        self.scale
    }
}

/// One positional value in an exchange file: either a named constructor
/// call, a plain (untyped) value, or the `*` marker for a position the
/// file intentionally left blank.
///
/// `OmittedParameter` is semantically distinct from `UnTypedParameter::Null`
/// (the `$` token): omission becomes an empty or default value downstream,
/// while `Null` is an explicit "present but unknown".
#[derive(Debug)]
pub enum Parameter {
    TypedParameter(TypedParameter),
    UnTypedParameter(UnTypedParameter),
    OmittedParameter,
}

/// A named constructor call `TYPE(args...)`, used both for top-level
/// entity instantiation and for nested typed values.
#[derive(Debug)]
pub struct TypedParameter {
    /// The constructor's type name, as spelled in the file.
    pub name: String,
    pub parameters: Vec<Parameter>,
}

/// A plain value: one case per lexical category of the file format.
#[derive(Debug)]
pub enum UnTypedParameter {
    /// An ordered aggregate `(a, b, ...)`.
    List(Vec<Parameter>),
    /// An enumeration literal `.NAME.`.
    EnumValue(String),
    /// A `#N` token referring to another entity instance.
    EntityRef(i64),
    /// A `#NAME` constant reference.
    ConstantRef(String),
    Integer(i64),
    Real(StepReal),
    String(String),
    /// Binary content; its bits are not modeled here.
    Binary,
    /// The `$` token: a value that is present but unknown.
    Null,
}

/// One identified record of the data section. A file's ids are expected
/// to be unique, but this model does not enforce that: duplicates are the
/// consumer's concern.
#[derive(Debug)]
pub struct EntityInstance {
    pub id: i64,
    pub value: Vec<TypedParameter>,
}

/// A non-owning, statically tagged reference to another entity instance,
/// which may not be parsed yet (exchange files permit forward references).
///
/// Only the raw integer id exists at runtime; the tag `T` names the
/// expected referent type purely for static checking of field assignment
/// and is never inspected. Resolution against a complete id-to-instance
/// index is an explicit, separate, consumer-owned step after the whole
/// file is read.
#[derive(Eq, PartialEq, Hash, Debug, Default)]
pub struct EntityRef<T>(i64, PhantomData<T>);

impl<T> EntityRef<T> {
    /// The raw id this reference carries; id 0 is the "no reference"
    /// sentinel produced for null or omitted source values.
    pub closed spec fn raw_id(self) -> i64 {
        self.0
    }

    #[inline]
    pub fn new(index: i64) -> (r: EntityRef<T>)
        ensures
            r.raw_id() == index,
    {
        EntityRef(index, PhantomData)
    }

    #[inline]
    pub fn inner(&self) -> (id: i64)
        ensures
            id == self.raw_id(),
    {
        self.0
    }
}

/// The parsed shape of a whole file: the header's constructor list and
/// the data section's entity instances, as the grammar parser returns them.
#[derive(Debug)]
pub struct ExchangeFile {
    pub header: Vec<TypedParameter>,
    pub data: Vec<EntityInstance>,
}

impl Parameter {
    /// True of the `$` token and of an omitted position.
    pub open spec fn spec_is_null(&self) -> bool {
        match self {
            Parameter::UnTypedParameter(UnTypedParameter::Null) => true,
            Parameter::OmittedParameter => true,
            _ => false,
        }
    }

    pub fn is_null(&self) -> (b: bool)
        ensures
            b == self.spec_is_null(),
    {
        match self {
            Parameter::UnTypedParameter(UnTypedParameter::Null) => true,
            Parameter::OmittedParameter => true,
            _ => false,
        }
    }
}

} // verus!

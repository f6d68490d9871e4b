use vstd::prelude::*;

verus! {

/// The kind of JSON value a decoder expected where it found another.
#[derive(Clone, Copy, Debug, PartialEq, Eq, Structural)]
pub enum Shape {
    Object,
    Array,
}

/// Why a decode failed. Every decoder stops at the first failure.
#[derive(Clone, Debug, PartialEq, Eq)]
pub enum DecodeError {
    /// The string or number `raw` of `field` did not parse as the field's
    /// numeric type.
    MalformedScalar { field: String, raw: String },
    /// The enumerated `field` held `raw`, outside its closed set.
    UnknownEnumValue { field: String, raw: String },
    /// A keyed record lacks a required member.
    MissingField { name: String },
    /// A positional record has the wrong number of elements.
    WrongLength { expected: usize, found: usize },
    /// An object or an array was expected and some other value found.
    WrongType { expected: Shape },
}

/// The four classes of decode failure.
#[derive(Clone, Copy, Debug, PartialEq, Eq, Structural)]
pub enum ErrorKind {
    MalformedScalar,
    UnknownEnumValue,
    ShapeMismatch,
    StructuralError,
}

/// The mathematical content of a [`DecodeError`].
pub enum Failure {
    MalformedScalar(Seq<char>, Seq<char>),
    UnknownEnumValue(Seq<char>, Seq<char>),
    MissingField(Seq<char>),
    WrongLength(nat, nat),
    WrongType(Shape),
}

impl View for DecodeError {
    type V = Failure;

    open spec fn view(&self) -> Failure {
        match self {
            DecodeError::MalformedScalar { field, raw } => Failure::MalformedScalar(field@, raw@),
            DecodeError::UnknownEnumValue { field, raw } => Failure::UnknownEnumValue(
                field@,
                raw@,
            ),
            DecodeError::MissingField { name } => Failure::MissingField(name@),
            DecodeError::WrongLength { expected, found } => Failure::WrongLength(
                *expected as nat,
                *found as nat,
            ),
            DecodeError::WrongType { expected } => Failure::WrongType(*expected),
        }
    }
}

/// The class a failure belongs to.
pub open spec fn kind_of(f: Failure) -> ErrorKind {
    match f {
        Failure::MalformedScalar(_, _) => ErrorKind::MalformedScalar,
        Failure::UnknownEnumValue(_, _) => ErrorKind::UnknownEnumValue,
        Failure::MissingField(_) => ErrorKind::ShapeMismatch,
        Failure::WrongLength(_, _) => ErrorKind::ShapeMismatch,
        Failure::WrongType(_) => ErrorKind::StructuralError,
    }
}

impl DecodeError {
    /// The class this failure belongs to.
    pub fn kind(&self) -> (r: ErrorKind)
        ensures
            r == kind_of(self@),
    {
        match self {
            DecodeError::MalformedScalar { .. } => ErrorKind::MalformedScalar,
            DecodeError::UnknownEnumValue { .. } => ErrorKind::UnknownEnumValue,
            DecodeError::MissingField { .. } => ErrorKind::ShapeMismatch,
            DecodeError::WrongLength { .. } => ErrorKind::ShapeMismatch,
            DecodeError::WrongType { .. } => ErrorKind::StructuralError,
        }
    }
}

/// An executable decode result agrees with its specification: the same value
/// on success, the same failure otherwise.
pub open spec fn agrees<T>(r: Result<T, DecodeError>, s: Result<T, Failure>) -> bool {
    match r {
        Ok(v) => s == Ok::<T, Failure>(v),
        Err(e) => s == Err::<T, Failure>(e@),
    }
}

} // verus!

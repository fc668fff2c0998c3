//! The reflective description of an interface and the errors of a reflective call.

use core::any::TypeId;
use crate::interface::{types_of, InterfaceView, Value};
use crate::text::{decimal, to_decimal};
use vstd::prelude::*;
use vstd::string::*;

verus! {

/// The position of a method within its interface.
pub type MethodIndex = u8;

/// `std::any::TypeId`, the identity of a type. A value of it is opaque here:
/// identities are only copied and compared.
#[verifier::external_type_specification]
#[verifier::external_body]
pub struct ExTypeId(TypeId);

/// `TypeId`'s `==`: two identities compare equal exactly when they are the
/// same identity.
#[verifier::external_body]
pub(crate) fn same_type(left: &TypeId, right: &TypeId) -> (same: bool)
    ensures
        same == (*left == *right),
{
    left == right
}

/// How a method takes the instance it is called on.
#[derive(Debug, Clone, Copy, PartialEq, Eq, Structural)]
pub enum Receiver {
    /// Exclusive, read-write access.
    Mutable,
    /// Shared, read-only access.
    Immutable,
    /// The call consumes the instance.
    Owned,
}

impl Receiver {
    /// Whether the method needs exclusive access to a borrowed instance.
    pub fn is_mutable(&self) -> (mutable: bool)
        ensures
            mutable == (*self == Receiver::Mutable),
    {
        if let Receiver::Mutable = self {
            true
        } else {
            false
        }
    }
}

/// The types of a method: those of its arguments in order, that of its
/// result, and how it takes its instance.
#[derive(Debug, PartialEq, Eq)]
pub struct MethodTypes {
    pub arguments: Vec<TypeId>,
    pub output: TypeId,
    pub receiver: Receiver,
}

/// No method stands at `index`.
#[derive(Debug, PartialEq, Eq)]
pub struct OutOfRangeError {
    pub index: MethodIndex,
}

/// A call handed over `got` arguments where the method takes `expected`.
#[derive(Debug, PartialEq, Eq)]
pub struct ArgumentCountError {
    pub expected: usize,
    pub got: usize,
}

/// No method is called `name`.
#[derive(Debug, PartialEq, Eq)]
pub struct NameError {
    pub name: String,
}

/// An instance is not of the interface `target`, nor of one that it extends.
#[derive(Debug, PartialEq, Eq)]
pub struct CastError {
    pub target: TypeId,
}

/// Why a reflective call was not made.
#[derive(Debug, PartialEq, Eq)]
pub enum CallError {
    /// The argument at this position is not of the declared type.
    Type(u8),
    ArgumentCount(ArgumentCountError),
    OutOfRange(OutOfRangeError),
    /// The method takes its instance in this way, which the entry point that
    /// was used does not offer.
    IncorrectReceiver(Receiver),
}

impl OutOfRangeError {
    /// The error in words.
    pub open spec fn text(self) -> Seq<char> {
        "method "@ + decimal(self.index as nat) + " out of range"@
    }

    /// The error in words.
    pub fn message(&self) -> (message: String)
        ensures
            message@ == self.text(),
    {
        let mut message = String::from_str("method ");
        let index = to_decimal(self.index as usize);
        message.append(index.as_str());
        message.append(" out of range");
        message
    }
}

impl ArgumentCountError {
    /// The error in words.
    pub open spec fn text(self) -> Seq<char> {
        "got "@ + decimal(self.got as nat) + " arguments, expected "@ + decimal(
            self.expected as nat,
        )
    }

    /// The error in words.
    pub fn message(&self) -> (message: String)
        ensures
            message@ == self.text(),
    {
        let mut message = String::from_str("got ");
        let got = to_decimal(self.got);
        message.append(got.as_str());
        message.append(" arguments, expected ");
        let expected = to_decimal(self.expected);
        message.append(expected.as_str());
        message
    }
}

impl NameError {
    /// The error in words.
    pub open spec fn text(self) -> Seq<char> {
        "no method with name "@ + self.name@
    }

    /// The error in words.
    pub fn message(&self) -> (message: String)
        ensures
            message@ == self.text(),
    {
        let mut message = String::from_str("no method with name ");
        message.append(self.name.as_str());
        message
    }
}

impl CallError {
    /// The error in words.
    pub open spec fn text(self) -> Seq<char> {
        match self {
            CallError::Type(position) => "invalid type for argument "@ + decimal(position as nat),
            CallError::OutOfRange(error) => error.text(),
            CallError::ArgumentCount(error) => error.text(),
            CallError::IncorrectReceiver(Receiver::Mutable) =>
                "expected mutable receiver, found immutable"@,
            CallError::IncorrectReceiver(Receiver::Immutable) =>
                "expected immutable receiver, found mutable"@,
            CallError::IncorrectReceiver(Receiver::Owned) =>
                "expected owned receiver, found borrowed"@,
        }
    }

    /// The error in words.
    pub fn message(&self) -> (message: String)
        ensures
            message@ == self.text(),
    {
        match self {
            CallError::Type(position) => {
                let mut message = String::from_str("invalid type for argument ");
                let position = to_decimal(*position as usize);
                message.append(position.as_str());
                message
            },
            CallError::OutOfRange(error) => error.message(),
            CallError::ArgumentCount(error) => error.message(),
            CallError::IncorrectReceiver(expected) => match expected {
                Receiver::Mutable => String::from_str("expected mutable receiver, found immutable"),
                Receiver::Immutable => String::from_str(
                    "expected immutable receiver, found mutable",
                ),
                Receiver::Owned => String::from_str("expected owned receiver, found borrowed"),
            },
        }
    }
}


/// What answers for an interface.
pub trait Reflected {
    /// The interface that is answered for.
    spec fn reflects(&self) -> InterfaceView;
}

/// The reflective contract: the methods of an instance called by index, with
/// arguments and result whose types were erased, and the description of the
/// interface.
///
/// Each of the three entry points serves the methods that take their instance
/// in one way, and refuses the others with `IncorrectReceiver`. None calls a
/// method before the call was found to be in order.
pub trait Trait<T>: Reflected + Sized {
    /// The instance once only the reflective contract is left of it.
    type Erased: Reflected;

    /// Whether the method at `index`, called with `arguments`, may return `output`.
    spec fn produces(&self, index: MethodIndex, arguments: Vec<Value<T>>, output: Value<T>) -> bool;

    /// Calls a method that takes a shared instance.
    fn call(&self, index: MethodIndex, arguments: Vec<Value<T>>) -> (r: Result<Value<T>, CallError>)
        ensures
            match self.reflects().verdict(Receiver::Immutable, index, types_of(arguments@)) {
                Ok(()) => r matches Ok(output) && self.produces(index, arguments, output),
                Err(error) => r == Err::<Value<T>, CallError>(error),
            },
    ;

    /// Calls a method that takes an exclusive instance.
    fn call_mut(&mut self, index: MethodIndex, arguments: Vec<Value<T>>) -> (r: Result<
        Value<T>,
        CallError,
    >)
        ensures
            final(self).reflects() == old(self).reflects(),
            forall|index: MethodIndex, arguments: Vec<Value<T>>, output: Value<T>|
                final(self).produces(index, arguments, output) == old(self).produces(
                    index,
                    arguments,
                    output,
                ),
            match old(self).reflects().verdict(Receiver::Mutable, index, types_of(arguments@)) {
                Ok(()) => r matches Ok(output) && old(self).produces(index, arguments, output),
                Err(error) => r == Err::<Value<T>, CallError>(error),
            },
    ;

    /// Calls a method that consumes the instance.
    fn call_move(self, index: MethodIndex, arguments: Vec<Value<T>>) -> (r: Result<
        Value<T>,
        CallError,
    >)
        ensures
            match self.reflects().verdict(Receiver::Owned, index, types_of(arguments@)) {
                Ok(()) => r matches Ok(output) && self.produces(index, arguments, output),
                Err(error) => r == Err::<Value<T>, CallError>(error),
            },
    ;

    /// The index of the method called `name`.
    fn by_name(&self, name: &str) -> (r: Result<MethodIndex, NameError>)
        ensures
            match self.reflects().position(name@) {
                Some(index) => r == Ok::<MethodIndex, NameError>(index as MethodIndex),
                None => r matches Err(error) && error.name@ == name@,
            },
            r matches Ok(index) ==> self.reflects().named(name@, index as int),
    ;

    /// How many methods there are.
    fn count(&self) -> (count: MethodIndex)
        ensures
            count == self.reflects().methods.len(),
    ;

    /// The name of the method at `index`.
    fn name_of(&self, index: MethodIndex) -> (r: Result<String, OutOfRangeError>)
        ensures
            index < self.reflects().methods.len() ==> (r matches Ok(name) && name@
                == self.reflects().methods[index as int].name),
            index >= self.reflects().methods.len() ==> r == Err::<String, OutOfRangeError>(
                OutOfRangeError { index },
            ),
    ;

    /// The types of the method at `index`.
    fn types(&self, index: MethodIndex) -> (r: Result<MethodTypes, OutOfRangeError>)
        ensures
            index < self.reflects().methods.len() ==> (r matches Ok(types) && types@
                == self.reflects().methods[index as int].types),
            index >= self.reflects().methods.len() ==> r == Err::<MethodTypes, OutOfRangeError>(
                OutOfRangeError { index },
            ),
    ;

    /// How the method at `index` takes its instance.
    fn receiver(&self, index: MethodIndex) -> (r: Result<Receiver, OutOfRangeError>)
        ensures
            r == if index < self.reflects().methods.len() {
                Ok::<Receiver, OutOfRangeError>(
                    self.reflects().methods[index as int].types.receiver,
                )
            } else {
                Err::<Receiver, OutOfRangeError>(OutOfRangeError { index })
            },
    ;

    /// The identity of the interface.
    fn this(&self) -> (id: TypeId)
        ensures
            id == self.reflects().id,
    ;

    /// The name of the interface.
    fn name(&self) -> (name: String)
        ensures
            name@ == self.reflects().name,
    ;

    /// The identities of the interfaces that this one extends.
    fn supertraits(&self) -> (supertraits: Vec<TypeId>)
        ensures
            supertraits@ == self.reflects().supertraits,
    ;

    /// Narrows the instance to the interface `ty`. This succeeds for the
    /// interface itself and for each interface that it extends, and what
    /// comes back answers for `ty`; where it fails, the error names `ty`.
    fn upcast(self, ty: TypeId) -> (r: Result<Self::Erased, CastError>)
        ensures
            self.reflects().id == ty || self.reflects().supertraits.contains(ty) ==> r is Ok,
            r matches Ok(erased) ==> erased.reflects().id == ty,
            r matches Err(error) ==> error.target == ty,
    ;

    /// Leaves only the reflective contract of the instance: what comes back
    /// answers for the same interface.
    fn erase(self) -> (erased: Self::Erased)
        ensures
            erased.reflects() == self.reflects(),
    ;
}

} // verus!

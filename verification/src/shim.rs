//! The adapter that stands for an instance of an interface: one callable per
//! method, each closing over the instance, and one nested adapter per
//! interface that it extends.

use core::any::TypeId;
use core::marker::PhantomData;
use crate::interface::{lemma_call_is_made, types_of, Interface, InterfaceView, Value};
use crate::reflection::{
    same_type, CallError, CastError, MethodIndex, MethodTypes, NameError, OutOfRangeError,
    Receiver, Reflected, Trait,
};
use vstd::pervasive::unreached;
use vstd::prelude::*;

verus! {

/// What calls a method on the instance: over a borrowed instance, as often as
/// asked, or over the instance itself, once.
pub enum Callable<F, G> {
    Borrowed(F),
    Owned(G),
}

/// Whether `callable` may be called with `arguments`.
pub open spec fn accepts<T, F: Fn(Vec<Value<T>>) -> Value<T>, G: FnOnce(Vec<Value<T>>) -> Value<T>>(
    callable: Callable<F, G>,
    arguments: Vec<Value<T>>,
) -> bool {
    match callable {
        Callable::Borrowed(method) => call_requires(method, (arguments,)),
        Callable::Owned(method) => call_requires(method, (arguments,)),
    }
}

/// Whether `callable`, called with `arguments`, may return `output`.
pub open spec fn yields<T, F: Fn(Vec<Value<T>>) -> Value<T>, G: FnOnce(Vec<Value<T>>) -> Value<T>>(
    callable: Callable<F, G>,
    arguments: Vec<Value<T>>,
    output: Value<T>,
) -> bool {
    match callable {
        Callable::Borrowed(method) => call_ensures(method, (arguments,), output),
        Callable::Owned(method) => call_ensures(method, (arguments,), output),
    }
}

/// The adapter of one instance to one interface.
#[verifier::reject_recursive_types(T)]
pub struct Shim<T, F: Fn(Vec<Value<T>>) -> Value<T>, G: FnOnce(Vec<Value<T>>) -> Value<T>> {
    interface: Interface,
    methods: Vec<Callable<F, G>>,
    supertraits: Vec<Shim<T, F, G>>,
    marker: PhantomData<T>,
}

impl<T, F: Fn(Vec<Value<T>>) -> Value<T>, G: FnOnce(Vec<Value<T>>) -> Value<T>> Shim<T, F, G> {
    /// The interface that the adapter answers for.
    pub closed spec fn interface(&self) -> InterfaceView {
        self.interface@
    }

    /// The callables, in the order of the methods.
    pub closed spec fn callables(&self) -> Seq<Callable<F, G>> {
        self.methods@
    }

    /// The nested adapters, in the order in which the interface declares what
    /// it extends.
    pub closed spec fn nested(&self) -> Seq<Shim<T, F, G>> {
        self.supertraits@
    }

    /// Whether the method at `index`, called with `arguments`, may return `output`.
    pub open spec fn gives(
        &self,
        index: MethodIndex,
        arguments: Vec<Value<T>>,
        output: Value<T>,
    ) -> bool {
        index < self.callables().len() && yields(self.callables()[index as int], arguments, output)
    }

    /// Whether `methods` and `supertraits` are what an adapter for `interface`
    /// holds: one callable per method, over the instance itself exactly where
    /// the method consumes it, and one nested adapter per interface that it
    /// extends, each for that interface.
    pub open spec fn fits(
        interface: InterfaceView,
        methods: Seq<Callable<F, G>>,
        supertraits: Seq<Shim<T, F, G>>,
    ) -> bool {
        &&& methods.len() == interface.methods.len()
        &&& forall|i: int|
            0 <= i < methods.len() ==> ((#[trigger] methods[i]) is Owned
                <==> interface.methods[i].types.receiver == Receiver::Owned)
        &&& supertraits.len() == interface.supertraits.len()
        &&& forall|i: int|
            0 <= i < supertraits.len() ==> (#[trigger] supertraits[i]).interface().id
                == interface.supertraits[i]
    }

    /// Whether each of `methods` may be called with whatever arguments the
    /// interface declares for it.
    pub open spec fn callable_as_declared(
        interface: InterfaceView,
        methods: Seq<Callable<F, G>>,
    ) -> bool {
        forall|i: int, arguments: Vec<Value<T>>|
            0 <= i < methods.len() && i < interface.methods.len() && types_of(arguments@)
                == interface.methods[i].types.arguments ==> #[trigger] accepts(
                methods[i],
                arguments,
            )
    }

    #[verifier::type_invariant]
    spec fn well_formed(self) -> bool {
        &&& self.interface@.methods.len() <= 255
        &&& Self::fits(self.interface@, self.methods@, self.supertraits@)
        &&& Self::callable_as_declared(self.interface@, self.methods@)
    }

    /// The adapter for `interface` whose methods are reached through
    /// `methods` and which embeds `supertraits`; none where they do not fit
    /// the interface.
    pub fn from_instance(
        interface: Interface,
        methods: Vec<Callable<F, G>>,
        supertraits: Vec<Shim<T, F, G>>,
    ) -> (r: Option<Self>)
        requires
            Self::callable_as_declared(interface@, methods@),
        ensures
            r is Some <==> Self::fits(interface@, methods@, supertraits@),
            r matches Some(shim) ==> {
                &&& shim.interface() == interface@
                &&& shim.callables() == methods@
                &&& shim.nested() == supertraits@
            },
    {
        let count = interface.count();
        if methods.len() != count as usize {
            return None;
        }
        let mut i: usize = 0;
        while i < methods.len()
            invariant
                i <= methods@.len(),
                methods@.len() == interface@.methods.len(),
                methods@.len() <= 255,
                forall|j: int|
                    0 <= j < i ==> ((#[trigger] methods@[j]) is Owned
                        <==> interface@.methods[j].types.receiver == Receiver::Owned),
            decreases methods.len() - i,
        {
            let owned = match &methods[i] {
                Callable::Owned(_) => true,
                Callable::Borrowed(_) => false,
            };
            let consumes = match interface.receiver(i as MethodIndex) {
                Ok(Receiver::Owned) => true,
                _ => false,
            };
            if owned != consumes {
                return None;
            }
            i += 1;
        }
        let declared = interface.supertraits();
        if supertraits.len() != declared.len() {
            return None;
        }
        let mut i: usize = 0;
        while i < supertraits.len()
            invariant
                i <= supertraits@.len(),
                supertraits@.len() == declared@.len(),
                declared@ == interface@.supertraits,
                forall|j: int|
                    0 <= j < i ==> (#[trigger] supertraits@[j]).interface().id
                        == interface@.supertraits[j],
            decreases supertraits.len() - i,
        {
            let id = supertraits[i].interface.this();
            if !same_type(&id, &declared[i]) {
                return None;
            }
            i += 1;
        }
        Some(Shim { interface, methods, supertraits, marker: PhantomData })
    }

    /// The description of the interface.
    pub fn describe(&self) -> (interface: &Interface)
        ensures
            interface@ == self.interface(),
    {
        &self.interface
    }

    /// Calls the method at `index`, which takes a shared instance.
    ///
    /// The call is examined first, and the method is called only if nothing
    /// is found: no callable is ever handed arguments other than those
    /// declared for it.
    pub fn call(&self, index: MethodIndex, arguments: Vec<Value<T>>) -> (r: Result<
        Value<T>,
        CallError,
    >)
        ensures
            match self.interface().verdict(Receiver::Immutable, index, types_of(arguments@)) {
                Ok(()) => r matches Ok(output) && self.gives(index, arguments, output),
                Err(error) => r == Err::<Value<T>, CallError>(error),
            },
    {
        proof {
            use_type_invariant(self);
            lemma_call_is_made(
                self.interface@,
                Receiver::Immutable,
                index,
                types_of(arguments@),
            );
        }
        match self.interface.check(Receiver::Immutable, index, &arguments) {
            Err(error) => Err(error),
            Ok(()) => match &self.methods[index as usize] {
                Callable::Borrowed(method) => {
                    assert(accepts(self.methods@[index as int], arguments));
                    Ok(method(arguments))
                },
                Callable::Owned(_) => unreached(),
            },
        }
    }

    /// Calls the method at `index`, which takes an exclusive instance.
    ///
    /// The call is examined first, and the method is called only if nothing
    /// is found. The adapter itself is as it was.
    pub fn call_mut(&mut self, index: MethodIndex, arguments: Vec<Value<T>>) -> (r: Result<
        Value<T>,
        CallError,
    >)
        ensures
            *final(self) == *old(self),
            match old(self).interface().verdict(Receiver::Mutable, index, types_of(arguments@)) {
                Ok(()) => r matches Ok(output) && old(self).gives(index, arguments, output),
                Err(error) => r == Err::<Value<T>, CallError>(error),
            },
    {
        proof {
            use_type_invariant(&*self);
            lemma_call_is_made(self.interface@, Receiver::Mutable, index, types_of(arguments@));
        }
        match self.interface.check(Receiver::Mutable, index, &arguments) {
            Err(error) => Err(error),
            Ok(()) => match &self.methods[index as usize] {
                Callable::Borrowed(method) => {
                    assert(accepts(self.methods@[index as int], arguments));
                    Ok(method(arguments))
                },
                Callable::Owned(_) => unreached(),
            },
        }
    }

    /// Calls the method at `index`, which consumes the instance, and the
    /// adapter with it.
    ///
    /// The call is examined first, and the method is called only if nothing
    /// is found.
    pub fn call_move(self, index: MethodIndex, arguments: Vec<Value<T>>) -> (r: Result<
        Value<T>,
        CallError,
    >)
        ensures
            match self.interface().verdict(Receiver::Owned, index, types_of(arguments@)) {
                Ok(()) => r matches Ok(output) && self.gives(index, arguments, output),
                Err(error) => r == Err::<Value<T>, CallError>(error),
            },
    {
        proof {
            use_type_invariant(&self);
            lemma_call_is_made(self.interface@, Receiver::Owned, index, types_of(arguments@));
        }
        match self.interface.check(Receiver::Owned, index, &arguments) {
            Err(error) => Err(error),
            Ok(()) => {
                let mut methods = self.methods;
                let ghost held = methods@;
                match methods.remove(index as usize) {
                    Callable::Owned(method) => {
                        assert(accepts(held[index as int], arguments));
                        Ok(method(arguments))
                    },
                    Callable::Borrowed(_) => unreached(),
                }
            },
        }
    }
}


impl<T, F: Fn(Vec<Value<T>>) -> Value<T>, G: FnOnce(Vec<Value<T>>) -> Value<T>> Shim<T, F, G> {
    /// The adapter for the interface `target` within this one: this one if
    /// it answers for `target`; else what is found in the first nested
    /// adapter, in the order of declaration, that holds one.
    pub open spec fn find(self, target: TypeId) -> Option<Shim<T, F, G>>
        decreases self, self.nested().len() + 1,
    {
        if self.interface().id == target {
            Some(self)
        } else {
            self.find_nested(target, 0)
        }
    }

    /// What `find` finds in the nested adapters from the position `from` on.
    pub open spec fn find_nested(self, target: TypeId, from: int) -> Option<Shim<T, F, G>>
        decreases self, self.nested().len() - from,
    {
        if 0 <= from < self.nested().len() {
            match self.nested()[from].find(target) {
                Some(found) => Some(found),
                None => self.find_nested(target, from + 1),
            }
        } else {
            None
        }
    }
}


/// An instance behind its adapter, reached by method index alone.
#[verifier::reject_recursive_types(T)]
pub struct ErasedShim<T, F: Fn(Vec<Value<T>>) -> Value<T>, G: FnOnce(Vec<Value<T>>) -> Value<T>> {
    inner: Shim<T, F, G>,
}

impl<T, F: Fn(Vec<Value<T>>) -> Value<T>, G: FnOnce(Vec<Value<T>>) -> Value<T>> Shim<T, F, G> {
    /// Whether this adapter, or one nested in it at any depth, answers for
    /// the interface `target`: whether `target` is the interface itself or
    /// one that it extends, directly or not.
    pub open spec fn answers_for(self, target: TypeId) -> bool
        decreases self,
    {
        self.interface().id == target || exists|i: int|
            0 <= i < self.nested().len() && (#[trigger] self.nested()[i]).answers_for(target)
    }

    /// `find` finds an adapter exactly where one answers for `target`, and
    /// what it finds answers for `target` itself.
    pub proof fn lemma_find(self, target: TypeId)
        ensures
            self.find(target) is Some <==> self.answers_for(target),
            self.find(target) matches Some(found) ==> found.interface().id == target,
        decreases self, self.nested().len() + 1,
    {
        if self.interface().id != target {
            self.lemma_find_nested(target, 0);
        }
    }

    proof fn lemma_find_nested(self, target: TypeId, from: int)
        requires
            0 <= from,
        ensures
            self.find_nested(target, from) is Some <==> exists|i: int|
                from <= i < self.nested().len() && (#[trigger] self.nested()[i]).answers_for(
                    target,
                ),
            self.find_nested(target, from) matches Some(found) ==> found.interface().id == target,
        decreases self, self.nested().len() - from,
    {
        if from < self.nested().len() {
            self.nested()[from].lemma_find(target);
            self.lemma_find_nested(target, from + 1);
            if self.nested()[from].find(target) is None {
                assert forall|i: int|
                    from <= i < self.nested().len() && (#[trigger] self.nested()[i]).answers_for(
                        target,
                    ) implies from + 1 <= i by {}
            }
        }
    }

    fn locate(self, target: &TypeId) -> (r: Option<Shim<T, F, G>>)
        ensures
            r == self.find(*target),
        decreases self,
    {
        let id = self.interface.this();
        if same_type(&id, target) {
            return Some(self);
        }
        let ghost whole = self;
        let mut rest = self.supertraits;
        let ghost mut from: int = 0;
        while rest.len() > 0
            invariant
                whole == self,
                0 <= from <= whole.nested().len(),
                rest@ == whole.nested().skip(from),
                whole.find(*target) == whole.find_nested(*target, from),
            decreases rest.len(),
        {
            let child = rest.remove(0);
            assert(child == whole.nested()[from]);
            assert(rest@ =~= whole.nested().skip(from + 1));
            match child.locate(target) {
                Some(found) => {
                    return Some(found);
                },
                None => {},
            }
            proof {
                from = from + 1;
            }
        }
        None
    }

    /// Narrows the instance to the interface `ty`: to its own, or to one that
    /// it extends, directly or through what it extends. What comes back is
    /// the adapter that `find` finds, which answers for `ty`; where there is
    /// none, the error names `ty`.
    pub fn upcast(self, ty: TypeId) -> (r: Result<ErasedShim<T, F, G>, CastError>)
        ensures
            match self.find(ty) {
                Some(found) => r matches Ok(erased) && erased.shim() == found,
                None => r matches Err(error) && error.target == ty,
            },
            r is Ok <==> self.answers_for(ty),
            r matches Ok(erased) ==> erased.shim().interface().id == ty,
            self.interface().id == ty || self.interface().supertraits.contains(ty) ==> r is Ok,
    {
        proof {
            use_type_invariant(&self);
            self.lemma_find(ty);
            if self.interface().supertraits.contains(ty) {
                let i = choose|i: int|
                    0 <= i < self.interface().supertraits.len() && self.interface().supertraits[i]
                        == ty;
                assert(self.nested()[i].answers_for(ty));
            }
        }
        match self.locate(&ty) {
            Some(found) => Ok(ErasedShim { inner: found }),
            None => Err(CastError { target: ty }),
        }
    }

    /// Hides the instance behind its index-based contract.
    pub fn erase(self) -> (erased: ErasedShim<T, F, G>)
        ensures
            erased.shim() == self,
    {
        ErasedShim { inner: self }
    }
}

impl<T, F: Fn(Vec<Value<T>>) -> Value<T>, G: FnOnce(Vec<Value<T>>) -> Value<T>> ErasedShim<
    T,
    F,
    G,
> {
    /// The adapter that is hidden.
    pub closed spec fn shim(&self) -> Shim<T, F, G> {
        self.inner
    }

    /// Gives the adapter back where `ty` is the interface that it answers
    /// for; the error names `ty` where it is not.
    pub fn cast(self, ty: TypeId) -> (r: Result<Shim<T, F, G>, CastError>)
        ensures
            r == if self.shim().interface().id == ty {
                Ok::<Shim<T, F, G>, CastError>(self.shim())
            } else {
                Err::<Shim<T, F, G>, CastError>(CastError { target: ty })
            },
    {
        let id = self.inner.describe().this();
        if same_type(&id, &ty) {
            Ok(self.inner)
        } else {
            Err(CastError { target: ty })
        }
    }

    /// Narrows the instance as `Shim::upcast` does.
    pub fn upcast(self, ty: TypeId) -> (r: Result<ErasedShim<T, F, G>, CastError>)
        ensures
            match self.shim().find(ty) {
                Some(found) => r matches Ok(erased) && erased.shim() == found,
                None => r matches Err(error) && error.target == ty,
            },
            r is Ok <==> self.shim().answers_for(ty),
            r matches Ok(erased) ==> erased.shim().interface().id == ty,
            self.shim().interface().id == ty || self.shim().interface().supertraits.contains(ty)
                ==> r is Ok,
    {
        self.inner.upcast(ty)
    }

    /// An erased instance is erased already.
    pub fn erase(self) -> (erased: ErasedShim<T, F, G>)
        ensures
            erased == self,
    {
        self
    }
}


impl<T, F: Fn(Vec<Value<T>>) -> Value<T>, G: FnOnce(Vec<Value<T>>) -> Value<T>> Reflected for Shim<
    T,
    F,
    G,
> {
    open spec fn reflects(&self) -> InterfaceView {
        self.interface()
    }
}

impl<T, F: Fn(Vec<Value<T>>) -> Value<T>, G: FnOnce(Vec<Value<T>>) -> Value<T>> Trait<T> for Shim<
    T,
    F,
    G,
> {
    type Erased = ErasedShim<T, F, G>;

    open spec fn produces(
        &self,
        index: MethodIndex,
        arguments: Vec<Value<T>>,
        output: Value<T>,
    ) -> bool {
        self.gives(index, arguments, output)
    }

    fn call(&self, index: MethodIndex, arguments: Vec<Value<T>>) -> (r: Result<
        Value<T>,
        CallError,
    >) {
        Shim::call(self, index, arguments)
    }

    fn call_mut(&mut self, index: MethodIndex, arguments: Vec<Value<T>>) -> (r: Result<
        Value<T>,
        CallError,
    >) {
        Shim::call_mut(self, index, arguments)
    }

    fn call_move(self, index: MethodIndex, arguments: Vec<Value<T>>) -> (r: Result<
        Value<T>,
        CallError,
    >) {
        Shim::call_move(self, index, arguments)
    }

    fn by_name(&self, name: &str) -> (r: Result<MethodIndex, NameError>) {
        self.interface.by_name(name)
    }

    fn count(&self) -> (count: MethodIndex) {
        self.interface.count()
    }

    fn name_of(&self, index: MethodIndex) -> (r: Result<String, OutOfRangeError>) {
        self.interface.name_of(index)
    }

    fn types(&self, index: MethodIndex) -> (r: Result<MethodTypes, OutOfRangeError>) {
        self.interface.types(index)
    }

    fn receiver(&self, index: MethodIndex) -> (r: Result<Receiver, OutOfRangeError>) {
        self.interface.receiver(index)
    }

    fn this(&self) -> (id: TypeId) {
        self.interface.this()
    }

    fn name(&self) -> (name: String) {
        self.interface.name()
    }

    fn supertraits(&self) -> (supertraits: Vec<TypeId>) {
        self.interface.supertraits()
    }

    fn upcast(self, ty: TypeId) -> (r: Result<ErasedShim<T, F, G>, CastError>) {
        Shim::upcast(self, ty)
    }

    fn erase(self) -> (erased: ErasedShim<T, F, G>) {
        Shim::erase(self)
    }
}

impl<T, F: Fn(Vec<Value<T>>) -> Value<T>, G: FnOnce(Vec<Value<T>>) -> Value<T>> Reflected for ErasedShim<
    T,
    F,
    G,
> {
    open spec fn reflects(&self) -> InterfaceView {
        self.shim().interface()
    }
}

impl<T, F: Fn(Vec<Value<T>>) -> Value<T>, G: FnOnce(Vec<Value<T>>) -> Value<T>> Trait<
    T,
> for ErasedShim<T, F, G> {
    type Erased = ErasedShim<T, F, G>;

    open spec fn produces(
        &self,
        index: MethodIndex,
        arguments: Vec<Value<T>>,
        output: Value<T>,
    ) -> bool {
        self.shim().gives(index, arguments, output)
    }

    fn call(&self, index: MethodIndex, arguments: Vec<Value<T>>) -> (r: Result<
        Value<T>,
        CallError,
    >) {
        Shim::call(&self.inner, index, arguments)
    }

    fn call_mut(&mut self, index: MethodIndex, arguments: Vec<Value<T>>) -> (r: Result<
        Value<T>,
        CallError,
    >) {
        Shim::call_mut(&mut self.inner, index, arguments)
    }

    fn call_move(self, index: MethodIndex, arguments: Vec<Value<T>>) -> (r: Result<
        Value<T>,
        CallError,
    >) {
        Shim::call_move(self.inner, index, arguments)
    }

    fn by_name(&self, name: &str) -> (r: Result<MethodIndex, NameError>) {
        self.inner.describe().by_name(name)
    }

    fn count(&self) -> (count: MethodIndex) {
        self.inner.describe().count()
    }

    fn name_of(&self, index: MethodIndex) -> (r: Result<String, OutOfRangeError>) {
        self.inner.describe().name_of(index)
    }

    fn types(&self, index: MethodIndex) -> (r: Result<MethodTypes, OutOfRangeError>) {
        self.inner.describe().types(index)
    }

    fn receiver(&self, index: MethodIndex) -> (r: Result<Receiver, OutOfRangeError>) {
        self.inner.describe().receiver(index)
    }

    fn this(&self) -> (id: TypeId) {
        self.inner.describe().this()
    }

    fn name(&self) -> (name: String) {
        self.inner.describe().name()
    }

    fn supertraits(&self) -> (supertraits: Vec<TypeId>) {
        self.inner.describe().supertraits()
    }

    fn upcast(self, ty: TypeId) -> (r: Result<ErasedShim<T, F, G>, CastError>) {
        ErasedShim::upcast(self, ty)
    }

    fn erase(self) -> (erased: ErasedShim<T, F, G>) {
        ErasedShim::erase(self)
    }
}


/// A call through an erased instance returns what the same call on the
/// adapter itself returns, which is what the callable of the method returns;
/// and both answer for the same interface.
pub proof fn lemma_erased_answers_alike<
    T,
    F: Fn(Vec<Value<T>>) -> Value<T>,
    G: FnOnce(Vec<Value<T>>) -> Value<T>,
>(
    shim: Shim<T, F, G>,
    erased: ErasedShim<T, F, G>,
    index: MethodIndex,
    arguments: Vec<Value<T>>,
    output: Value<T>,
)
    requires
        erased.shim() == shim,
    ensures
        erased.reflects() == shim.reflects(),
        erased.produces(index, arguments, output) == shim.produces(index, arguments, output),
        shim.produces(index, arguments, output) == (index < shim.callables().len() && yields(
            shim.callables()[index as int],
            arguments,
            output,
        )),
{
}

} // verus!

//! The description of an interface as a table: its methods by position, with
//! their names and types, and the examination of a call against it.

use core::any::TypeId;
use crate::reflection::{
    same_type, ArgumentCountError, CallError, MethodIndex, MethodTypes, NameError, OutOfRangeError,
    Receiver,
};
use vstd::prelude::*;

verus! {

/// A value whose static type was erased, carried with the identity of that type.
#[derive(Debug)]
pub struct Value<T> {
    pub ty: TypeId,
    pub item: T,
}

/// A method of an interface: its name and its types.
#[derive(Debug)]
pub struct Method {
    pub name: String,
    pub types: MethodTypes,
}

/// What `MethodTypes` holds.
pub struct Types {
    pub arguments: Seq<TypeId>,
    pub output: TypeId,
    pub receiver: Receiver,
}

/// What a `Method` holds.
pub struct MethodView {
    pub name: Seq<char>,
    pub types: Types,
}

/// What an `Interface` holds.
pub struct InterfaceView {
    pub id: TypeId,
    pub name: Seq<char>,
    pub methods: Seq<MethodView>,
    pub supertraits: Seq<TypeId>,
}

impl View for MethodTypes {
    type V = Types;

    open spec fn view(&self) -> Types {
        Types { arguments: self.arguments@, output: self.output, receiver: self.receiver }
    }
}

impl View for Method {
    type V = MethodView;

    open spec fn view(&self) -> MethodView {
        MethodView { name: self.name@, types: self.types@ }
    }
}

/// The description of an interface: its identity and name, its methods in the
/// order of their indices, and the identities of the interfaces it extends.
/// It has at most 255 methods, so that an index tells each of them apart.
pub struct Interface {
    id: TypeId,
    name: String,
    methods: Vec<Method>,
    supertraits: Vec<TypeId>,
}

/// What `methods` hold, in order.
pub open spec fn described(methods: Seq<Method>) -> Seq<MethodView> {
    Seq::new(methods.len(), |i: int| methods[i]@)
}

/// The types that `arguments` have at run time, in order.
pub open spec fn types_of<T>(arguments: Seq<Value<T>>) -> Seq<TypeId> {
    Seq::new(arguments.len(), |i: int| arguments[i].ty)
}

/// The first position from `from` on at which `given` is not what `declared`
/// asks for, or the length of `declared` if there is none.
pub open spec fn mismatch(declared: Seq<TypeId>, given: Seq<TypeId>, from: int) -> int
    decreases declared.len() - from,
{
    if from < 0 || from >= declared.len() {
        declared.len() as int
    } else if declared[from] != given[from] {
        from
    } else {
        mismatch(declared, given, from + 1)
    }
}

impl InterfaceView {
    /// The first position of a method called `name`, if there is one.
    pub open spec fn position(self, name: Seq<char>) -> Option<int> {
        if exists|i: int| self.named(name, i) {
            Some(choose|i: int| self.named(name, i))
        } else {
            None
        }
    }

    /// `index` is the first position of a method called `name`.
    pub open spec fn named(self, name: Seq<char>, index: int) -> bool {
        &&& 0 <= index < self.methods.len()
        &&& self.methods[index].name == name
        &&& forall|j: int| 0 <= j < index ==> (#[trigger] self.methods[j]).name != name
    }

    /// No two methods share a name.
    pub open spec fn distinct_names(self) -> bool {
        forall|i: int, j: int|
            0 <= i < j < self.methods.len() ==> (#[trigger] self.methods[i]).name != (
            #[trigger] self.methods[j]).name
    }

    /// What becomes of a call of the method at `index` with arguments of the
    /// types `arguments`, made through the entry point for receivers of the
    /// kind `offered`: the call is made, or it is refused with the first of
    /// these that applies: no method stands at `index`; the method takes its
    /// instance in another way; it takes another number of arguments; an
    /// argument, and this names the first such, is not of the declared type.
    pub open spec fn verdict(
        self,
        offered: Receiver,
        index: MethodIndex,
        arguments: Seq<TypeId>,
    ) -> Result<(), CallError> {
        if index >= self.methods.len() {
            Err(CallError::OutOfRange(OutOfRangeError { index }))
        } else {
            let types = self.methods[index as int].types;
            if types.receiver != offered {
                Err(CallError::IncorrectReceiver(types.receiver))
            } else if arguments.len() != types.arguments.len() {
                Err(
                    CallError::ArgumentCount(
                        ArgumentCountError {
                            expected: types.arguments.len() as usize,
                            got: arguments.len() as usize,
                        },
                    ),
                )
            } else if mismatch(types.arguments, arguments, 0) < types.arguments.len() {
                Err(CallError::Type((mismatch(types.arguments, arguments, 0) % 256) as u8))
            } else {
                Ok(())
            }
        }
    }
}

/// What `mismatch` finds: a position from `from` on where the two differ and
/// before which, from `from` on, they agree; or that they agree from `from` on.
pub proof fn lemma_mismatch(declared: Seq<TypeId>, given: Seq<TypeId>, from: int)
    requires
        0 <= from <= declared.len(),
        declared.len() == given.len(),
    ensures
        from <= mismatch(declared, given, from) <= declared.len(),
        forall|j: int| from <= j < mismatch(declared, given, from) ==> declared[j] == given[j],
        mismatch(declared, given, from) < declared.len() ==> declared[mismatch(
            declared,
            given,
            from,
        )] != given[mismatch(declared, given, from)],
    decreases declared.len() - from,
{
    if from < declared.len() && declared[from] == given[from] {
        lemma_mismatch(declared, given, from + 1);
    }
}

impl View for Interface {
    type V = InterfaceView;

    closed spec fn view(&self) -> InterfaceView {
        InterfaceView {
            id: self.id,
            name: self.name@,
            methods: described(self.methods@),
            supertraits: self.supertraits@,
        }
    }
}

impl Interface {
    #[verifier::type_invariant]
    spec fn indexable(self) -> bool {
        self.methods@.len() <= 255
    }

    /// Describes the interface `id`, called `name`, with `methods` in the order
    /// of their indices, which extends `supertraits`. There is no such
    /// description for more than 255 methods.
    pub fn new(id: TypeId, name: String, methods: Vec<Method>, supertraits: Vec<TypeId>) -> (r:
        Option<Interface>)
        ensures
            r is Some <==> methods@.len() <= 255,
            r matches Some(interface) ==> {
                &&& interface@.id == id
                &&& interface@.name == name@
                &&& interface@.methods == described(methods@)
                &&& interface@.supertraits == supertraits@
            },
    {
        if methods.len() <= 255 {
            Some(Interface { id, name, methods, supertraits })
        } else {
            None
        }
    }

    /// How many methods the interface has.
    pub fn count(&self) -> (count: MethodIndex)
        ensures
            count == self@.methods.len(),
    {
        proof {
            use_type_invariant(self);
        }
        self.methods.len() as MethodIndex
    }

    /// The index of the method called `name`: of the first, should several
    /// share the name.
    pub fn by_name(&self, name: &str) -> (r: Result<MethodIndex, NameError>)
        ensures
            match self@.position(name@) {
                Some(index) => r == Ok::<MethodIndex, NameError>(index as MethodIndex),
                None => r matches Err(error) && error.name@ == name@,
            },
            r matches Ok(index) ==> self@.named(name@, index as int),
    {
        proof {
            use_type_invariant(self);
        }
        let wanted = name.to_owned();
        let mut i: usize = 0;
        while i < self.methods.len()
            invariant
                i <= self.methods@.len() <= 255,
                wanted@ == name@,
                forall|j: int| 0 <= j < i ==> (#[trigger] self@.methods[j]).name != name@,
            decreases self.methods.len() - i,
        {
            if self.methods[i].name == wanted {
                assert(self@.named(name@, i as int));
                proof {
                    let found = self@.position(name@)->0;
                    assert(self@.named(name@, found));
                    if found < i {
                        assert(self@.methods[found].name != name@);
                    }
                    if i < found {
                        assert(self@.methods[i as int].name != name@);
                    }
                }
                return Ok(i as MethodIndex);
            }
            i += 1;
        }
        assert forall|j: int| !self@.named(name@, j) by {
            if 0 <= j < self@.methods.len() {
                assert(self@.methods[j].name != name@);
            }
        }
        Err(NameError { name: wanted })
    }

    /// The name of the method at `index`.
    pub fn name_of(&self, index: MethodIndex) -> (r: Result<String, OutOfRangeError>)
        ensures
            index < self@.methods.len() ==> (r matches Ok(name) && name@
                == self@.methods[index as int].name),
            index >= self@.methods.len() ==> r == Err::<String, OutOfRangeError>(
                OutOfRangeError { index },
            ),
    {
        if (index as usize) < self.methods.len() {
            Ok(self.methods[index as usize].name.clone())
        } else {
            Err(OutOfRangeError { index })
        }
    }

    /// The types of the method at `index`.
    pub fn types(&self, index: MethodIndex) -> (r: Result<MethodTypes, OutOfRangeError>)
        ensures
            index < self@.methods.len() ==> (r matches Ok(types) && types@
                == self@.methods[index as int].types),
            index >= self@.methods.len() ==> r == Err::<MethodTypes, OutOfRangeError>(
                OutOfRangeError { index },
            ),
    {
        if (index as usize) < self.methods.len() {
            let declared = &self.methods[index as usize].types;
            let mut arguments: Vec<TypeId> = Vec::new();
            let mut i: usize = 0;
            while i < declared.arguments.len()
                invariant
                    i <= declared.arguments@.len(),
                    arguments@ == declared.arguments@.take(i as int),
                decreases declared.arguments.len() - i,
            {
                arguments.push(declared.arguments[i]);
                assert(arguments@ =~= declared.arguments@.take(i + 1));
                i += 1;
            }
            assert(declared.arguments@.take(i as int) =~= declared.arguments@);
            Ok(MethodTypes { arguments, output: declared.output, receiver: declared.receiver })
        } else {
            Err(OutOfRangeError { index })
        }
    }

    /// How the method at `index` takes its instance.
    pub fn receiver(&self, index: MethodIndex) -> (r: Result<Receiver, OutOfRangeError>)
        ensures
            r == if index < self@.methods.len() {
                Ok::<Receiver, OutOfRangeError>(self@.methods[index as int].types.receiver)
            } else {
                Err::<Receiver, OutOfRangeError>(OutOfRangeError { index })
            },
    {
        if (index as usize) < self.methods.len() {
            Ok(self.methods[index as usize].types.receiver)
        } else {
            Err(OutOfRangeError { index })
        }
    }

    /// The identity of the interface.
    pub fn this(&self) -> (id: TypeId)
        ensures
            id == self@.id,
    {
        self.id
    }

    /// The name of the interface.
    pub fn name(&self) -> (name: String)
        ensures
            name@ == self@.name,
    {
        self.name.clone()
    }

    /// The identities of the interfaces that this one extends, in the order
    /// in which it declares them.
    pub fn supertraits(&self) -> (supertraits: Vec<TypeId>)
        ensures
            supertraits@ == self@.supertraits,
    {
        let mut supertraits: Vec<TypeId> = Vec::new();
        let mut i: usize = 0;
        while i < self.supertraits.len()
            invariant
                i <= self.supertraits@.len(),
                supertraits@ == self.supertraits@.take(i as int),
            decreases self.supertraits.len() - i,
        {
            supertraits.push(self.supertraits[i]);
            assert(supertraits@ =~= self.supertraits@.take(i + 1));
            i += 1;
        }
        assert(self.supertraits@.take(i as int) =~= self.supertraits@);
        supertraits
    }

    /// Examines a call before it is made: whether the method at `index` may be
    /// called with `arguments` through the entry point for receivers of the
    /// kind `offered`. Nothing but the description is consulted.
    pub fn check<T>(&self, offered: Receiver, index: MethodIndex, arguments: &Vec<Value<T>>) -> (r:
        Result<(), CallError>)
        ensures
            r == self@.verdict(offered, index, types_of(arguments@)),
    {
        if (index as usize) >= self.methods.len() {
            return Err(CallError::OutOfRange(OutOfRangeError { index }));
        }
        let types = &self.methods[index as usize].types;
        if types.receiver != offered {
            return Err(CallError::IncorrectReceiver(types.receiver));
        }
        if arguments.len() != types.arguments.len() {
            return Err(
                CallError::ArgumentCount(
                    ArgumentCountError { expected: types.arguments.len(), got: arguments.len() },
                ),
            );
        }
        let ghost given = types_of(arguments@);
        let mut i: usize = 0;
        while i < arguments.len()
            invariant
                i <= arguments@.len(),
                (index as int) < self.methods@.len(),
                *types == self.methods@[index as int].types,
                types.receiver == offered,
                arguments@.len() == types.arguments@.len(),
                given == types_of(arguments@),
                mismatch(types.arguments@, given, 0) == mismatch(types.arguments@, given, i as int),
            decreases arguments.len() - i,
        {
            assert(given[i as int] == arguments@[i as int].ty);
            if !same_type(&arguments[i].ty, &types.arguments[i]) {
                return Err(CallError::Type((i % 256) as u8));
            }
            i += 1;
        }
        Ok(())
    }
}


proof fn lemma_first_named(interface: InterfaceView, name: Seq<char>, index: int)
    requires
        0 <= index < interface.methods.len(),
        interface.methods[index].name == name,
    ensures
        exists|first: int| 0 <= first <= index && #[trigger] interface.named(name, first),
    decreases index,
{
    if exists|j: int| 0 <= j < index && (#[trigger] interface.methods[j]).name == name {
        let j = choose|j: int| 0 <= j < index && (#[trigger] interface.methods[j]).name == name;
        lemma_first_named(interface, name, j);
    } else {
        assert(interface.named(name, index));
    }
}

/// Looking a name up and then asking for the name at the index that was found
/// gives the name back: the index found for `name` holds a method called
/// `name`, and none before it does.
pub proof fn lemma_by_name_then_name_of(interface: InterfaceView, name: Seq<char>)
    ensures
        match interface.position(name) {
            Some(index) => {
                &&& 0 <= index < interface.methods.len()
                &&& interface.methods[index].name == name
                &&& interface.named(name, index)
            },
            None => forall|j: int|
                0 <= j < interface.methods.len() ==> (#[trigger] interface.methods[j]).name
                    != name,
        },
{
    if interface.position(name) is None {
        assert forall|j: int| 0 <= j < interface.methods.len() implies (
        #[trigger] interface.methods[j]).name != name by {
            if interface.methods[j].name == name {
                lemma_first_named(interface, name, j);
            }
        }
    }
}

/// Asking for the name at an index and then looking that name up finds a
/// method of that name at or before the index, and finds the index itself
/// where no two methods share a name.
pub proof fn lemma_name_of_then_by_name(interface: InterfaceView, index: int)
    requires
        0 <= index < interface.methods.len(),
    ensures
        interface.position(interface.methods[index].name) matches Some(found) && found <= index
            && interface.methods[found].name == interface.methods[index].name,
        interface.distinct_names() ==> interface.position(interface.methods[index].name) == Some(
            index,
        ),
{
    let name = interface.methods[index].name;
    lemma_first_named(interface, name, index);
    let found = interface.position(name)->0;
    assert(interface.named(name, found));
    if found > index {
        assert(interface.methods[index].name != name);
    }
}

/// A call through an entry point that does not offer what the method takes
/// is refused with `IncorrectReceiver`, whatever its arguments.
pub proof fn lemma_wrong_entry_is_refused(
    interface: InterfaceView,
    offered: Receiver,
    index: MethodIndex,
    arguments: Seq<TypeId>,
)
    requires
        index < interface.methods.len(),
        interface.methods[index as int].types.receiver != offered,
    ensures
        interface.verdict(offered, index, arguments) == Err::<(), CallError>(
            CallError::IncorrectReceiver(interface.methods[index as int].types.receiver),
        ),
{
}

/// A call with another number of arguments than the method takes is refused
/// with `ArgumentCount`, which tells both numbers.
pub proof fn lemma_wrong_count_is_refused(
    interface: InterfaceView,
    index: MethodIndex,
    arguments: Seq<TypeId>,
)
    requires
        index < interface.methods.len(),
        arguments.len() != interface.methods[index as int].types.arguments.len(),
    ensures
        interface.verdict(interface.methods[index as int].types.receiver, index, arguments) == Err::<
            (),
            CallError,
        >(
            CallError::ArgumentCount(
                ArgumentCountError {
                    expected: interface.methods[index as int].types.arguments.len() as usize,
                    got: arguments.len() as usize,
                },
            ),
        ),
{
}

/// A call with as many arguments as the method takes, of which the one at
/// `position` is the first that is not of the declared type, is refused with
/// `Type`, which tells that position.
pub proof fn lemma_wrong_type_is_refused(
    interface: InterfaceView,
    index: MethodIndex,
    arguments: Seq<TypeId>,
    position: int,
)
    requires
        index < interface.methods.len(),
        arguments.len() == interface.methods[index as int].types.arguments.len(),
        0 <= position < arguments.len(),
        arguments[position] != interface.methods[index as int].types.arguments[position],
        forall|j: int|
            0 <= j < position ==> arguments[j]
                == interface.methods[index as int].types.arguments[j],
    ensures
        interface.verdict(interface.methods[index as int].types.receiver, index, arguments) == Err::<
            (),
            CallError,
        >(CallError::Type((position % 256) as u8)),
{
    let declared = interface.methods[index as int].types.arguments;
    lemma_mismatch(declared, arguments, 0);
    let found = mismatch(declared, arguments, 0);
    if found < position {
        assert(arguments[found] == declared[found]);
    }
}

/// A call is made exactly when the method exists, is reached through the
/// entry point for its receiver, and is given arguments of the declared types.
pub proof fn lemma_call_is_made(
    interface: InterfaceView,
    offered: Receiver,
    index: MethodIndex,
    arguments: Seq<TypeId>,
)
    ensures
        interface.verdict(offered, index, arguments) is Ok <==> {
            &&& index < interface.methods.len()
            &&& interface.methods[index as int].types.receiver == offered
            &&& arguments == interface.methods[index as int].types.arguments
        },
{
    if index < interface.methods.len() {
        let declared = interface.methods[index as int].types.arguments;
        if arguments.len() == declared.len() {
            lemma_mismatch(declared, arguments, 0);
            if mismatch(declared, arguments, 0) >= declared.len() {
                assert(arguments =~= declared);
            }
        }
    }
}

} // verus!

//! From the declaration of an interface to the plan of what is generated for
//! it: which methods it has and how each is reached, which generic parameters
//! the generated types take, and which supertraits they embed.

use crate::reflection::{MethodIndex, Receiver};
use crate::text::{decimal, to_decimal};
use vstd::prelude::*;
use vstd::string::*;

verus! {

/// A generic parameter of the interface.
#[derive(Debug, PartialEq, Eq)]
pub enum GenericParam {
    /// A type parameter with the bounds written on it.
    Type { ident: String, bounds: Vec<String> },
    Lifetime { ident: String },
    Const { ident: String },
}

/// An input of a method.
#[derive(Debug, PartialEq, Eq)]
pub enum FnArg {
    /// A `self` that is written without a type, as in `&self` and `&mut self`;
    /// `mutable` where `mut` is written.
    Receiver { mutable: bool },
    /// `self: Box<Self>`.
    Boxed,
    /// An argument: its pattern and its type.
    Typed { pat: String, ty: String },
}

/// What a method returns: nothing that is written, or a type.
#[derive(Debug, PartialEq, Eq)]
pub enum ReturnType {
    Default,
    Type(String),
}

/// The signature of a method.
#[derive(Debug, PartialEq, Eq)]
pub struct Signature {
    pub ident: String,
    pub inputs: Vec<FnArg>,
    pub output: ReturnType,
}

/// An item in the body of the interface.
#[derive(Debug, PartialEq, Eq)]
pub enum TraitItem {
    Method(Signature),
    /// An associated type or constant, or anything else that is no method.
    Other,
}

/// A bound after the colon of the interface.
#[derive(Debug, PartialEq, Eq)]
pub enum TypeParamBound {
    /// A supertrait, by its path.
    Trait(String),
    Lifetime(String),
}

/// The declaration of an interface.
#[derive(Debug, PartialEq, Eq)]
pub struct ItemTrait {
    pub ident: String,
    pub generics: Vec<GenericParam>,
    pub supertraits: Vec<TypeParamBound>,
    pub items: Vec<TraitItem>,
}

/// The receiver that a method declares.
#[derive(Debug, Clone, Copy, PartialEq, Eq, Structural)]
pub enum Recv {
    Reference { mutable: bool },
    Move,
}

/// The entry point of the reflective contract through which a method is called.
#[derive(Debug, Clone, Copy, PartialEq, Eq, Structural)]
pub enum Entry {
    Call,
    CallMut,
    CallMove,
}

/// How a method's closure reaches the shared instance.
#[derive(Debug, Clone, Copy, PartialEq, Eq, Structural)]
pub enum Access {
    /// Under the shared lock.
    Shared,
    /// Under the exclusive lock.
    Exclusive,
    /// By taking the instance out, which needs its only holder.
    Extract,
}

impl Recv {
    /// Whether a borrowed receiver is exclusive; `None` for one that moves.
    pub fn is_mutable(&self) -> (mutable: Option<bool>)
        ensures
            mutable == match *self {
                Recv::Reference { mutable } => Some(mutable),
                Recv::Move => None::<bool>,
            },
    {
        match self {
            Recv::Reference { mutable } => Some(*mutable),
            Recv::Move => None,
        }
    }

    /// The receiver kind that the reflective description reports.
    pub open spec fn spec_receiver(&self) -> Receiver {
        match *self {
            Recv::Reference { mutable: true } => Receiver::Mutable,
            Recv::Reference { mutable: false } => Receiver::Immutable,
            Recv::Move => Receiver::Owned,
        }
    }

    /// The receiver kind that the reflective description reports.
    #[verifier::when_used_as_spec(spec_receiver)]
    pub fn receiver(&self) -> (kind: Receiver)
        ensures
            kind == self.spec_receiver(),
    {
        match self.is_mutable() {
            Some(true) => Receiver::Mutable,
            Some(false) => Receiver::Immutable,
            None => Receiver::Owned,
        }
    }
}

impl Receiver {
    /// The one entry point that makes the call.
    pub open spec fn spec_entry(&self) -> Entry {
        match *self {
            Receiver::Immutable => Entry::Call,
            Receiver::Mutable => Entry::CallMut,
            Receiver::Owned => Entry::CallMove,
        }
    }

    /// The one entry point that makes the call; the other two answer with
    /// `IncorrectReceiver`.
    #[verifier::when_used_as_spec(spec_entry)]
    pub fn entry(&self) -> (entry: Entry)
        ensures
            entry == self.spec_entry(),
    {
        match self {
            Receiver::Immutable => Entry::Call,
            Receiver::Mutable => Entry::CallMut,
            Receiver::Owned => Entry::CallMove,
        }
    }

    /// The access that the method's closure takes on the shared instance.
    pub open spec fn spec_access(&self) -> Access {
        match *self {
            Receiver::Immutable => Access::Shared,
            Receiver::Mutable => Access::Exclusive,
            Receiver::Owned => Access::Extract,
        }
    }

    /// The access that the method's closure takes on the shared instance.
    #[verifier::when_used_as_spec(spec_access)]
    pub fn access(&self) -> (access: Access)
        ensures
            access == self.spec_access(),
    {
        match self {
            Receiver::Immutable => Access::Shared,
            Receiver::Mutable => Access::Exclusive,
            Receiver::Owned => Access::Extract,
        }
    }
}

impl Access {
    /// Whether an instance with `holders` holders may be reached in this way.
    /// Taking it out needs exactly one holder; the locks need none in particular.
    pub fn admits(&self, holders: usize) -> (admitted: bool)
        ensures
            admitted == (*self == Access::Extract ==> holders == 1),
    {
        match self {
            Access::Extract => holders == 1,
            _ => true,
        }
    }
}

/// The plan of one method.
#[derive(Debug, PartialEq, Eq)]
pub struct MethodPlan {
    pub index: MethodIndex,
    pub ident: String,
    /// The types of the arguments, in order.
    pub arguments: Vec<String>,
    /// The patterns of the arguments, in order.
    pub inputs: Vec<String>,
    pub output: ReturnType,
    pub receiver: Recv,
}

/// The plan of one embedded supertrait.
#[derive(Debug, PartialEq, Eq)]
pub struct SupertraitPlan {
    /// Its position among the bounds of the interface.
    pub position: usize,
    /// The name of the field that holds its adapter.
    pub field: String,
    pub path: String,
}

/// The plan of what is generated for an interface.
#[derive(Debug, PartialEq, Eq)]
pub struct Blueprint {
    /// The name of the constant that encloses the generated items.
    pub hygiene: String,
    pub name: String,
    /// The type parameters, by name.
    pub params: Vec<String>,
    /// The generic parameters with the bounds that generated types put on them.
    pub generics: Vec<GenericParam>,
    pub methods: Vec<MethodPlan>,
    pub supertraits: Vec<SupertraitPlan>,
}

/// Why nothing is generated for a declaration. Each names the position of
/// what it objects to: a generic parameter, or an item of the body.
#[derive(Debug, Clone, Copy, PartialEq, Eq, Structural)]
pub enum BuildError {
    Lifetime { position: usize },
    MethodCount { position: usize },
    Receiver { position: usize },
}

/// The receiver among `inputs`: the last input that is one.
pub open spec fn receiver_of(inputs: Seq<FnArg>) -> Option<Recv>
    decreases inputs.len(),
{
    if inputs.len() == 0 {
        None
    } else {
        match inputs.last() {
            FnArg::Receiver { mutable } => Some(Recv::Reference { mutable }),
            FnArg::Boxed => Some(Recv::Move),
            FnArg::Typed { .. } => receiver_of(inputs.drop_last()),
        }
    }
}

/// The types of the arguments among `inputs`, in order.
pub open spec fn argument_types(inputs: Seq<FnArg>) -> Seq<String>
    decreases inputs.len(),
{
    if inputs.len() == 0 {
        Seq::empty()
    } else {
        match inputs.last() {
            FnArg::Typed { pat, ty } => argument_types(inputs.drop_last()).push(ty),
            _ => argument_types(inputs.drop_last()),
        }
    }
}

/// The patterns of the arguments among `inputs`, in order.
pub open spec fn argument_patterns(inputs: Seq<FnArg>) -> Seq<String>
    decreases inputs.len(),
{
    if inputs.len() == 0 {
        Seq::empty()
    } else {
        match inputs.last() {
            FnArg::Typed { pat, ty } => argument_patterns(inputs.drop_last()).push(pat),
            _ => argument_patterns(inputs.drop_last()),
        }
    }
}

/// The methods among `items`, in order.
pub open spec fn signatures(items: Seq<TraitItem>) -> Seq<Signature>
    decreases items.len(),
{
    if items.len() == 0 {
        Seq::empty()
    } else {
        match items.last() {
            TraitItem::Method(signature) => signatures(items.drop_last()).push(signature),
            TraitItem::Other => signatures(items.drop_last()),
        }
    }
}

/// The names of the type parameters among `generics`, in order.
pub open spec fn type_idents(generics: Seq<GenericParam>) -> Seq<String>
    decreases generics.len(),
{
    if generics.len() == 0 {
        Seq::empty()
    } else {
        match generics.last() {
            GenericParam::Type { ident, bounds } => type_idents(generics.drop_last()).push(ident),
            _ => type_idents(generics.drop_last()),
        }
    }
}

/// The positions of the supertraits among `bounds`, in order.
pub open spec fn trait_positions(bounds: Seq<TypeParamBound>) -> Seq<int>
    decreases bounds.len(),
{
    if bounds.len() == 0 {
        Seq::empty()
    } else {
        match bounds.last() {
            TypeParamBound::Trait(_) => trait_positions(bounds.drop_last()).push(bounds.len() - 1),
            TypeParamBound::Lifetime(_) => trait_positions(bounds.drop_last()),
        }
    }
}

/// `position` holds the first lifetime parameter of `generics`.
pub open spec fn first_lifetime(generics: Seq<GenericParam>, position: int) -> bool {
    &&& 0 <= position < generics.len()
    &&& generics[position] is Lifetime
    &&& forall|j: int| 0 <= j < position ==> !(#[trigger] generics[j] is Lifetime)
}

/// Whether a lifetime parameter stands among `generics`.
pub open spec fn has_lifetime(generics: Seq<GenericParam>) -> bool {
    exists|j: int| 0 <= j < generics.len() && #[trigger] generics[j] is Lifetime
}

/// The item at `position` is a method past the 255 that an index can tell
/// apart.
pub open spec fn overflows(items: Seq<TraitItem>, position: int) -> bool {
    &&& 0 <= position < items.len()
    &&& items[position] is Method
    &&& signatures(items.take(position)).len() == 255
}

/// The item at `position` is a method without a receiver.
pub open spec fn lacks_receiver(items: Seq<TraitItem>, position: int) -> bool {
    &&& 0 <= position < items.len()
    &&& items[position] matches TraitItem::Method(signature)
    &&& receiver_of(signature.inputs@) is None
}

/// The item at `position` is a method for which nothing can be generated.
pub open spec fn rejects(items: Seq<TraitItem>, position: int) -> bool {
    overflows(items, position) || lacks_receiver(items, position)
}

/// Whether some method among `items` is one for which nothing can be generated.
pub open spec fn has_rejected(items: Seq<TraitItem>) -> bool {
    exists|j: int| #[trigger] rejects(items, j)
}

/// `position` holds the first such method.
pub open spec fn first_rejected(items: Seq<TraitItem>, position: int) -> bool {
    &&& rejects(items, position)
    &&& forall|j: int| 0 <= j < position ==> !#[trigger] rejects(items, j)
}

/// The bounds that generated types need on every type parameter follow those
/// that were written.
pub open spec fn bounds_extended(written: Seq<String>, extended: Seq<String>) -> bool {
    &&& extended.len() == written.len() + 2
    &&& extended.subrange(0, written.len() as int) == written
    &&& extended[written.len() as int]@ == "'static"@
    &&& extended[written.len() as int + 1]@ == "Send"@
}

impl GenericParam {
    /// `bounded` is this parameter as generated types declare it.
    pub open spec fn bounded_as(self, bounded: GenericParam) -> bool {
        match self {
            GenericParam::Type { ident, bounds } => {
                &&& bounded matches GenericParam::Type { ident: kept, bounds: extended }
                &&& kept == ident
                &&& bounds_extended(bounds@, extended@)
            },
            _ => bounded == self,
        }
    }
}

impl MethodPlan {
    /// This is the plan of the method `signature`, which stands at `index`
    /// among the methods of its interface.
    pub open spec fn plans(self, signature: Signature, index: int) -> bool {
        &&& self.index == index
        &&& self.ident == signature.ident
        &&& self.arguments@ == argument_types(signature.inputs@)
        &&& self.inputs@ == argument_patterns(signature.inputs@)
        &&& self.output == signature.output
        &&& Some(self.receiver) == receiver_of(signature.inputs@)
    }
}

impl SupertraitPlan {
    /// The name of the field for the supertrait at `position`.
    pub open spec fn field_name(position: nat) -> Seq<char> {
        "_SUPERTRAIT_"@ + decimal(position) + "_"@
    }

    /// This is the plan of the supertrait at `position` among `bounds`.
    pub open spec fn plans(self, bounds: Seq<TypeParamBound>, position: int) -> bool {
        &&& self.position == position
        &&& 0 <= position < bounds.len()
        &&& bounds[position] == TypeParamBound::Trait(self.path)
        &&& self.field@ == Self::field_name(self.position as nat)
    }
}

impl Blueprint {
    /// The name of the constant that encloses what is generated for the
    /// interface `ident`.
    pub open spec fn hygiene_name(ident: Seq<char>) -> Seq<char> {
        "_IMPLEMENT_PROTOCOL_FOR_"@ + ident
    }

    /// This is the plan of the interface `item`.
    pub open spec fn plans(self, item: ItemTrait) -> bool {
        &&& self.hygiene@ == Self::hygiene_name(item.ident@)
        &&& self.name == item.ident
        &&& self.params@ == type_idents(item.generics@)
        &&& self.generics@.len() == item.generics@.len()
        &&& forall|i: int|
            0 <= i < item.generics@.len() ==> (#[trigger] item.generics@[i]).bounded_as(
                self.generics@[i],
            )
        &&& self.methods@.len() == signatures(item.items@).len()
        &&& forall|k: int|
            0 <= k < self.methods@.len() ==> (#[trigger] self.methods@[k]).plans(
                signatures(item.items@)[k],
                k,
            )
        &&& self.supertraits@.len() == trait_positions(item.supertraits@).len()
        &&& forall|k: int|
            0 <= k < self.supertraits@.len() ==> (#[trigger] self.supertraits@[k]).plans(
                item.supertraits@,
                trait_positions(item.supertraits@)[k],
            )
    }
}

impl BuildError {
    /// The error in words.
    pub open spec fn text(self) -> Seq<char> {
        match self {
            BuildError::Lifetime { .. } => "lifetime parameters are not supported"@,
            BuildError::MethodCount { .. } => "traits with more than 255 methods are not supported"@,
            BuildError::Receiver { .. } =>
                "object-safe trait methods must have a borrowed or `Box<Self>` receiver"@,
        }
    }

    /// The error in words.
    pub fn message(&self) -> (message: String)
        ensures
            message@ == self.text(),
    {
        match self {
            BuildError::Lifetime { .. } => String::from_str("lifetime parameters are not supported"),
            BuildError::MethodCount { .. } => String::from_str(
                "traits with more than 255 methods are not supported",
            ),
            BuildError::Receiver { .. } => String::from_str(
                "object-safe trait methods must have a borrowed or `Box<Self>` receiver",
            ),
        }
    }
}


/// The supertrait that every interface is given: its instances cross threads.
pub open spec fn marked_send(written: Seq<TypeParamBound>, marked: Seq<TypeParamBound>) -> bool {
    &&& marked.len() == written.len() + 1
    &&& marked.subrange(0, written.len() as int) == written
    &&& marked.last() matches TypeParamBound::Trait(path)
    &&& path@ == "::std::marker::Send"@
}

fn clone_strings(strings: &Vec<String>) -> (copy: Vec<String>)
    ensures
        copy@ == strings@,
{
    let mut copy: Vec<String> = Vec::new();
    let mut i: usize = 0;
    while i < strings.len()
        invariant
            i <= strings.len(),
            copy@ == strings@.take(i as int),
        decreases strings.len() - i,
    {
        copy.push(strings[i].clone());
        assert(copy@ =~= strings@.take(i + 1));
        i += 1;
    }
    assert(strings@.take(i as int) =~= strings@);
    copy
}

fn bound_param(param: &GenericParam) -> (bounded: GenericParam)
    ensures
        param.bounded_as(bounded),
{
    match param {
        GenericParam::Type { ident, bounds } => {
            let mut extended = clone_strings(bounds);
            extended.push(String::from_str("'static"));
            extended.push(String::from_str("Send"));
            assert(extended@.subrange(0, bounds@.len() as int) =~= bounds@);
            GenericParam::Type { ident: ident.clone(), bounds: extended }
        },
        GenericParam::Lifetime { ident } => GenericParam::Lifetime { ident: ident.clone() },
        GenericParam::Const { ident } => GenericParam::Const { ident: ident.clone() },
    }
}

fn bound_generics(generics: &Vec<GenericParam>) -> (r: Result<
    (Vec<GenericParam>, Vec<String>),
    usize,
>)
    ensures
        match r {
            Ok((bounded, params)) => {
                &&& !has_lifetime(generics@)
                &&& params@ == type_idents(generics@)
                &&& bounded@.len() == generics@.len()
                &&& forall|i: int|
                    0 <= i < generics@.len() ==> (#[trigger] generics@[i]).bounded_as(bounded@[i])
            },
            Err(position) => first_lifetime(generics@, position as int),
        },
{
    let mut bounded: Vec<GenericParam> = Vec::new();
    let mut params: Vec<String> = Vec::new();
    let mut i: usize = 0;
    while i < generics.len()
        invariant
            i <= generics.len(),
            forall|j: int| 0 <= j < i ==> !(#[trigger] generics@[j] is Lifetime),
            params@ == type_idents(generics@.take(i as int)),
            bounded@.len() == i,
            forall|j: int| 0 <= j < i ==> (#[trigger] generics@[j]).bounded_as(bounded@[j]),
        decreases generics.len() - i,
    {
        assert(generics@.take(i + 1).drop_last() =~= generics@.take(i as int));
        assert(generics@.take(i + 1).last() == generics@[i as int]);
        match &generics[i] {
            GenericParam::Lifetime { .. } => {
                return Err(i);
            },
            GenericParam::Type { ident, .. } => {
                params.push(ident.clone());
            },
            GenericParam::Const { .. } => {},
        }
        bounded.push(bound_param(&generics[i]));
        i += 1;
    }
    assert(generics@.take(i as int) =~= generics@);
    Ok((bounded, params))
}

fn clone_output(output: &ReturnType) -> (copy: ReturnType)
    ensures
        copy == *output,
{
    match output {
        ReturnType::Default => ReturnType::Default,
        ReturnType::Type(ty) => ReturnType::Type(ty.clone()),
    }
}

fn plan_method(signature: &Signature, index: MethodIndex) -> (r: Option<MethodPlan>)
    ensures
        match r {
            Some(method) => method.plans(*signature, index as int),
            None => receiver_of(signature.inputs@) is None,
        },
{
    let mut receiver: Option<Recv> = None;
    let mut arguments: Vec<String> = Vec::new();
    let mut inputs: Vec<String> = Vec::new();
    let mut i: usize = 0;
    while i < signature.inputs.len()
        invariant
            i <= signature.inputs.len(),
            receiver == receiver_of(signature.inputs@.take(i as int)),
            arguments@ == argument_types(signature.inputs@.take(i as int)),
            inputs@ == argument_patterns(signature.inputs@.take(i as int)),
        decreases signature.inputs.len() - i,
    {
        assert(signature.inputs@.take(i + 1).drop_last() =~= signature.inputs@.take(i as int));
        assert(signature.inputs@.take(i + 1).last() == signature.inputs@[i as int]);
        match &signature.inputs[i] {
            FnArg::Receiver { mutable } => {
                receiver = Some(Recv::Reference { mutable: *mutable });
            },
            FnArg::Boxed => {
                receiver = Some(Recv::Move);
            },
            FnArg::Typed { pat, ty } => {
                arguments.push(ty.clone());
                inputs.push(pat.clone());
            },
        }
        i += 1;
    }
    assert(signature.inputs@.take(i as int) =~= signature.inputs@);
    match receiver {
        None => None,
        Some(receiver) => Some(
            MethodPlan {
                index,
                ident: signature.ident.clone(),
                arguments,
                inputs,
                output: clone_output(&signature.output),
                receiver,
            },
        ),
    }
}

fn plan_methods(items: &Vec<TraitItem>) -> (r: Result<Vec<MethodPlan>, BuildError>)
    ensures
        match r {
            Ok(methods) => {
                &&& !has_rejected(items@)
                &&& methods@.len() <= 255
                &&& methods@.len() == signatures(items@).len()
                &&& forall|k: int|
                    0 <= k < methods@.len() ==> (#[trigger] methods@[k]).plans(
                        signatures(items@)[k],
                        k,
                    )
            },
            Err(BuildError::MethodCount { position }) => {
                &&& first_rejected(items@, position as int)
                &&& overflows(items@, position as int)
            },
            Err(BuildError::Receiver { position }) => {
                &&& first_rejected(items@, position as int)
                &&& !overflows(items@, position as int)
            },
            Err(BuildError::Lifetime { .. }) => false,
        },
{
    let mut methods: Vec<MethodPlan> = Vec::new();
    let mut i: usize = 0;
    while i < items.len()
        invariant
            i <= items.len(),
            forall|j: int| 0 <= j < i ==> !#[trigger] rejects(items@, j),
            methods@.len() == signatures(items@.take(i as int)).len(),
            methods@.len() <= 255,
            forall|k: int|
                0 <= k < methods@.len() ==> (#[trigger] methods@[k]).plans(
                    signatures(items@.take(i as int))[k],
                    k,
                ),
        decreases items.len() - i,
    {
        assert(items@.take(i + 1).drop_last() =~= items@.take(i as int));
        assert(items@.take(i + 1).last() == items@[i as int]);
        match &items[i] {
            TraitItem::Method(signature) => {
                if methods.len() == 255 {
                    return Err(BuildError::MethodCount { position: i });
                }
                match plan_method(signature, methods.len() as MethodIndex) {
                    None => {
                        return Err(BuildError::Receiver { position: i });
                    },
                    Some(method) => {
                        methods.push(method);
                    },
                }
            },
            TraitItem::Other => {},
        }
        i += 1;
    }
    assert(items@.take(i as int) =~= items@);
    Ok(methods)
}

fn plan_supertraits(bounds: &Vec<TypeParamBound>) -> (supertraits: Vec<SupertraitPlan>)
    ensures
        supertraits@.len() == trait_positions(bounds@).len(),
        forall|k: int|
            0 <= k < supertraits@.len() ==> (#[trigger] supertraits@[k]).plans(
                bounds@,
                trait_positions(bounds@)[k],
            ),
{
    let mut supertraits: Vec<SupertraitPlan> = Vec::new();
    let mut i: usize = 0;
    while i < bounds.len()
        invariant
            i <= bounds.len(),
            supertraits@.len() == trait_positions(bounds@.take(i as int)).len(),
            forall|k: int|
                0 <= k < supertraits@.len() ==> (#[trigger] supertraits@[k]).plans(
                    bounds@,
                    trait_positions(bounds@.take(i as int))[k],
                ),
        decreases bounds.len() - i,
    {
        assert(bounds@.take(i + 1).drop_last() =~= bounds@.take(i as int));
        assert(bounds@.take(i + 1).last() == bounds@[i as int]);
        match &bounds[i] {
            TypeParamBound::Trait(path) => {
                let mut field = String::from_str("_SUPERTRAIT_");
                let position = to_decimal(i);
                field.append(position.as_str());
                field.append("_");
                supertraits.push(SupertraitPlan { position: i, field, path: path.clone() });
            },
            TypeParamBound::Lifetime(_) => {},
        }
        i += 1;
    }
    assert(bounds@.take(i as int) =~= bounds@);
    supertraits
}

/// Plans what is generated for the interface `item`, and marks the interface
/// as one whose instances cross threads.
///
/// Nothing is generated for an interface with a lifetime parameter, nor for
/// one with a method past the 255th or with a method that has no receiver.
/// The generic parameters are examined first, then the methods in order; the
/// error names the first of them that is objected to, and the declaration is
/// then left as it was.
pub fn build(item: &mut ItemTrait) -> (r: Result<Blueprint, BuildError>)
    ensures
        final(item).ident == old(item).ident,
        final(item).generics == old(item).generics,
        final(item).items == old(item).items,
        match r {
            Ok(blueprint) => {
                &&& !has_lifetime(old(item).generics@)
                &&& !has_rejected(old(item).items@)
                &&& blueprint.methods@.len() <= 255
                &&& blueprint.plans(*old(item))
                &&& marked_send(old(item).supertraits@, final(item).supertraits@)
            },
            Err(BuildError::Lifetime { position }) => {
                &&& first_lifetime(old(item).generics@, position as int)
                &&& final(item).supertraits == old(item).supertraits
            },
            Err(BuildError::MethodCount { position }) => {
                &&& !has_lifetime(old(item).generics@)
                &&& first_rejected(old(item).items@, position as int)
                &&& overflows(old(item).items@, position as int)
                &&& final(item).supertraits == old(item).supertraits
            },
            Err(BuildError::Receiver { position }) => {
                &&& !has_lifetime(old(item).generics@)
                &&& first_rejected(old(item).items@, position as int)
                &&& !overflows(old(item).items@, position as int)
                &&& final(item).supertraits == old(item).supertraits
            },
        },
{
    let mut hygiene = String::from_str("_IMPLEMENT_PROTOCOL_FOR_");
    hygiene.append(item.ident.as_str());
    let (generics, params) = match bound_generics(&item.generics) {
        Ok(bounded) => bounded,
        Err(position) => {
            return Err(BuildError::Lifetime { position });
        },
    };
    let methods = match plan_methods(&item.items) {
        Ok(methods) => methods,
        Err(error) => {
            return Err(error);
        },
    };
    let supertraits = plan_supertraits(&item.supertraits);
    let name = item.ident.clone();
    item.supertraits.push(TypeParamBound::Trait(String::from_str("::std::marker::Send")));
    assert(final(item).supertraits@.subrange(0, old(item).supertraits@.len() as int)
        =~= old(item).supertraits@);
    Ok(Blueprint { hygiene, name, params, generics, methods, supertraits })
}


impl Blueprint {
    /// The fields of the generated adapter, by name: one for each method,
    /// named as the method is, then one for each supertrait.
    pub fn fields(&self) -> (fields: Vec<String>)
        ensures
            fields@.len() == self.methods@.len() + self.supertraits@.len(),
            forall|k: int|
                0 <= k < self.methods@.len() ==> #[trigger] fields@[k] == self.methods@[k].ident,
            forall|k: int|
                0 <= k < self.supertraits@.len() ==> #[trigger] fields@[self.methods@.len() + k]
                    == self.supertraits@[k].field,
    {
        let mut fields: Vec<String> = Vec::new();
        let mut i: usize = 0;
        while i < self.methods.len()
            invariant
                i <= self.methods@.len(),
                fields@.len() == i,
                forall|k: int| 0 <= k < i ==> #[trigger] fields@[k] == self.methods@[k].ident,
            decreases self.methods.len() - i,
        {
            fields.push(self.methods[i].ident.clone());
            i += 1;
        }
        let mut j: usize = 0;
        while j < self.supertraits.len()
            invariant
                j <= self.supertraits@.len(),
                fields@.len() == self.methods@.len() + j,
                forall|k: int|
                    0 <= k < self.methods@.len() ==> #[trigger] fields@[k]
                        == self.methods@[k].ident,
                forall|k: int|
                    0 <= k < j ==> #[trigger] fields@[self.methods@.len() + k]
                        == self.supertraits@[k].field,
            decreases self.supertraits.len() - j,
        {
            fields.push(self.supertraits[j].field.clone());
            j += 1;
        }
        fields
    }
}

} // verus!

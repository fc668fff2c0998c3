use std::any::{Any, TypeId};
use std::sync::atomic::{AtomicUsize, Ordering};
use std::sync::{Arc, Mutex};
use vessels::interface::{Interface, Method, Value};
use vessels::reflection::{
    ArgumentCountError, CallError, CastError, MethodTypes, OutOfRangeError, Receiver, Trait,
};
use vessels::shim::{Callable, ErasedShim, Shim};

type Item = Box<dyn Any + Send>;
type Borrowed = Box<dyn Fn(Vec<Value<Item>>) -> Value<Item>>;
type Owned = Box<dyn FnOnce(Vec<Value<Item>>) -> Value<Item>>;
type Adapter = Shim<Item, Borrowed, Owned>;

struct Named;
struct Greeter;
struct Account;
struct Stranger;

fn value<T: Any + Send>(item: T) -> Value<Item> {
    Value { ty: TypeId::of::<T>(), item: Box::new(item) }
}

fn open<T: Any>(value: Value<Item>) -> T {
    *value.item.downcast::<T>().unwrap()
}

fn method(name: &str, arguments: Vec<TypeId>, output: TypeId, receiver: Receiver) -> Method {
    Method { name: name.to_string(), types: MethodTypes { arguments, output, receiver } }
}

fn named(name: &'static str) -> Adapter {
    let interface = Interface::new(
        TypeId::of::<Named>(),
        "Named".to_string(),
        vec![method("name", vec![], TypeId::of::<String>(), Receiver::Immutable)],
        vec![],
    )
    .unwrap();
    let name: Borrowed = Box::new(move |_| value(name.to_string()));
    Shim::from_instance(interface, vec![Callable::Borrowed(name)], vec![]).unwrap()
}

fn greeter() -> Adapter {
    let interface = Interface::new(
        TypeId::of::<Greeter>(),
        "Greeter".to_string(),
        vec![method("greet", vec![TypeId::of::<String>()], TypeId::of::<String>(), Receiver::Immutable)],
        vec![TypeId::of::<Named>()],
    )
    .unwrap();
    let greet: Borrowed = Box::new(|mut arguments| {
        let name: String = open(arguments.pop().unwrap());
        value(format!("Hello, {}", name))
    });
    Shim::from_instance(interface, vec![Callable::Borrowed(greet)], vec![named("greeter")]).unwrap()
}

fn account_interface() -> Interface {
    Interface::new(
        TypeId::of::<Account>(),
        "Account".to_string(),
        vec![
            method("balance", vec![], TypeId::of::<u64>(), Receiver::Immutable),
            method(
                "deposit",
                vec![TypeId::of::<u64>(), TypeId::of::<String>()],
                TypeId::of::<u64>(),
                Receiver::Mutable,
            ),
            method("close", vec![TypeId::of::<bool>()], TypeId::of::<u64>(), Receiver::Owned),
        ],
        vec![TypeId::of::<Greeter>(), TypeId::of::<Named>()],
    )
    .unwrap()
}

fn account(start: u64, calls: Arc<AtomicUsize>) -> Adapter {
    let object = Arc::new(Mutex::new(start));
    let balance: Borrowed = {
        let object = object.clone();
        let calls = calls.clone();
        Box::new(move |_| {
            calls.fetch_add(1, Ordering::SeqCst);
            value(*object.lock().unwrap())
        })
    };
    let deposit: Borrowed = {
        let object = object.clone();
        let calls = calls.clone();
        Box::new(move |mut arguments| {
            calls.fetch_add(1, Ordering::SeqCst);
            let _note: String = open(arguments.pop().unwrap());
            let amount: u64 = open(arguments.pop().unwrap());
            let mut balance = object.lock().unwrap();
            *balance += amount;
            value(*balance)
        })
    };
    let close: Owned = {
        let calls = calls.clone();
        Box::new(move |mut arguments| {
            calls.fetch_add(1, Ordering::SeqCst);
            let refund: bool = open(arguments.pop().unwrap());
            let balance = *object.lock().unwrap();
            value(if refund { balance } else { 0 })
        })
    };
    Shim::from_instance(
        account_interface(),
        vec![Callable::Borrowed(balance), Callable::Borrowed(deposit), Callable::Owned(close)],
        vec![greeter(), named("account")],
    )
    .unwrap()
}

fn failed(result: Result<Value<Item>, CallError>) -> CallError {
    match result {
        Ok(_) => panic!("the call was made"),
        Err(error) => error,
    }
}

fn cast_failed<T>(result: Result<T, CastError>) -> CastError {
    match result {
        Ok(_) => panic!("the cast was made"),
        Err(error) => error,
    }
}

#[test]
fn greeter_greets_ada() {
    let greeter = greeter();
    let greeting = greeter.call(0, vec![value("Ada".to_string())]).unwrap();
    assert_eq!(greeting.ty, TypeId::of::<String>());
    assert_eq!(open::<String>(greeting), "Hello, Ada");
}

#[test]
fn the_description_of_a_shim_is_that_of_its_interface() {
    let greeter = greeter();
    assert_eq!(greeter.count(), 1);
    assert_eq!(greeter.by_name("greet").unwrap(), 0);
    assert_eq!(greeter.name_of(0).unwrap(), "greet");
    assert_eq!(greeter.name_of(1), Err(OutOfRangeError { index: 1 }));
    assert_eq!(
        greeter.types(0).unwrap(),
        MethodTypes {
            arguments: vec![TypeId::of::<String>()],
            output: TypeId::of::<String>(),
            receiver: Receiver::Immutable
        }
    );
    assert_eq!(greeter.receiver(0), Ok(Receiver::Immutable));
    assert_eq!(greeter.this(), TypeId::of::<Greeter>());
    assert_eq!(greeter.name(), "Greeter");
    assert_eq!(greeter.supertraits(), vec![TypeId::of::<Named>()]);
    assert_eq!(greeter.describe().count(), 1);
}

#[test]
fn each_kind_of_receiver_is_called_through_its_entry_point() {
    let calls = Arc::new(AtomicUsize::new(0));
    let mut account = account(10, calls.clone());
    assert_eq!(open::<u64>(account.call(0, vec![]).unwrap()), 10);
    let after = account.call_mut(1, vec![value(5u64), value("pay".to_string())]).unwrap();
    assert_eq!(open::<u64>(after), 15);
    assert_eq!(open::<u64>(account.call(0, vec![]).unwrap()), 15);
    assert_eq!(open::<u64>(account.call_move(2, vec![value(true)]).unwrap()), 15);
    assert_eq!(calls.load(Ordering::SeqCst), 4);
}

#[test]
fn the_wrong_entry_point_never_calls_the_method() {
    let calls = Arc::new(AtomicUsize::new(0));
    let mut account = account(10, calls.clone());
    assert_eq!(
        failed(account.call(1, vec![value(5u64), value("pay".to_string())])),
        CallError::IncorrectReceiver(Receiver::Mutable)
    );
    assert_eq!(
        failed(account.call(2, vec![value(true)])),
        CallError::IncorrectReceiver(Receiver::Owned)
    );
    assert_eq!(
        failed(account.call_mut(0, vec![])),
        CallError::IncorrectReceiver(Receiver::Immutable)
    );
    assert_eq!(
        failed(account.call_mut(2, vec![value(true)])),
        CallError::IncorrectReceiver(Receiver::Owned)
    );
    assert_eq!(calls.load(Ordering::SeqCst), 0);
    assert_eq!(
        failed(account.call_move(0, vec![])),
        CallError::IncorrectReceiver(Receiver::Immutable)
    );
    assert_eq!(calls.load(Ordering::SeqCst), 0);
    let account = self::account(10, calls.clone());
    assert_eq!(
        failed(account.call_move(1, vec![value(5u64), value("pay".to_string())])),
        CallError::IncorrectReceiver(Receiver::Mutable)
    );
    assert_eq!(calls.load(Ordering::SeqCst), 0);
}

#[test]
fn another_number_of_arguments_never_calls_the_method() {
    let calls = Arc::new(AtomicUsize::new(0));
    let mut account = account(10, calls.clone());
    assert_eq!(
        failed(account.call(0, vec![value(1u64)])),
        CallError::ArgumentCount(ArgumentCountError { expected: 0, got: 1 })
    );
    assert_eq!(
        failed(account.call_mut(1, vec![value(5u64)])),
        CallError::ArgumentCount(ArgumentCountError { expected: 2, got: 1 })
    );
    assert_eq!(
        failed(account.call_mut(1, vec![])),
        CallError::ArgumentCount(ArgumentCountError { expected: 2, got: 0 })
    );
    assert_eq!(
        failed(account.call_move(2, vec![value(true), value(false), value(true)])),
        CallError::ArgumentCount(ArgumentCountError { expected: 1, got: 3 })
    );
    assert_eq!(calls.load(Ordering::SeqCst), 0);
}

#[test]
fn an_argument_of_another_type_never_calls_the_method() {
    let calls = Arc::new(AtomicUsize::new(0));
    let mut account = account(10, calls.clone());
    assert_eq!(
        failed(account.call_mut(1, vec![value(5u32), value("pay".to_string())])),
        CallError::Type(0)
    );
    assert_eq!(failed(account.call_mut(1, vec![value(5u64), value("pay")])), CallError::Type(1));
    assert_eq!(failed(account.call_mut(1, vec![value(()), value(())])), CallError::Type(0));
    assert_eq!(failed(account.call_move(2, vec![value(1u8)])), CallError::Type(0));
    assert_eq!(calls.load(Ordering::SeqCst), 0);
}

#[test]
fn a_call_past_the_methods_is_out_of_range() {
    let calls = Arc::new(AtomicUsize::new(0));
    let mut account = account(10, calls.clone());
    assert_eq!(
        failed(account.call(3, vec![])),
        CallError::OutOfRange(OutOfRangeError { index: 3 })
    );
    assert_eq!(
        failed(account.call_mut(255, vec![])),
        CallError::OutOfRange(OutOfRangeError { index: 255 })
    );
    assert_eq!(
        failed(account.call_move(3, vec![])),
        CallError::OutOfRange(OutOfRangeError { index: 3 })
    );
    assert_eq!(calls.load(Ordering::SeqCst), 0);
}

#[test]
fn a_shim_needs_one_callable_for_each_method() {
    let calls = Arc::new(AtomicUsize::new(0));
    let balance: Borrowed = Box::new(move |_| value(calls.load(Ordering::SeqCst) as u64));
    assert!(Shim::from_instance(
        account_interface(),
        vec![Callable::Borrowed(balance)],
        vec![greeter(), named("account")]
    )
    .is_none());
}

#[test]
fn a_shim_needs_an_owned_callable_exactly_for_a_method_that_consumes() {
    let borrowed = || -> Borrowed { Box::new(|_| value(0u64)) };
    let owned = || -> Owned { Box::new(|_| value(0u64)) };
    assert!(Shim::from_instance(
        account_interface(),
        vec![
            Callable::Borrowed(borrowed()),
            Callable::Borrowed(borrowed()),
            Callable::Borrowed(borrowed())
        ],
        vec![greeter(), named("account")]
    )
    .is_none());
    assert!(Shim::from_instance(
        account_interface(),
        vec![Callable::Owned(owned()), Callable::Borrowed(borrowed()), Callable::Owned(owned())],
        vec![greeter(), named("account")]
    )
    .is_none());
    assert!(Shim::from_instance(
        account_interface(),
        vec![
            Callable::Borrowed(borrowed()),
            Callable::Borrowed(borrowed()),
            Callable::Owned(owned())
        ],
        vec![greeter(), named("account")]
    )
    .is_some());
}

#[test]
fn a_shim_needs_one_nested_shim_for_each_supertrait() {
    let borrowed = || -> Borrowed { Box::new(|_| value(0u64)) };
    let owned = || -> Owned { Box::new(|_| value(0u64)) };
    let methods = || {
        vec![
            Callable::Borrowed(borrowed()),
            Callable::Borrowed(borrowed()),
            Callable::Owned(owned()),
        ]
    };
    assert!(Shim::from_instance(account_interface(), methods(), vec![greeter()]).is_none());
    assert!(Shim::from_instance(account_interface(), methods(), vec![]).is_none());
    assert!(Shim::from_instance(
        account_interface(),
        methods(),
        vec![named("account"), greeter()]
    )
    .is_none());
    assert!(Shim::from_instance(
        account_interface(),
        methods(),
        vec![greeter(), named("account")]
    )
    .is_some());
}

#[test]
fn upcast_to_each_supertrait_is_scoped_to_it() {
    let calls = Arc::new(AtomicUsize::new(0));
    let greeter = account(10, calls.clone()).upcast(TypeId::of::<Greeter>()).ok().unwrap();
    assert_eq!(greeter.this(), TypeId::of::<Greeter>());
    assert_eq!(greeter.name(), "Greeter");
    assert_eq!(greeter.count(), 1);
    assert_eq!(open::<String>(greeter.call(0, vec![value("Ada".to_string())]).unwrap()), "Hello, Ada");
    let named = account(10, calls.clone()).upcast(TypeId::of::<Named>()).ok().unwrap();
    assert_eq!(named.this(), TypeId::of::<Named>());
    assert_eq!(named.by_name("name").unwrap(), 0);
}

#[test]
fn upcast_finds_the_first_in_the_order_of_declaration() {
    let calls = Arc::new(AtomicUsize::new(0));
    let named = account(10, calls).upcast(TypeId::of::<Named>()).ok().unwrap();
    assert_eq!(open::<String>(named.call(0, vec![]).unwrap()), "greeter");
}

#[test]
fn upcast_to_the_interface_itself_keeps_the_instance() {
    let calls = Arc::new(AtomicUsize::new(0));
    let account = account(10, calls).upcast(TypeId::of::<Account>()).ok().unwrap();
    assert_eq!(account.this(), TypeId::of::<Account>());
    assert_eq!(account.count(), 3);
    assert_eq!(open::<u64>(account.call(0, vec![]).unwrap()), 10);
}

#[test]
fn upcast_reaches_what_a_supertrait_extends() {
    let named = greeter().upcast(TypeId::of::<Named>()).ok().unwrap();
    assert_eq!(named.this(), TypeId::of::<Named>());
    let again = named.upcast(TypeId::of::<Named>()).ok().unwrap();
    assert_eq!(again.this(), TypeId::of::<Named>());
}

#[test]
fn upcast_to_an_unrelated_interface_names_it() {
    let calls = Arc::new(AtomicUsize::new(0));
    let error = cast_failed(account(10, calls).upcast(TypeId::of::<Stranger>()));
    assert_eq!(error, CastError { target: TypeId::of::<Stranger>() });
    let error = cast_failed(named("x").upcast(TypeId::of::<Greeter>()));
    assert_eq!(error, CastError { target: TypeId::of::<Greeter>() });
}

#[test]
fn an_erased_shim_answers_as_the_shim_does() {
    let calls = Arc::new(AtomicUsize::new(0));
    let mut erased: ErasedShim<Item, Borrowed, Owned> = account(10, calls.clone()).erase();
    assert_eq!(erased.count(), 3);
    assert_eq!(erased.by_name("deposit").unwrap(), 1);
    assert_eq!(erased.name_of(2).unwrap(), "close");
    assert_eq!(erased.receiver(2), Ok(Receiver::Owned));
    assert_eq!(erased.types(0).unwrap().output, TypeId::of::<u64>());
    assert_eq!(erased.this(), TypeId::of::<Account>());
    assert_eq!(erased.name(), "Account");
    assert_eq!(erased.supertraits(), vec![TypeId::of::<Greeter>(), TypeId::of::<Named>()]);
    assert_eq!(open::<u64>(erased.call(0, vec![]).unwrap()), 10);
    assert_eq!(
        open::<u64>(erased.call_mut(1, vec![value(1u64), value(String::new())]).unwrap()),
        11
    );
    assert_eq!(failed(erased.call(1, vec![])), CallError::IncorrectReceiver(Receiver::Mutable));
    let erased = erased.erase();
    assert_eq!(open::<u64>(erased.call_move(2, vec![value(false)]).unwrap()), 0);
    assert_eq!(calls.load(Ordering::SeqCst), 3);
}

#[test]
fn cast_gives_the_shim_back_for_its_own_interface_only() {
    let shim = greeter().erase().cast(TypeId::of::<Greeter>()).ok().unwrap();
    assert_eq!(shim.count(), 1);
    let error = cast_failed(greeter().erase().cast(TypeId::of::<Named>()));
    assert_eq!(error, CastError { target: TypeId::of::<Named>() });
}

fn narrowed<X: Trait<Item>>(instance: X, ty: TypeId) -> Result<X::Erased, CastError> {
    instance.upcast(ty)
}

fn erased<X: Trait<Item>>(instance: X) -> X::Erased {
    instance.erase()
}

fn asked<X: Trait<Item>>(instance: &mut X) -> (u8, u64, u64) {
    let count = instance.count();
    let balance = open::<u64>(instance.call(0, vec![]).ok().unwrap());
    let after = instance.call_mut(1, vec![value(2u64), value(String::new())]).ok().unwrap();
    (count, balance, open::<u64>(after))
}

#[test]
fn the_reflective_contract_of_a_shim_and_of_an_erased_shim() {
    let calls = Arc::new(AtomicUsize::new(0));
    let mut shim = account(10, calls.clone());
    assert_eq!(asked(&mut shim), (3, 10, 12));
    let mut erased = erased(shim);
    assert_eq!(asked(&mut erased), (3, 12, 14));
    let greeter = narrowed(erased, TypeId::of::<Greeter>()).ok().unwrap();
    assert_eq!(greeter.this(), TypeId::of::<Greeter>());
    let error = cast_failed(narrowed(greeter, TypeId::of::<Account>()));
    assert_eq!(error, CastError { target: TypeId::of::<Account>() });
    let closed = account(7, calls).call_move(2, vec![value(true)]);
    assert_eq!(open::<u64>(closed.ok().unwrap()), 7);
}

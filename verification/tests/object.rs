use vessels::object::{
    build, Access, Blueprint, BuildError, Entry, FnArg, GenericParam, ItemTrait, MethodPlan, Recv,
    ReturnType, Signature, SupertraitPlan, TraitItem, TypeParamBound,
};
use vessels::reflection::Receiver;

fn typed(pat: &str, ty: &str) -> FnArg {
    FnArg::Typed { pat: pat.to_string(), ty: ty.to_string() }
}

fn signature(ident: &str, inputs: Vec<FnArg>, output: ReturnType) -> TraitItem {
    TraitItem::Method(Signature { ident: ident.to_string(), inputs, output })
}

fn item(ident: &str, items: Vec<TraitItem>) -> ItemTrait {
    ItemTrait { ident: ident.to_string(), generics: vec![], supertraits: vec![], items }
}

fn greeter() -> ItemTrait {
    item(
        "Greeter",
        vec![signature(
            "greet",
            vec![FnArg::Receiver { mutable: false }, typed("name", "String")],
            ReturnType::Type("String".to_string()),
        )],
    )
}

fn plain(count: usize) -> Vec<TraitItem> {
    let mut items = Vec::new();
    let mut i = 0;
    while i < count {
        items.push(signature(
            &format!("m{}", i),
            vec![FnArg::Receiver { mutable: false }],
            ReturnType::Default,
        ));
        i += 1;
    }
    items
}

fn send() -> TypeParamBound {
    TypeParamBound::Trait("::std::marker::Send".to_string())
}

#[test]
fn the_plan_of_greeter() {
    let mut item = greeter();
    let blueprint = build(&mut item).unwrap();
    assert_eq!(
        blueprint,
        Blueprint {
            hygiene: "_IMPLEMENT_PROTOCOL_FOR_Greeter".to_string(),
            name: "Greeter".to_string(),
            params: vec![],
            generics: vec![],
            methods: vec![MethodPlan {
                index: 0,
                ident: "greet".to_string(),
                arguments: vec!["String".to_string()],
                inputs: vec!["name".to_string()],
                output: ReturnType::Type("String".to_string()),
                receiver: Recv::Reference { mutable: false },
            }],
            supertraits: vec![],
        }
    );
    assert_eq!(blueprint.fields(), vec!["greet".to_string()]);
}

#[test]
fn build_marks_the_interface_send() {
    let mut item = greeter();
    item.supertraits = vec![TypeParamBound::Trait("Named".to_string())];
    build(&mut item).unwrap();
    assert_eq!(item.supertraits, vec![TypeParamBound::Trait("Named".to_string()), send()]);
    assert_eq!(item.ident, "Greeter");
    assert_eq!(item.items, greeter().items);
}

#[test]
fn an_interface_without_methods_has_a_plan() {
    let mut item = item("Marker", vec![TraitItem::Other]);
    let blueprint = build(&mut item).unwrap();
    assert_eq!(blueprint.methods, vec![]);
    assert_eq!(blueprint.hygiene, "_IMPLEMENT_PROTOCOL_FOR_Marker");
    assert_eq!(blueprint.fields(), Vec::<String>::new());
    assert_eq!(item.supertraits, vec![send()]);
}

#[test]
fn methods_are_numbered_in_order_past_what_is_no_method() {
    let mut item = item(
        "Account",
        vec![
            TraitItem::Other,
            signature("balance", vec![FnArg::Receiver { mutable: false }], ReturnType::Default),
            TraitItem::Other,
            signature(
                "deposit",
                vec![FnArg::Receiver { mutable: true }, typed("amount", "u64"), typed("_", "String")],
                ReturnType::Type("u64".to_string()),
            ),
            signature(
                "close",
                vec![FnArg::Boxed, typed("refund", "bool")],
                ReturnType::Type("u64".to_string()),
            ),
        ],
    );
    let blueprint = build(&mut item).unwrap();
    assert_eq!(blueprint.methods.len(), 3);
    assert_eq!(blueprint.methods[0].index, 0);
    assert_eq!(blueprint.methods[0].ident, "balance");
    assert_eq!(blueprint.methods[0].receiver, Recv::Reference { mutable: false });
    assert_eq!(blueprint.methods[0].output, ReturnType::Default);
    assert_eq!(blueprint.methods[0].arguments, Vec::<String>::new());
    assert_eq!(blueprint.methods[1].index, 1);
    assert_eq!(blueprint.methods[1].ident, "deposit");
    assert_eq!(blueprint.methods[1].receiver, Recv::Reference { mutable: true });
    assert_eq!(blueprint.methods[1].arguments, vec!["u64".to_string(), "String".to_string()]);
    assert_eq!(blueprint.methods[1].inputs, vec!["amount".to_string(), "_".to_string()]);
    assert_eq!(blueprint.methods[2].index, 2);
    assert_eq!(blueprint.methods[2].receiver, Recv::Move);
    assert_eq!(blueprint.methods[2].arguments, vec!["bool".to_string()]);
}

#[test]
fn a_lifetime_parameter_is_rejected() {
    let mut item = greeter();
    item.generics = vec![
        GenericParam::Type { ident: "T".to_string(), bounds: vec![] },
        GenericParam::Lifetime { ident: "'a".to_string() },
        GenericParam::Lifetime { ident: "'b".to_string() },
    ];
    assert_eq!(build(&mut item), Err(BuildError::Lifetime { position: 1 }));
    assert_eq!(item.supertraits, vec![]);
}

#[test]
fn a_lifetime_parameter_is_found_before_any_method_is() {
    let mut item = item("Bad", vec![signature("f", vec![], ReturnType::Default)]);
    item.generics = vec![GenericParam::Lifetime { ident: "'a".to_string() }];
    assert_eq!(build(&mut item), Err(BuildError::Lifetime { position: 0 }));
}

#[test]
fn a_method_without_a_receiver_is_rejected() {
    let mut item = item(
        "Maker",
        vec![
            TraitItem::Other,
            signature("get", vec![FnArg::Receiver { mutable: false }], ReturnType::Default),
            signature("make", vec![typed("size", "usize")], ReturnType::Type("Self".to_string())),
            signature("none", vec![], ReturnType::Default),
        ],
    );
    assert_eq!(build(&mut item), Err(BuildError::Receiver { position: 2 }));
    assert_eq!(item.supertraits, vec![]);
}

#[test]
fn up_to_255_methods_have_a_plan() {
    let mut item = item("Wide", plain(255));
    let blueprint = build(&mut item).unwrap();
    assert_eq!(blueprint.methods.len(), 255);
    assert_eq!(blueprint.methods[254].index, 254);
    assert_eq!(blueprint.methods[254].ident, "m254");
}

#[test]
fn the_256th_method_is_rejected() {
    let mut items = plain(255);
    items.insert(10, TraitItem::Other);
    items.push(signature("last", vec![FnArg::Receiver { mutable: false }], ReturnType::Default));
    items.push(signature("later", vec![FnArg::Receiver { mutable: false }], ReturnType::Default));
    let mut item = item("Wide", items);
    assert_eq!(build(&mut item), Err(BuildError::MethodCount { position: 256 }));
    assert_eq!(item.supertraits, vec![]);
}

#[test]
fn the_256th_method_is_rejected_for_its_number_whatever_its_receiver() {
    let mut items = plain(255);
    items.push(signature("last", vec![], ReturnType::Default));
    let mut item = item("Wide", items);
    assert_eq!(build(&mut item), Err(BuildError::MethodCount { position: 255 }));
}

#[test]
fn the_first_method_that_is_objected_to_is_named() {
    let mut items = plain(255);
    items[100] = signature("free", vec![], ReturnType::Default);
    items.push(signature("last", vec![FnArg::Receiver { mutable: false }], ReturnType::Default));
    let mut item = item("Wide", items);
    assert_eq!(build(&mut item), Err(BuildError::Receiver { position: 100 }));
}

#[test]
fn the_last_receiver_among_the_inputs_counts() {
    let mut item = item(
        "Odd",
        vec![signature(
            "f",
            vec![FnArg::Receiver { mutable: true }, typed("x", "u8"), FnArg::Boxed, typed("y", "u16")],
            ReturnType::Default,
        )],
    );
    let blueprint = build(&mut item).unwrap();
    assert_eq!(blueprint.methods[0].receiver, Recv::Move);
    assert_eq!(blueprint.methods[0].arguments, vec!["u8".to_string(), "u16".to_string()]);
    assert_eq!(blueprint.methods[0].inputs, vec!["x".to_string(), "y".to_string()]);
}

#[test]
fn type_parameters_are_bounded_and_listed() {
    let mut item = greeter();
    item.generics = vec![
        GenericParam::Type { ident: "T".to_string(), bounds: vec!["Clone".to_string()] },
        GenericParam::Const { ident: "N".to_string() },
        GenericParam::Type { ident: "U".to_string(), bounds: vec![] },
    ];
    let blueprint = build(&mut item).unwrap();
    assert_eq!(blueprint.params, vec!["T".to_string(), "U".to_string()]);
    assert_eq!(
        blueprint.generics,
        vec![
            GenericParam::Type {
                ident: "T".to_string(),
                bounds: vec!["Clone".to_string(), "'static".to_string(), "Send".to_string()]
            },
            GenericParam::Const { ident: "N".to_string() },
            GenericParam::Type {
                ident: "U".to_string(),
                bounds: vec!["'static".to_string(), "Send".to_string()]
            },
        ]
    );
    assert_eq!(item.generics.len(), 3);
    assert_eq!(
        item.generics[0],
        GenericParam::Type { ident: "T".to_string(), bounds: vec!["Clone".to_string()] }
    );
}

#[test]
fn supertraits_are_planned_by_their_position_among_the_bounds() {
    let mut item = greeter();
    item.supertraits = vec![
        TypeParamBound::Trait("Named".to_string()),
        TypeParamBound::Lifetime("'static".to_string()),
        TypeParamBound::Trait("other::Aged".to_string()),
    ];
    let blueprint = build(&mut item).unwrap();
    assert_eq!(
        blueprint.supertraits,
        vec![
            SupertraitPlan {
                position: 0,
                field: "_SUPERTRAIT_0_".to_string(),
                path: "Named".to_string()
            },
            SupertraitPlan {
                position: 2,
                field: "_SUPERTRAIT_2_".to_string(),
                path: "other::Aged".to_string()
            },
        ]
    );
    assert_eq!(
        blueprint.fields(),
        vec!["greet".to_string(), "_SUPERTRAIT_0_".to_string(), "_SUPERTRAIT_2_".to_string()]
    );
    assert_eq!(item.supertraits.len(), 4);
    assert_eq!(item.supertraits[3], send());
}

#[test]
fn a_supertrait_far_along_the_bounds() {
    let mut item = greeter();
    let mut i = 0;
    while i < 12 {
        item.supertraits.push(TypeParamBound::Lifetime("'static".to_string()));
        i += 1;
    }
    item.supertraits.push(TypeParamBound::Trait("Named".to_string()));
    let blueprint = build(&mut item).unwrap();
    assert_eq!(blueprint.supertraits.len(), 1);
    assert_eq!(blueprint.supertraits[0].field, "_SUPERTRAIT_12_");
}

#[test]
fn whether_a_declared_receiver_is_mutable() {
    assert_eq!(Recv::Reference { mutable: true }.is_mutable(), Some(true));
    assert_eq!(Recv::Reference { mutable: false }.is_mutable(), Some(false));
    assert_eq!(Recv::Move.is_mutable(), None);
}

#[test]
fn the_receiver_kind_of_a_declared_receiver() {
    assert_eq!(Recv::Reference { mutable: true }.receiver(), Receiver::Mutable);
    assert_eq!(Recv::Reference { mutable: false }.receiver(), Receiver::Immutable);
    assert_eq!(Recv::Move.receiver(), Receiver::Owned);
}

#[test]
fn the_entry_point_of_each_receiver_kind() {
    assert_eq!(Receiver::Immutable.entry(), Entry::Call);
    assert_eq!(Receiver::Mutable.entry(), Entry::CallMut);
    assert_eq!(Receiver::Owned.entry(), Entry::CallMove);
}

#[test]
fn the_access_of_each_receiver_kind() {
    assert_eq!(Receiver::Immutable.access(), Access::Shared);
    assert_eq!(Receiver::Mutable.access(), Access::Exclusive);
    assert_eq!(Receiver::Owned.access(), Access::Extract);
}

#[test]
fn taking_the_instance_out_needs_its_only_holder() {
    assert!(Access::Extract.admits(1));
    assert!(!Access::Extract.admits(0));
    assert!(!Access::Extract.admits(2));
    assert!(!Access::Extract.admits(usize::MAX));
    assert!(Access::Shared.admits(1));
    assert!(Access::Shared.admits(3));
    assert!(Access::Exclusive.admits(2));
}

#[test]
fn build_error_messages() {
    assert_eq!(
        BuildError::Lifetime { position: 0 }.message(),
        "lifetime parameters are not supported"
    );
    assert_eq!(
        BuildError::MethodCount { position: 300 }.message(),
        "traits with more than 255 methods are not supported"
    );
    assert_eq!(
        BuildError::Receiver { position: 1 }.message(),
        "object-safe trait methods must have a borrowed or `Box<Self>` receiver"
    );
}

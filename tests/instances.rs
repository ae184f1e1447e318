use sixtyfps_interpreter::{
    CallCallbackError, CallbackOutcome, ComponentDefinition, GetPropertyError, InstanceStore, Number,
    SetCallbackError, SetPropertyError, Struct, Value,
};

type Handler = Box<dyn Fn(Struct, Vec<Value>) -> CallbackOutcome>;

fn returning(value: Value) -> CallbackOutcome {
    CallbackOutcome { value, writes: vec![] }
}

fn num(x: f64) -> Value {
    Value::Number(Number::from_bits(x.to_bits()))
}

fn counter_definition() -> ComponentDefinition {
    let props = Struct::from_pairs(vec![
        ("count".to_string(), num(0.0)),
        ("label".to_string(), Value::String("hi".to_string())),
    ]);
    ComponentDefinition::new("Counter".to_string(), props, vec!["increment".to_string(), "clicked".to_string()])
}

#[test]
fn definition_name_and_properties() {
    let def = counter_definition();
    assert_eq!(def.name(), "Counter");
    let props = def.properties();
    assert!(props.get_property("count").unwrap() == num(0.0));
    assert_eq!(props.iter().len(), 2);
}

#[test]
fn new_instance_has_initial_values() {
    let def = counter_definition();
    let mut store: InstanceStore<Handler> = InstanceStore::new();
    let inst = def.create(&mut store);
    assert!(inst.get_property(&store, "count").ok().unwrap() == num(0.0));
    assert!(inst.get_property(&store, "label").ok().unwrap() == Value::String("hi".to_string()));
}

#[test]
fn unknown_names_give_errors() {
    let def = counter_definition();
    let mut store: InstanceStore<Handler> = InstanceStore::new();
    let inst = def.create(&mut store);
    assert!(matches!(inst.get_property(&store, "nonexistent"), Err(GetPropertyError::NoSuchProperty)));
    let r = inst.set_callback(&mut store, "nonexistent", Box::new(|_p: Struct, _args: Vec<Value>| returning(Value::Void)));
    assert_eq!(r, Err(SetCallbackError::NoSuchCallback));
    assert!(matches!(inst.invoke_callback(&mut store, "nonexistent", vec![]), Err(CallCallbackError::NoSuchCallback)));
    assert_eq!(inst.set_property(&mut store, "nonexistent", num(1.0)), Err(SetPropertyError::NoSuchProperty));
    assert!(inst.get_property(&store, "count").ok().unwrap() == num(0.0));
    assert!(inst.invoke_callback(&mut store, "increment", vec![]).ok().unwrap() == Value::Void);
}

#[test]
fn wrong_type_is_refused() {
    let def = counter_definition();
    let mut store: InstanceStore<Handler> = InstanceStore::new();
    let inst = def.create(&mut store);
    let r = inst.set_property(&mut store, "count", Value::String("ten".to_string()));
    assert_eq!(r, Err(SetPropertyError::WrongType));
    assert!(inst.get_property(&store, "count").ok().unwrap() == num(0.0));
    assert_eq!(inst.set_property(&mut store, "count", num(10.0)), Ok(()));
    assert!(inst.get_property(&store, "count").ok().unwrap() == num(10.0));
}

#[test]
fn handler_is_called_and_replaced() {
    let def = counter_definition();
    let mut store: InstanceStore<Handler> = InstanceStore::new();
    let inst = def.create(&mut store);
    assert_eq!(inst.set_callback(&mut store, "clicked", Box::new(|_p: Struct, args: Vec<Value>| returning(Value::Array(args)))), Ok(()));
    let r = inst.invoke_callback(&mut store, "clicked", vec![num(1.0), Value::Bool(true)]).ok().unwrap();
    assert!(r == Value::Array(vec![num(1.0), Value::Bool(true)]));
    assert_eq!(inst.set_callback(&mut store, "clicked", Box::new(|_p: Struct, _args: Vec<Value>| returning(num(5.0)))), Ok(()));
    assert!(inst.invoke_callback(&mut store, "clicked", vec![]).ok().unwrap() == num(5.0));
    assert!(inst.invoke_callback(&mut store, "increment", vec![]).ok().unwrap() == Value::Void);
}

fn increment_count(props: Struct, _args: Vec<Value>) -> CallbackOutcome {
    let next = match props.get_property("count") {
        Some(Value::Number(n)) => num(f64::from_bits(n.to_bits()) + 1.0),
        _ => Value::Void,
    };
    CallbackOutcome { value: Value::Void, writes: vec![("count".to_string(), next)] }
}

#[test]
fn increment_callback_updates_count() {
    let def = counter_definition();
    let mut store: InstanceStore<Handler> = InstanceStore::new();
    let inst = def.create(&mut store);
    assert!(inst.get_property(&store, "count").ok().unwrap() == num(0.0));
    inst.set_callback(&mut store, "increment", Box::new(increment_count)).unwrap();
    assert!(inst.invoke_callback(&mut store, "increment", vec![]).ok().unwrap() == Value::Void);
    assert!(inst.get_property(&store, "count").ok().unwrap() == num(1.0));
    inst.invoke_callback(&mut store, "increment", vec![]).ok().unwrap();
    assert!(inst.get_property(&store, "count").ok().unwrap() == num(2.0));
}

#[test]
fn callback_writes_follow_property_rules() {
    let def = counter_definition();
    let mut store: InstanceStore<Handler> = InstanceStore::new();
    let inst = def.create(&mut store);
    inst.set_callback(&mut store, "clicked", Box::new(|_p: Struct, _args: Vec<Value>| CallbackOutcome {
        value: num(7.0),
        writes: vec![
            ("missing".to_string(), num(1.0)),
            ("count".to_string(), Value::String("wrong".to_string())),
            ("label".to_string(), Value::String("first".to_string())),
            ("label".to_string(), Value::String("second".to_string())),
        ],
    })).unwrap();
    assert!(inst.invoke_callback(&mut store, "clicked", vec![]).ok().unwrap() == num(7.0));
    assert!(inst.get_property(&store, "count").ok().unwrap() == num(0.0));
    assert!(inst.get_property(&store, "label").ok().unwrap() == Value::String("second".to_string()));
    assert!(inst.get_property(&store, "missing").is_err());
}

#[test]
fn definition_lists_callbacks() {
    let def = counter_definition();
    assert_eq!(def.callbacks(), vec!["increment".to_string(), "clicked".to_string()]);
}

#[test]
fn clone_strong_shares_state() {
    let def = counter_definition();
    let mut store: InstanceStore<Handler> = InstanceStore::new();
    let a = def.create(&mut store);
    let b = a.clone_strong(&mut store);
    a.set_property(&mut store, "count", num(3.0)).unwrap();
    assert!(b.get_property(&store, "count").ok().unwrap() == num(3.0));
    b.set_property(&mut store, "label", Value::String("other".to_string())).unwrap();
    assert!(a.get_property(&store, "label").ok().unwrap() == Value::String("other".to_string()));
    a.release(&mut store);
    assert!(b.get_property(&store, "count").ok().unwrap() == num(3.0));
}

#[test]
fn instances_are_independent() {
    let def = counter_definition();
    let mut store: InstanceStore<Handler> = InstanceStore::new();
    let a = def.create(&mut store);
    let b = def.create(&mut store);
    a.set_property(&mut store, "count", num(8.0)).unwrap();
    assert!(b.get_property(&store, "count").ok().unwrap() == num(0.0));
}

#[test]
fn weak_upgrade_until_last_strong_released() {
    let def = counter_definition();
    let mut store: InstanceStore<Handler> = InstanceStore::new();
    let first = def.create(&mut store);
    let second = first.clone_strong(&mut store);
    let third = first.clone_strong(&mut store);
    let w1 = first.as_weak();
    let w2 = w1;
    let mut strong = vec![first, second, third];
    while let Some(h) = strong.pop() {
        for w in [w1, w2] {
            let up = w.upgrade(&mut store).expect("instance still live");
            up.release(&mut store);
        }
        h.release(&mut store);
    }
    assert!(w1.upgrade(&mut store).is_none());
    assert!(w2.upgrade(&mut store).is_none());
}

#[test]
fn weak_unwrap_gives_live_handle() {
    let def = counter_definition();
    let mut store: InstanceStore<Handler> = InstanceStore::new();
    let inst = def.create(&mut store);
    inst.set_property(&mut store, "count", num(2.0)).unwrap();
    let w = inst.as_weak();
    let again = w.unwrap(&mut store);
    assert!(again.get_property(&store, "count").ok().unwrap() == num(2.0));
}

#[test]
fn show_and_hide_are_idempotent() {
    let def = counter_definition();
    let mut store: InstanceStore<Handler> = InstanceStore::new();
    let inst = def.create(&mut store);
    inst.show(&mut store);
    inst.show(&mut store);
    inst.hide_window(&mut store);
    inst.hide_window(&mut store);
    assert!(inst.get_property(&store, "count").ok().unwrap() == num(0.0));
}

#[test]
fn array_fills_model_property() {
    let props = Struct::from_pairs(vec![("rows".to_string(), Value::Model(1))]);
    let def = ComponentDefinition::new("List".to_string(), props, vec![]);
    let mut store: InstanceStore<Handler> = InstanceStore::new();
    let inst = def.create(&mut store);
    assert_eq!(inst.set_property(&mut store, "rows", Value::Array(vec![num(1.0)])), Ok(()));
    assert_eq!(inst.set_property(&mut store, "rows", Value::Model(2)), Ok(()));
    assert_eq!(inst.set_property(&mut store, "rows", num(1.0)), Err(SetPropertyError::WrongType));
    assert!(inst.get_property(&store, "rows").ok().unwrap() == Value::Model(2));
}

#[test]
fn second_instance_survives_first_release() {
    let def = counter_definition();
    let mut store: InstanceStore<Handler> = InstanceStore::new();
    let a = def.create(&mut store);
    let b = def.create(&mut store);
    b.set_property(&mut store, "count", num(4.0)).unwrap();
    a.show(&mut store);
    let wa = a.as_weak();
    a.release(&mut store);
    assert!(b.is_held_in(&store));
    assert!(wa.upgrade(&mut store).is_none());
    assert!(b.get_property(&store, "count").ok().unwrap() == num(4.0));
}

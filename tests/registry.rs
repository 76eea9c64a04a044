use event::{Event, HandlerRegistry};
use std::any::TypeId;

struct Msg;
impl Event for Msg {
    type Data = (String, String);
}

struct Counter;
impl Event for Counter {
    type Data = u32;
}

struct Alert;
impl Event for Alert {
    type Data = String;
}

struct Notice;
impl Event for Notice {
    type Data = String;
}

type Sink<T> = Vec<(&'static str, T)>;

fn run<T: Clone>(reg: &HandlerRegistry<&'static str>, kind: TypeId, payload: &T, sink: &mut Sink<T>) {
    for (index, data) in reg.emit(&kind, payload) {
        sink.push((*reg.handler(index), data));
    }
}

fn record_message(sink: &mut Vec<(String, String)>, data: <Msg as Event>::Data) {
    sink.push(data);
}

fn append_count(sink: &mut Vec<u32>, data: <Counter as Event>::Data) {
    sink.push(data);
}

#[test]
fn message_handler_records_payload() {
    let mut reg: HandlerRegistry<fn(&mut Vec<(String, String)>, (String, String))> = HandlerRegistry::new();
    reg.register(TypeId::of::<Msg>(), record_message);
    let mut sink: Vec<(String, String)> = Vec::new();
    let payload = ("Alice".to_string(), "hi".to_string());
    for (index, data) in reg.emit(&TypeId::of::<Msg>(), &payload) {
        (reg.handler(index))(&mut sink, data);
    }
    assert_eq!(sink, vec![("Alice".to_string(), "hi".to_string())]);
}

#[test]
fn counter_values_arrive_in_emission_order() {
    let mut reg: HandlerRegistry<fn(&mut Vec<u32>, u32)> = HandlerRegistry::new();
    reg.register(TypeId::of::<Counter>(), append_count);
    let mut seen: Vec<u32> = Vec::new();
    for value in 1..=5u32 {
        let plan = reg.emit(&TypeId::of::<Counter>(), &value);
        assert_eq!(plan.len(), 1);
        for (index, data) in plan {
            (reg.handler(index))(&mut seen, data);
        }
    }
    assert_eq!(seen, vec![1, 2, 3, 4, 5]);
}

#[test]
fn emit_without_handlers_does_nothing() {
    let mut reg: HandlerRegistry<&'static str> = HandlerRegistry::new();
    reg.register(TypeId::of::<Msg>(), "msg");
    let mut sink: Sink<u32> = Vec::new();
    run(&reg, TypeId::of::<Counter>(), &7u32, &mut sink);
    assert!(sink.is_empty());
    assert_eq!(reg.len(), 1);
    let empty: HandlerRegistry<&'static str> = HandlerRegistry::new();
    assert!(empty.emit(&TypeId::of::<Counter>(), &7u32).is_empty());
}

#[test]
fn has_handlers_only_after_registration() {
    let mut reg: HandlerRegistry<&'static str> = HandlerRegistry::new();
    assert!(!reg.has_handlers(&TypeId::of::<Alert>()));
    reg.register(TypeId::of::<Notice>(), "notice");
    assert!(!reg.has_handlers(&TypeId::of::<Alert>()));
    assert!(reg.has_handlers(&TypeId::of::<Notice>()));
    reg.register(TypeId::of::<Alert>(), "alert");
    assert!(reg.has_handlers(&TypeId::of::<Alert>()));
}

#[test]
fn each_handler_runs_once_with_equal_payload() {
    let mut reg: HandlerRegistry<&'static str> = HandlerRegistry::new();
    reg.register(TypeId::of::<Alert>(), "a");
    reg.register(TypeId::of::<Alert>(), "b");
    reg.register(TypeId::of::<Alert>(), "c");
    let mut sink: Sink<String> = Vec::new();
    run(&reg, TypeId::of::<Alert>(), &"update".to_string(), &mut sink);
    assert_eq!(
        sink,
        vec![("a", "update".to_string()), ("b", "update".to_string()), ("c", "update".to_string())]
    );
}

#[test]
fn duplicate_registration_runs_twice() {
    let mut reg: HandlerRegistry<&'static str> = HandlerRegistry::new();
    reg.register(TypeId::of::<Msg>(), "print");
    reg.register(TypeId::of::<Msg>(), "print");
    let mut sink: Sink<(String, String)> = Vec::new();
    let payload = ("Alice".to_string(), "Hello Event!".to_string());
    run(&reg, TypeId::of::<Msg>(), &payload, &mut sink);
    assert_eq!(sink, vec![("print", payload.clone()), ("print", payload.clone())]);
}

#[test]
fn kinds_with_same_payload_shape_stay_apart() {
    let mut reg: HandlerRegistry<&'static str> = HandlerRegistry::new();
    reg.register(TypeId::of::<Alert>(), "alert");
    reg.register(TypeId::of::<Notice>(), "notice");
    reg.register(TypeId::of::<Alert>(), "alert again");
    let mut sink: Sink<String> = Vec::new();
    run(&reg, TypeId::of::<Notice>(), &"n".to_string(), &mut sink);
    assert_eq!(sink, vec![("notice", "n".to_string())]);
    let plan = reg.emit(&TypeId::of::<Alert>(), &"a".to_string());
    let positions: Vec<usize> = plan.iter().map(|p| p.0).collect();
    assert_eq!(positions, vec![0, 2]);
}

#[test]
fn handlers_start_in_registration_order() {
    let mut reg: HandlerRegistry<&'static str> = HandlerRegistry::new();
    reg.register(TypeId::of::<Counter>(), "h1");
    reg.register(TypeId::of::<Msg>(), "other");
    reg.register(TypeId::of::<Counter>(), "h2");
    reg.register(TypeId::of::<Counter>(), "h3");
    let mut sink: Sink<u32> = Vec::new();
    run(&reg, TypeId::of::<Counter>(), &10u32, &mut sink);
    assert_eq!(sink, vec![("h1", 10), ("h2", 10), ("h3", 10)]);
}

#[test]
fn handler_returns_the_registered_value() {
    let mut reg: HandlerRegistry<u64> = HandlerRegistry::new();
    assert_eq!(reg.len(), 0);
    reg.register(TypeId::of::<Msg>(), 11);
    reg.register(TypeId::of::<Counter>(), 22);
    assert_eq!(reg.len(), 2);
    assert_eq!(*reg.handler(0), 11);
    assert_eq!(*reg.handler(1), 22);
}

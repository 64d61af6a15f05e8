use causal_trace::{
    body_json, code_json, debug, grandfather, pregnant, record_document, trace, ClockRegistry,
    CodeAttributes, EventGenerator, TraceError, TraceOptions, TraceType,
};
use serde_json::Value;

fn site() -> CodeAttributes {
    CodeAttributes { module: "src/main.rs", function: "event_loop", line_no: 43, format: "recv" }
}

#[test]
fn unregistered_lookup_fails_and_leaves_registry() {
    let mut reg = ClockRegistry::new();
    grandfather(&mut reg, 1);
    let before = reg.current(1).unwrap();
    assert_eq!(reg.current(2).err(), Some(TraceError::UnregisteredContext));
    let r = trace(&mut reg, 2, &site(), &Value::Null);
    assert_eq!(r, Err(TraceError::UnregisteredContext));
    assert!(pregnant(&mut reg, 2).is_err());
    assert!(!reg.contains(2));
    let after = reg.current(1).unwrap();
    assert_eq!(after.path(), before.path());
    assert_eq!(after.epoch(), before.epoch());
}

#[test]
fn trace_renders_key_and_document() {
    let mut reg = ClockRegistry::new();
    grandfather(&mut reg, 1);
    let (key, doc) = trace(&mut reg, 1, &site(), &Value::Null).unwrap();
    let c = reg.current(1).unwrap();
    assert_eq!(c.path(), &vec![1u64]);
    assert_eq!(key, format!("EventGenerator {{ thread_id: 1, event_id: [1], epoch: {} }}", c.epoch()));
    assert_eq!(
        doc,
        format!(
            "{{\"header\":{{\"context_id\":1,\"path\":[1],\"epoch_us\":{}}},\"level\":\"Trace\",\"code\":{{\"module\":\"src/main.rs\",\"function\":\"event_loop\",\"line_no\":43,\"format\":\"recv\"}},\"body\":null}}",
            c.epoch()
        )
    );
    let parsed: Value = serde_json::from_str(&doc).unwrap();
    assert_eq!(parsed["header"]["path"][0], Value::from(1u64));
}

#[test]
fn debug_level_and_body() {
    let mut reg = ClockRegistry::new();
    grandfather(&mut reg, 5);
    trace(&mut reg, 5, &site(), &Value::Null).unwrap();
    let body = Value::String("msg1".to_string());
    let (_, doc) = debug(&mut reg, 5, &site(), &body).unwrap();
    assert!(doc.contains("\"level\":\"Debug\""));
    assert!(doc.ends_with(",\"body\":\"msg1\"}"));
    assert!(doc.contains("\"path\":[2]"));
}

#[test]
fn forked_child_registers_itself() {
    let mut reg = ClockRegistry::new();
    grandfather(&mut reg, 1);
    trace(&mut reg, 1, &site(), &Value::Null).unwrap();
    let mut child = pregnant(&mut reg, 1).unwrap();
    assert_eq!(child.path(), &vec![2u64, 0]);
    assert_eq!(reg.current(1).unwrap().path(), &vec![2u64]);
    assert!(!reg.contains(2));
    child.stash(&mut reg, 2);
    assert_eq!(child.context_id(), 2);
    let (key, _) = trace(&mut reg, 2, &site(), &Value::Null).unwrap();
    assert!(key.starts_with("EventGenerator { thread_id: 2, event_id: [2, 1], epoch: "));
    assert_eq!(reg.current(1).unwrap().path(), &vec![2u64]);
}

#[test]
fn register_replaces_recycled_identity() {
    let mut reg = ClockRegistry::new();
    grandfather(&mut reg, 3);
    trace(&mut reg, 3, &site(), &Value::Null).unwrap();
    reg.register(EventGenerator::root(3, 77));
    let c = reg.current(3).unwrap();
    assert_eq!(c.path(), &vec![0u64]);
    assert_eq!(c.epoch(), 77);
}

#[test]
fn code_attributes_getters() {
    let s = site();
    assert_eq!(s.get_module(), "src/main.rs");
    assert_eq!(s.get_function(), "event_loop");
    assert_eq!(s.get_line_no(), 43);
    assert_eq!(s.get_format(), "recv");
}

#[test]
fn code_and_body_json_escape() {
    let s = CodeAttributes { module: "a\"b", function: "f\\g", line_no: 1, format: "x\ny" };
    let (m, f, fm) = code_json(&s).unwrap();
    assert_eq!(m, "\"a\\\"b\"");
    assert_eq!(f, "\"f\\\\g\"");
    assert_eq!(fm, "\"x\\ny\"");
    assert_eq!(body_json(&Value::String("hi".to_string())).unwrap(), "\"hi\"");
    assert_eq!(body_json(&Value::Bool(true)).unwrap(), "true");
}

#[test]
fn record_document_layout() {
    let mut c = EventGenerator::root(4, 9);
    let child = c.fork();
    let doc = record_document(&child, TraceType::Debug, "\"m\"", "\"f\"", 12, "\"x\"", "[1,2]");
    assert_eq!(child.epoch(), c.epoch());
    assert_eq!(
        doc,
        format!(
            "{{\"header\":{{\"context_id\":4,\"path\":[1,0],\"epoch_us\":{}}},\"level\":\"Debug\",\"code\":{{\"module\":\"m\",\"function\":\"f\",\"line_no\":12,\"format\":\"x\"}},\"body\":[1,2]}}",
            child.epoch()
        )
    );
}

#[test]
fn trace_type_names() {
    assert_eq!(TraceType::Trace.name(), "Trace");
    assert_eq!(TraceType::Debug.name(), "Debug");
    assert_eq!(TraceType::Debug.to_text(), "Trace type Debug".to_string());
}

#[test]
fn trace_options_switch() {
    assert!(TraceOptions { all: false, el: true }.traces_event_loop());
    assert!(TraceOptions { all: true, el: false }.traces_event_loop());
    assert!(!TraceOptions { all: false, el: false }.traces_event_loop());
}

#[test]
fn advance_then_render_outside_registry() {
    let mut reg = ClockRegistry::new();
    grandfather(&mut reg, 6);
    let mark = reg.advance(6).unwrap();
    assert_eq!(mark.path(), &vec![1u64]);
    assert_eq!(reg.current(6).unwrap().path(), &vec![1u64]);
    assert_eq!(reg.advance(7).err(), Some(TraceError::UnregisteredContext));
    assert!(!reg.contains(7));
    let (key, doc) = mark.render(TraceType::Trace, &site(), &Value::Null);
    assert_eq!(key, mark.key());
    assert!(doc.starts_with("{\"header\":{\"context_id\":6,\"path\":[1],"));
    assert_eq!(reg.current(6).unwrap().path(), &vec![1u64]);
}

#[test]
fn two_forks_in_a_row_differ() {
    let mut reg = ClockRegistry::new();
    grandfather(&mut reg, 1);
    let c1 = pregnant(&mut reg, 1).unwrap();
    let c2 = pregnant(&mut reg, 1).unwrap();
    assert_eq!(c1.path(), &vec![1u64, 0]);
    assert_eq!(c2.path(), &vec![2u64, 0]);
    assert_ne!(c1.path(), c2.path());
}

#[test]
fn control_characters_are_escaped() {
    let s = CodeAttributes { module: "\u{1}\u{1f}", function: "\t\r\u{8}\u{c}", line_no: 0, format: "é/" };
    let (m, f, fm) = code_json(&s).unwrap();
    assert_eq!(m, "\"\\u0001\\u001f\"");
    assert_eq!(f, "\"\\t\\r\\b\\f\"");
    assert_eq!(fm, "\"é/\"");
}

//! Reactive state and events to the host.
use solite::json::Json;
use solite::outbox::{Event, Outbox, MAX_SEND_EVENT_PAYLOAD_BYTES};
use solite::state::StateStore;

fn num(n: u64) -> Json {
    Json::UInt(n)
}

fn text(s: &str) -> Json {
    Json::Text(s.to_string())
}

fn object(members: Vec<(&str, Json)>) -> Json {
    let mut out = Vec::new();
    for (key, value) in members {
        out.push((key.to_string(), value));
    }
    Json::Object(out)
}

/// A JSON text as the library holds it.
fn parse(source: &str) -> Result<Json, String> {
    match serde_json::from_str::<serde_json::Value>(source) {
        Ok(value) => Ok(convert(&value)),
        Err(error) => Err(error.to_string()),
    }
}

fn convert(value: &serde_json::Value) -> Json {
    match value {
        serde_json::Value::Null => Json::Null,
        serde_json::Value::Bool(flag) => Json::Bool(*flag),
        serde_json::Value::Number(number) => match (number.as_u64(), number.as_i64()) {
            (Some(n), _) => Json::UInt(n),
            (None, Some(n)) => Json::Int(n),
            (None, None) => Json::Real(number.as_f64().unwrap_or(0.0).to_bits()),
        },
        serde_json::Value::String(text) => Json::Text(text.clone()),
        serde_json::Value::Array(items) => Json::Array(items.iter().map(convert).collect()),
        serde_json::Value::Object(members) => {
            Json::Object(members.iter().map(|(k, v)| (k.clone(), convert(v))).collect())
        }
    }
}

#[test]
fn state_set_path_matrix_covers_nested_object_and_array_forms() {
    let mut h = StateStore::new(object(vec![]));

    h.set("counter", num(0));
    h.set("counter", num(17));
    h.set("meta.state", text("ready"));
    h.set("meta.state", text("updated"));
    h.set("rows.0", text("first"));
    h.set("rows.1", text("second"));
    h.set("rows.1", text("second-overwrite"));
    h.set("meta.nested.value", num(3));
    h.set("list.0.inner", num(1));
    h.set("list.1.inner", num(2));
    h.set("rows.3", text("third"));
    h.set(
        "root",
        object(vec![
            ("arr", Json::Array(vec![num(10), num(20)])),
            ("nested", object(vec![("flag", Json::Bool(true))])),
        ]),
    );

    assert_eq!(h.get("counter"), Some(num(17)));
    assert_eq!(h.get("counter"), Some(num(17)));
    assert_eq!(h.get("meta.state"), Some(text("updated")));
    assert_eq!(h.get("rows.1"), Some(text("second-overwrite")));
    assert_eq!(h.get("meta.nested.value"), Some(num(3)));
    assert_eq!(h.get("list.0.inner"), Some(num(1)));
    assert_eq!(h.get("list.1.inner"), Some(num(2)));
    assert_eq!(h.get("root.arr.0"), Some(num(10)));
    assert_eq!(h.get("root.arr.1"), Some(num(20)));
    assert_eq!(h.get("root.nested"), Some(object(vec![("flag", Json::Bool(true))])));
    assert_eq!(h.get("rows.2"), Some(Json::Null));
    assert_eq!(
        h.get("rows"),
        Some(Json::Array(vec![
            text("first"),
            text("second-overwrite"),
            Json::Null,
            text("third")
        ]))
    );
}

#[test]
fn state_drain_patches_clears_dirty() {
    let mut h = StateStore::new(object(vec![]));
    h.set("a", num(1));
    assert!(h.is_dirty());
    let patches = h.drain_patches();
    assert_eq!(patches.len(), 1);
    assert_eq!(patches[0], ("a".to_owned(), num(1)));
    assert!(h.drain_patches().is_empty(), "dirty flag should clear after drain");
    assert!(!h.is_dirty());
}

#[test]
fn state_drain_patches_preserves_enqueue_order() {
    let mut h = StateStore::new(object(vec![]));
    h.set("a", num(1));
    h.set("b", num(2));
    h.set("a", num(3));
    h.set("rows.0", text("first"));

    let patches = h.drain_patches();
    assert_eq!(patches.len(), 4);
    assert_eq!(patches[0].0, "a");
    assert_eq!(patches[1].0, "b");
    assert_eq!(patches[2].0, "a");
    assert_eq!(patches[3].0, "rows.0");
    assert_eq!(patches[2].1, num(3));
}

#[test]
fn state_snapshot() {
    let h = StateStore::new(object(vec![("x", num(1)), ("y", num(2))]));
    let snap = StateStore::new(h.snapshot());
    assert_eq!(snap.get("x"), Some(num(1)));
}

#[test]
fn state_drain_patches() {
    let mut h = StateStore::new(object(vec![]));
    h.set("a", num(1));
    h.set("b", num(2));
    let patches = h.drain_patches();
    assert_eq!(patches.len(), 2);
    assert!(h.drain_patches().is_empty());
}

#[test]
fn state_mirror_js_write_does_not_queue_patches() {
    let mut h = StateStore::new(object(vec![]));
    h.mirror_js_write("js.only", text("present"));
    h.mirror_js_write("rows.0", text("a"));
    h.mirror_js_write("rows.1", text("b"));
    assert_eq!(h.get("js.only"), Some(text("present")));
    assert_eq!(h.get("rows.1"), Some(text("b")));
    assert_eq!(h.drain_patches(), vec![], "JS-origin writes should not enqueue Rust patches");
    h.set("rows.2", text("c"));
    let patches = h.drain_patches();
    assert_eq!(patches.len(), 1);
    assert_eq!(patches[0], ("rows.2".to_owned(), text("c")));
}

#[test]
fn writes_keep_other_paths() {
    let mut h = StateStore::new(object(vec![("a", num(1))]));
    h.set("b.c", num(2));
    assert_eq!(h.get("a"), Some(num(1)));
    assert_eq!(h.get("b"), Some(object(vec![("c", num(2))])));
    assert_eq!(h.get("b.missing"), None);
    assert_eq!(h.get("a.0"), None);
}

#[test]
fn the_empty_path_is_the_whole_tree() {
    let mut h = StateStore::new(object(vec![("a", num(1))]));
    h.set("", text("all"));
    assert_eq!(h.get(""), Some(text("all")));
    assert_eq!(h.get("a"), None);
}

#[test]
fn numbers_with_leading_zeros_are_indices() {
    let mut h = StateStore::new(object(vec![]));
    h.set("rows.01", text("b"));
    assert_eq!(h.get("rows"), Some(Json::Array(vec![Json::Null, text("b")])));
}

/// Sends an event as a script does, over a channel.
fn send(
    outbox: &mut Outbox,
    sender: &tokio::sync::mpsc::UnboundedSender<Event>,
    name: &str,
    payload: &str,
) {
    if !outbox.open_send(payload) {
        return;
    }
    let event = outbox.build(name.to_string(), parse(payload));
    let delivered = sender.send(event).is_ok();
    outbox.report(delivered);
}

#[test]
fn send_event_reaches_channel() {
    let (tx, mut rx) = tokio::sync::mpsc::unbounded_channel::<Event>();
    let mut outbox = Outbox { last_error: Some("stale".into()) };
    send(&mut outbox, &tx, "click", "{\"x\":1}");
    let ev = rx.try_recv().unwrap();
    assert_eq!(ev.name, "click");
    assert_eq!(ev.payload, object(vec![("x", num(1))]));
    assert_eq!(outbox.last_error, None);
}

#[test]
fn send_event_records_parse_error() {
    let (tx, mut rx) = tokio::sync::mpsc::unbounded_channel::<Event>();
    let mut outbox = Outbox::new();
    send(&mut outbox, &tx, "invalid", "{invalid");
    assert!(outbox.last_error.is_some_and(|msg| !msg.is_empty()));
    assert_eq!(rx.try_recv().unwrap().payload, Json::Null);
}

#[test]
fn send_event_rejects_oversized_payload() {
    let (tx, mut rx) = tokio::sync::mpsc::unbounded_channel::<Event>();
    let mut outbox = Outbox::new();
    let payload = " ".repeat(MAX_SEND_EVENT_PAYLOAD_BYTES + 1);
    send(&mut outbox, &tx, "oversize", &payload);
    assert!(rx.try_recv().is_err());
    assert_eq!(
        outbox.last_error.as_deref(),
        Some("sendEvent payload too large: 262145 bytes (max 262144)")
    );
}

#[test]
fn send_event_records_send_failure_when_receiver_is_dropped() {
    let (tx, rx) = tokio::sync::mpsc::unbounded_channel::<Event>();
    drop(rx);
    let mut outbox = Outbox::new();
    send(&mut outbox, &tx, "click", "{}");
    assert_eq!(outbox.last_error.as_deref(), Some("sendEvent receiver was dropped"));
}

#[test]
fn take_send_event_error_clears_after_read() {
    let (tx, _rx) = tokio::sync::mpsc::unbounded_channel::<Event>();
    let mut outbox = Outbox::new();
    send(&mut outbox, &tx, "invalid", "{invalid");
    assert!(outbox.take_send_event_error().as_ref().is_some_and(|msg| !msg.is_empty()));
    assert_eq!(outbox.take_send_event_error(), None);
}

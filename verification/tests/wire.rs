use bear::execution::{Event, ExecutionRecord};
use bear::wire::{encode_event, encode_number};

fn strings(items: &[&str]) -> Vec<String> {
    items.iter().map(|s| s.to_string()).collect()
}

#[test]
fn numbers_render_in_decimal() {
    assert_eq!(encode_number(0), "0");
    assert_eq!(encode_number(7), "7");
    assert_eq!(encode_number(42), "42");
    assert_eq!(encode_number(1234567890), "1234567890");
}

#[test]
fn event_encoding_is_length_prefixed() {
    let rec = ExecutionRecord::new(
        "/u/cc".to_string(),
        strings(&["cc", "a.c"]),
        "/p".to_string(),
        vec![("A".to_string(), "b=c".to_string())],
    )
    .unwrap();
    let event = Event::new(7, rec);
    assert_eq!(encode_event(&event), "7:5:/u/cc2:2:cc3:a.c2:/p1:1:A3:b=c");
}

#[test]
fn event_encoding_keeps_awkward_environment_values() {
    // embedded separators, an embedded '=', and an empty value survive
    let rec = ExecutionRecord::new(
        "/usr/bin/cc".to_string(),
        strings(&["cc"]),
        "/proj".to_string(),
        vec![
            ("EMPTY".to_string(), "".to_string()),
            ("EQ".to_string(), "a=b:c".to_string()),
        ],
    )
    .unwrap();
    let event = Event::new(1, rec);
    assert_eq!(
        encode_event(&event),
        "1:11:/usr/bin/cc1:2:cc5:/proj2:5:EMPTY0:2:EQ5:a=b:c"
    );
}

//! The input side: lenient line decoding and the button table.

use desktus::codec::encode;
use desktus::event::{decode_event_line, parse_button, Event, MouseButton};

fn good_line(message: u64, button: u32) -> String {
    format!("{{\"name\":\"{}\",\"button\":{}}}", encode(&message), button)
}

#[test]
fn decodes_a_well_formed_line() {
    let ev = decode_event_line::<u64>(good_line(7, 1).as_str());
    assert_eq!(
        ev,
        Some(Event { message: 7, button: MouseButton::Left })
    );
}

#[test]
fn decodes_every_button_code() {
    for (code, button) in [
        (1, MouseButton::Left),
        (2, MouseButton::Middle),
        (3, MouseButton::Right),
        (4, MouseButton::Down),
        (5, MouseButton::Up),
    ] {
        let ev = decode_event_line::<u64>(good_line(0, code).as_str());
        assert_eq!(ev.map(|e| e.button), Some(button));
    }
}

#[test]
fn parse_button_table() {
    assert_eq!(parse_button(1), Some(MouseButton::Left));
    assert_eq!(parse_button(2), Some(MouseButton::Middle));
    assert_eq!(parse_button(3), Some(MouseButton::Right));
    assert_eq!(parse_button(4), Some(MouseButton::Down));
    assert_eq!(parse_button(5), Some(MouseButton::Up));
    assert_eq!(parse_button(0), None);
    assert_eq!(parse_button(6), None);
    assert_eq!(parse_button(99), None);
}

#[test]
fn bad_lines_yield_nothing_and_do_not_stop_later_lines() {
    // One malformed line, one with an unmapped button, one whose name does
    // not decode: each stands for no event, and a good line afterwards is
    // still decoded.
    let lines = [
        "this is not json".to_string(),
        good_line(3, 99),
        "{\"name\":\"!!!\",\"button\":1}".to_string(),
        good_line(3, 2),
    ];
    let events: Vec<Option<Event<u64>>> =
        lines.iter().map(|l| decode_event_line::<u64>(l.as_str())).collect();
    assert_eq!(events[0], None);
    assert_eq!(events[1], None);
    assert_eq!(events[2], None);
    assert_eq!(
        events[3],
        Some(Event { message: 3, button: MouseButton::Middle })
    );
}

#[test]
fn strips_separator_commas() {
    let line = format!(",{},", good_line(1, 3));
    assert_eq!(
        decode_event_line::<u64>(line.as_str()),
        Some(Event { message: 1, button: MouseButton::Right })
    );
}

#[test]
fn tolerates_whitespace_and_unknown_members() {
    let line = format!(
        " {{ \"instance\" : null , \"name\" : \"{}\" , \"x\" : -12 , \
\"modifiers\" : [ \"Shift\" , \"Mod1\" ] , \"button\" : 1 , \"relative_x\" : 640 }} ",
        encode(&9u64)
    );
    assert_eq!(
        decode_event_line::<u64>(line.as_str()),
        Some(Event { message: 9, button: MouseButton::Left })
    );
}

#[test]
fn rejects_structurally_bad_lines() {
    let name = encode(&1u64);
    for line in [
        String::new(),
        ",,,".to_string(),
        "{}".to_string(),
        format!("{{\"name\":\"{name}\"}}"),
        "{\"button\":1}".to_string(),
        format!("{{\"name\":\"{name}\",\"button\":1}} trailing"),
        format!("{{\"name\":\"{name}\",\"button\":1"),
        format!("{{\"name\":\"{name}\",\"button\":-1}}"),
        format!("{{\"name\":\"{name}\",\"button\":4294967296}}"),
        format!("{{\"name\":\"{name}\",\"button\":1,\"name\":\"{name}\"}}"),
        format!("{{\"name\":{name},\"button\":1}}"),
        format!("{{\"name\":\"{name}\",\"button\":\"1\"}}"),
    ] {
        assert_eq!(decode_event_line::<u64>(line.as_str()), None, "line: {line}");
    }
}

#[test]
fn name_with_escapes_is_unescaped_before_decoding() {
    // A name written with JSON escapes decodes like the plain one, as long
    // as the unescaped text is the message's encoding.
    let name = encode(&2u64);
    let head = &name[..1];
    let tail = &name[1..];
    let escaped_head = format!("\\u{:04x}", head.chars().next().unwrap() as u32);
    let line = format!("{{\"name\":\"{escaped_head}{tail}\",\"button\":1}}");
    assert_eq!(
        decode_event_line::<u64>(line.as_str()),
        Some(Event { message: 2, button: MouseButton::Left })
    );
}

#[test]
fn stale_names_from_other_schemas_are_dropped() {
    // A name that is valid base64 but not this schema's encoding.
    let line = "{\"name\":\"QQ==\",\"button\":1}";
    assert_eq!(decode_event_line::<u64>(line), None);
}

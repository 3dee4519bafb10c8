use franklin_client::datatypes::ProtocolError;
use franklin_client::python_client::{status_frame, status_json, stop_frame, JsonEntry};

fn entry(name: &str, value: &str) -> JsonEntry {
    JsonEntry { name: name.as_bytes().to_vec(), value: value.as_bytes().to_vec() }
}

fn json(entries: &Vec<JsonEntry>) -> String {
    String::from_utf8(status_json(entries)).unwrap()
}

#[test]
fn stop_frame_is_one_zero_byte_under_operation_one() {
    assert_eq!(stop_frame(), vec![70, 70, 1, 0, 1, 0]);
}

#[test]
fn status_json_of_no_entry_is_the_empty_object() {
    assert_eq!(json(&vec![]), "{}");
}

#[test]
fn status_json_of_one_entry() {
    assert_eq!(json(&vec![entry("Gyro Value", "10")]), "{\"Gyro Value\":10}");
}

#[test]
fn status_json_puts_commas_between_entries() {
    let entries = vec![
        entry("Gyro Value", "-0.5"),
        entry("PID Proportional", "300"),
        entry("Motor Target", "327.67"),
    ];
    assert_eq!(
        json(&entries),
        "{\"Gyro Value\":-0.5,\"PID Proportional\":300,\"Motor Target\":327.67}"
    );
}

#[test]
fn status_json_keeps_the_order_and_empty_parts() {
    let entries = vec![entry("b", "2"), entry("a", "1"), entry("", ""), entry("a", "3")];
    assert_eq!(json(&entries), "{\"b\":2,\"a\":1,\"\":,\"a\":3}");
}

#[test]
fn status_frame_is_the_json_under_operation_three() {
    let entries = vec![entry("Gyro Value", "10"), entry("Integral Sum", "0.1")];
    let text = "{\"Gyro Value\":10,\"Integral Sum\":0.1}";
    let framed = status_frame(&entries).unwrap();
    assert_eq!(&framed[..5], &[70, 70, 3, 0, text.len() as u8]);
    assert_eq!(&framed[5..], text.as_bytes());
    assert_eq!(status_frame(&vec![]), Ok(vec![70, 70, 3, 0, 2, b'{', b'}']));
}

#[test]
fn status_frame_refuses_a_text_beyond_sixteen_bits() {
    // 2 braces + 2 quotes + 1 colon + 65530 bytes of value = 65535
    let largest = vec![entry("", &"1".repeat(65530))];
    let framed = status_frame(&largest).unwrap();
    assert_eq!(&framed[..5], &[70, 70, 3, 0xFF, 0xFF]);
    assert_eq!(framed.len(), 65540);
    let too_large = vec![entry("", &"1".repeat(65531))];
    assert_eq!(status_frame(&too_large), Err(ProtocolError::PayloadTooLarge));
}

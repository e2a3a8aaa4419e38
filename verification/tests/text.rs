use autocorrect::text::{to_chars, to_string};

#[test]
fn chars_round_trip() {
    let v = to_chars("长桥 LongBridge");
    assert_eq!(v.len(), 13);
    assert_eq!(to_string(&v), "长桥 LongBridge");
}

use for_mqtt::data::common::{PayloadError, PayloadTy, QoS};
use for_mqtt::ui::formatter::{
    check_addr, check_no_empty, check_port, check_qos, parse_to_no_empty, parse_to_port,
    parse_to_qos, MustInput,
};
use for_mqtt::ui::tabs::pad_right;
use for_mqtt::util::consts::QosToString;
use for_mqtt::util::topic::match_topic;
use for_mqtt::ForError;

#[test]
fn port_parses_decimal_text() {
    assert_eq!(parse_to_port("1883"), Ok(Some(1883)));
    assert_eq!(parse_to_port("0"), Ok(Some(0)));
    assert_eq!(parse_to_port("65535"), Ok(Some(65535)));
    assert_eq!(parse_to_port("+80"), Ok(Some(80)));
    assert_eq!(parse_to_port("007"), Ok(Some(7)));
}

#[test]
fn empty_port_is_no_port() {
    assert_eq!(parse_to_port(""), Ok(None));
    assert!(check_port(""));
}

#[test]
fn bad_ports_are_refused() {
    assert_eq!(parse_to_port("65536"), Err(ForError::InvalidPort));
    assert_eq!(parse_to_port("-1"), Err(ForError::InvalidPort));
    assert_eq!(parse_to_port("18a3"), Err(ForError::InvalidPort));
    assert_eq!(parse_to_port("+"), Err(ForError::InvalidPort));
    assert_eq!(parse_to_port(" 1"), Err(ForError::InvalidPort));
    assert!(!check_port("99999"));
    assert!(check_port("1883"));
}

#[test]
fn port_format_round_trip() {
    let m = MustInput;
    for port in [0u16, 1, 9, 10, 99, 1883, 8883, 65535] {
        let text = m.format_port(&Some(port));
        assert_eq!(text, port.to_string());
        assert_eq!(parse_to_port(&text), Ok(Some(port)));
    }
    assert_eq!(m.format_port(&None), "");
    assert_eq!(parse_to_port(&m.format_port(&None)), Ok(None));
}

#[test]
fn qos_parses_its_three_levels() {
    assert_eq!(parse_to_qos("0"), Ok(QoS::AtMostOnce));
    assert_eq!(parse_to_qos("1"), Ok(QoS::AtLeastOnce));
    assert_eq!(parse_to_qos("2"), Ok(QoS::ExactlyOnce));
    assert_eq!(parse_to_qos(""), Err(ForError::NotEmpty));
    assert_eq!(parse_to_qos("3"), Err(ForError::InvalidQos));
    assert_eq!(parse_to_qos("01"), Err(ForError::InvalidQos));
    assert!(check_qos("2"));
    assert!(!check_qos("x"));
}

#[test]
fn qos_text_round_trip() {
    for q in [QoS::AtMostOnce, QoS::AtLeastOnce, QoS::ExactlyOnce] {
        assert_eq!(parse_to_qos(&q.to_string()), Ok(q));
        assert_eq!(q.qos_to_string(), q.to_string());
    }
    assert_eq!(QoS::AtMostOnce.to_u8(), 0);
    assert_eq!(QoS::AtLeastOnce.to_u8(), 1);
    assert_eq!(QoS::ExactlyOnce.to_u8(), 2);
    assert_eq!(QoS::ExactlyOnce.to_string(), "2");
}

#[test]
fn required_fields() {
    assert_eq!(parse_to_no_empty("a"), Ok("a".to_string()));
    assert_eq!(parse_to_no_empty(""), Err(ForError::NotEmpty));
    assert!(check_no_empty("x"));
    assert!(!check_no_empty(""));
    assert!(check_addr("broker.emqx.io"));
    assert!(!check_addr(""));
}

#[test]
fn payload_type_names() {
    assert_eq!(PayloadTy::Text.to_arc_string(), "Text");
    assert_eq!(PayloadTy::Json.to_arc_string(), "Json");
    assert_eq!(PayloadTy::Hex.to_arc_string(), "Hex");
    assert_eq!(PayloadTy::default(), PayloadTy::Text);
    assert_eq!(QoS::default(), QoS::AtMostOnce);
}

#[test]
fn text_payload_is_utf8() {
    let (bytes, shown) = PayloadTy::Text.to_bytes(&"héllo".to_string()).unwrap();
    assert_eq!(bytes, "héllo".as_bytes().to_vec());
    assert_eq!(shown, "héllo");
    assert_eq!(PayloadTy::Text.format(&bytes), "héllo");
    let (json, shown) = PayloadTy::Json.to_bytes(&"{\"a\": 1}".to_string()).unwrap();
    assert_eq!(json, b"{\"a\": 1}".to_vec());
    assert_eq!(shown, "{\"a\": 1}");
}

#[test]
fn invalid_utf8_is_shown_leniently() {
    assert_eq!(PayloadTy::Text.format(&[104, 0xff, 105]), "h\u{fffd}i");
}

#[test]
fn hex_payload_encodes_pairs() {
    let (bytes, shown) = PayloadTy::Hex.to_bytes(&"0a 1B ff".to_string()).unwrap();
    assert_eq!(bytes, vec![0x0a, 0x1b, 0xff]);
    assert_eq!(shown, "0a 1B ff ");
    let (bytes, _) = PayloadTy::Hex.to_bytes(&"".to_string()).unwrap();
    assert!(bytes.is_empty());
}

#[test]
fn odd_hex_digits_are_refused() {
    assert_eq!(
        PayloadTy::Hex.to_bytes(&"abc".to_string()),
        Err(PayloadError::OddHexDigits)
    );
}

#[test]
fn hex_dump_groups_by_four() {
    assert_eq!(PayloadTy::Hex.format(&[1, 2, 3, 4, 5, 0xab]), "01 02 03 04  05 ab");
    assert_eq!(PayloadTy::Hex.format(&[]), "");
}

#[test]
fn hex_round_trip() {
    let data: Vec<u8> = vec![0, 1, 0x7f, 0x80, 0xfe, 0xff, 0x10, 0x20, 0x30];
    let shown = PayloadTy::Hex.format(&data);
    let (bytes, _) = PayloadTy::Hex.to_bytes(&shown).unwrap();
    assert_eq!(bytes, data);
}

#[test]
fn text_round_trip() {
    let data = "ünïcödé ✓ text".as_bytes().to_vec();
    let shown = PayloadTy::Text.format(&data);
    let (bytes, _) = PayloadTy::Text.to_bytes(&shown).unwrap();
    assert_eq!(bytes, data);
}

#[test]
fn json_is_pretty_printed() {
    assert_eq!(PayloadTy::Json.format(b"{\"a\":1}"), "{\n  \"a\": 1\n}");
    assert_eq!(PayloadTy::Json.format(b"not json"), "not json");
}

#[test]
fn topic_filters_match_by_level() {
    assert!(match_topic("a/b/c", "a/b/c"));
    assert!(!match_topic("a/b/c", "a/b/d"));
    assert!(match_topic("a/+/c", "a/b/c"));
    assert!(!match_topic("a/+/c", "a/b/x/c"));
    assert!(match_topic("a/#", "a/b/c"));
    assert!(match_topic("a/#", "a"));
    assert!(match_topic("#", "anything/at/all"));
    assert!(match_topic("#", ""));
    assert!(!match_topic("a/b", "a"));
    assert!(!match_topic("a", "a/b"));
    assert!(match_topic("+/+", "/x"));
}

#[test]
fn plain_filter_matches_only_itself() {
    for t in ["a/b", "a/b/", "a//b", "ab", ""] {
        assert_eq!(match_topic("a/b", t), t == "a/b");
    }
}

#[test]
fn tab_labels_are_padded() {
    assert_eq!(pad_right("emq", 6), "emq   ");
    assert_eq!(pad_right("broker", 3), "broker");
    assert_eq!(pad_right("", 2), "  ");
    assert_eq!(pad_right("é", 3), "é  ");
}

#[test]
fn shown_text_encodes_the_same_again() {
    for (ty, msg) in [
        (PayloadTy::Hex, "DE ad, be-EF!"),
        (PayloadTy::Hex, "x12 34"),
        (PayloadTy::Text, "text"),
        (PayloadTy::Json, "[1, 2]"),
    ] {
        let (bytes, shown) = ty.to_bytes(&msg.to_string()).unwrap();
        let (again, shown_again) = ty.to_bytes(&shown).unwrap();
        assert_eq!(again, bytes);
        assert_eq!(shown_again, shown);
    }
}

#[test]
fn hex_reads_only_the_digits() {
    let v: Vec<u8> = vec![0x00, 0x7f, 0xab, 0xff, 0x10];
    let lower: String = v.iter().map(|x| format!("{:02x}", x)).collect();
    let upper: String = v.iter().map(|x| format!("{:02X}", x)).collect();
    let mixed = "00, 7F;\tAb-ff zz 10!".to_string();
    for text in [lower, upper, mixed] {
        let (bytes, shown) = PayloadTy::Hex.to_bytes(&text).unwrap();
        assert_eq!(bytes, v);
        let (again, _) = PayloadTy::Hex.to_bytes(&shown).unwrap();
        assert_eq!(again, v);
    }
    let (plain, _) = PayloadTy::Hex.to_bytes(&"a1b2".to_string()).unwrap();
    let (spread, _) = PayloadTy::Hex.to_bytes(&"a1 ? b2 ghij".to_string()).unwrap();
    assert_eq!(plain, spread);
    assert_eq!(plain.len(), 2);
    assert!(matches!(PayloadTy::Hex.to_bytes(&"a1 b".to_string()), Err(PayloadError::OddHexDigits)));
    assert!(matches!(PayloadTy::Hex.to_bytes(&"xyz".to_string()), Ok((b, _)) if b.is_empty()));
}

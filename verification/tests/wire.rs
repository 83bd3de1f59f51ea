use auth::logic::wire::{read_record, write_record};
use auth::logic::{CaptchaAnswer, CaptchaFields, ConfirmEmail, Email, WireError};

fn serde_record(name: &str, value: &str, timestamp: i64) -> String {
    let mut fields = serde_json::Map::new();
    fields.insert(name.to_string(), serde_json::Value::from(value));
    fields.insert("timestamp".to_string(), serde_json::Value::from(timestamp));
    serde_json::to_string(&serde_json::Value::Object(fields)).unwrap()
}

#[test]
fn a_confirm_email_record_is_written_as_a_flat_json_object() {
    let email = Email::parse("ursula@example.com".to_string()).unwrap();
    assert_eq!(
        ConfirmEmail::json_string(email, 1700000000).unwrap(),
        r#"{"email":"ursula@example.com","timestamp":1700000000}"#
    );
}

#[test]
fn a_captcha_record_is_written_as_a_flat_json_object() {
    let answer = CaptchaAnswer::parse("aB3dE".to_string()).unwrap();
    assert_eq!(
        CaptchaFields::json_string(answer, -12).unwrap(),
        r#"{"answer":"aB3dE","timestamp":-12}"#
    );
}

#[test]
fn a_confirm_email_record_reads_back_field_for_field() {
    let email = Email::parse("ursula@example.com".to_string()).unwrap();
    let text = ConfirmEmail::json_string(email, 1700000000).unwrap();
    let read = ConfirmEmail::from_json_str(&text).unwrap();
    assert_eq!(read.email.as_str(), "ursula@example.com");
    assert_eq!(read.timestamp, 1700000000);
}

#[test]
fn a_captcha_record_reads_back_field_for_field() {
    let answer = CaptchaAnswer::parse("x7Yz".to_string()).unwrap();
    let text = CaptchaFields::json_string(answer, 0).unwrap();
    let read = CaptchaFields::from_json_str(&text).unwrap();
    assert_eq!(read.answer.as_str(), "x7Yz");
    assert_eq!(read.timestamp, 0);
}

#[test]
fn the_written_text_is_what_serde_json_writes() {
    let values = [
        "",
        "plain",
        "with \"quotes\" and \\ backslash",
        "tab\there, newline\nthere, return\r",
        "\u{8}\u{c}\u{0}\u{1}\u{1f}\u{7f}",
        "ünïcödé ☃ 𝄞",
        "/slash stays",
    ];
    let timestamps = [0, 1, -1, 9, 10, 1700000000, i64::MAX, i64::MIN];
    for value in values {
        for timestamp in timestamps {
            assert_eq!(
                write_record("email", value, timestamp),
                serde_record("email", value, timestamp)
            );
        }
    }
}

#[test]
fn every_written_record_reads_back() {
    let values = [
        "",
        "plain",
        "with \"quotes\" and \\ backslash",
        "tab\there, newline\nthere, return\r",
        "\u{8}\u{c}\u{0}\u{1}\u{1f}\u{7f}",
        "ünïcödé ☃ 𝄞",
        "\\u0041 is no escape here",
        "{\"email\":\"nested\",\"timestamp\":1}",
    ];
    let timestamps = [0, 7, -7, 1700000000, i64::MAX, i64::MIN];
    for value in values {
        for timestamp in timestamps {
            let text = write_record("answer", value, timestamp);
            assert_eq!(read_record(&text, "answer"), Some((value.to_string(), timestamp)));
        }
    }
}

#[test]
fn control_characters_are_escaped_as_json_does() {
    assert_eq!(
        write_record("k", "\u{0}\u{8}\t\n\u{b}\u{c}\r\u{1f}", 1),
        "{\"k\":\"\\u0000\\b\\t\\n\\u000b\\f\\r\\u001f\",\"timestamp\":1}"
    );
}

#[test]
fn what_is_no_record_is_not_read() {
    let malformed = [
        "",
        "nil",
        "null",
        "[]",
        "{}",
        "{\"email\":\"a@b.c\"}",
        "{\"timestamp\":1}",
        "{\"email\":\"a@b.c\",\"timestamp\":}",
        "{\"email\":\"a@b.c\",\"timestamp\":1",
        "{\"email\":\"a@b.c\",\"timestamp\":1}}",
        "{\"email\":\"a@b.c\",\"timestamp\":1} x",
        "{\"email\":\"a@b.c\" \"timestamp\":1}",
        "{\"email\":\"a@b.c\",\"timestamp\":01}",
        "{\"email\":\"a@b.c\",\"timestamp\":+1}",
        "{\"email\":\"a@b.c\",\"timestamp\":-}",
        "{\"email\":\"a@b.c\",\"timestamp\":1.0}",
        "{\"email\":\"a@b.c\",\"timestamp\":\"1\"}",
        "{\"email\":\"a@b.c\",\"timestamp\":null}",
        "{\"email\":7,\"timestamp\":1}",
        "{\"email\":null,\"timestamp\":1}",
        "{\"email\":\"a@b.c\",\"timestamp\":9223372036854775808}",
        "{\"email\":\"a@b.c\",\"timestamp\":-9223372036854775809}",
        "{\"email\":\"a@b.c\",\"timestamp\":99999999999999999999999999999999999999999}",
        "{\"email\":\"a\\qb\",\"timestamp\":1}",
        "{\"email\":\"a\nb\",\"timestamp\":1}",
        "{\"email\":\"unterminated",
        "{\"email\":\"a\\",
        "{'email':'a@b.c','timestamp':1}",
        "[{\"email\":\"a@b.c\",\"timestamp\":1}]",
        "{\"answer\":\"abcd\",\"timestamp\":1}",
        "{\"Email\":\"a@b.c\",\"Timestamp\":1}",
    ];
    for text in malformed {
        assert_eq!(read_record(text, "email"), None, "{:?}", text);
        assert!(
            matches!(ConfirmEmail::from_json_str(text), Err(WireError::NotARecord)),
            "{:?}",
            text
        );
    }
}

#[test]
fn a_record_is_read_in_any_json_form() {
    let read = |text: &str| read_record(text, "email");
    let plain = Some(("a@b.c".to_string(), 1));
    // spacing
    assert_eq!(read("{\"email\":\"a@b.c\",\"timestamp\":1} "), plain);
    assert_eq!(read(" {\"email\":\"a@b.c\",\"timestamp\":1}"), plain);
    assert_eq!(read("{\"email\": \"a@b.c\", \"timestamp\": 1}"), plain);
    assert_eq!(read("{\n\t\"email\" : \"a@b.c\" ,\r\n\t\"timestamp\" : 1\n}\n"), plain);
    // the other order of the members
    assert_eq!(read("{\"timestamp\":1,\"email\":\"a@b.c\"}"), plain);
    // members besides
    assert_eq!(
        read("{\"email\":\"a@b.c\",\"note\":{\"x\":[1,2.5,null]},\"timestamp\":1}"),
        plain
    );
    // escapes of characters that need none
    assert_eq!(
        read("{\"email\":\"a\\u0041b\",\"timestamp\":1}"),
        Some(("aAb".to_string(), 1))
    );
    assert_eq!(
        read("{\"email\":\"a\\u000Ab\",\"timestamp\":1}"),
        Some(("a\nb".to_string(), 1))
    );
    assert_eq!(
        read("{\"email\":\"a\\u000ab\",\"timestamp\":1}"),
        Some(("a\nb".to_string(), 1))
    );
    assert_eq!(
        read("{\"email\":\"a\\/b\",\"timestamp\":1}"),
        Some(("a/b".to_string(), 1))
    );
    assert_eq!(
        read("{\"email\":\"\\ud83d\\ude00\",\"timestamp\":-5}"),
        Some(("\u{1f600}".to_string(), -5))
    );
    // and so are the records themselves
    let record = ConfirmEmail::from_json_str(" { \"timestamp\" : 1700000000 , \"email\" : \"ursula@example.com\" } ")
        .unwrap();
    assert_eq!(record.email.as_str(), "ursula@example.com");
    assert_eq!(record.timestamp, 1700000000);
    let record =
        CaptchaFields::from_json_str("{\"timestamp\":3,\"extra\":true,\"answer\":\"aB3d\"}").unwrap();
    assert_eq!(record.answer.as_str(), "aB3d");
    assert_eq!(record.timestamp, 3);
}

fn serde_fields(text: &str, name: &str) -> Option<(String, i64)> {
    let parsed: serde_json::Value = serde_json::from_str(text).ok()?;
    let object = parsed.as_object()?;
    let value = object.get(name)?.as_str()?.to_string();
    let timestamp = object.get("timestamp")?;
    if !timestamp.is_number() {
        return None;
    }
    Some((value, timestamp.as_i64()?))
}

#[test]
fn what_is_read_is_what_serde_json_reads() {
    let texts = [
        "{\"email\":\"a@b.c\",\"timestamp\":1}",
        "{\"email\":\"\",\"timestamp\":-9223372036854775808}",
        "{\"email\":\"a@b.c\",\"timestamp\":-0}",
        "{\"email\":\"a@b.c\",\"timestamp\":0}",
        "{\"email\":\"a@b.c\",\"timestamp\":1e3}",
        "{\"email\":\"a@b.c\",\"timestamp\":1E0}",
        "{\"email\":\"a@b.c\",\"timestamp\":1,\"timestamp\":2}",
        "{\"email\":\"a@b.c\",\"email\":\"c@d.e\",\"timestamp\":2}",
        "{\"email\":\"a\\tb\\\\c\\\"d\",\"timestamp\":2}",
        "{\"email\":\"\\u00e9\",\"timestamp\":2}",
        "{\"email\":\"\\ud83d\",\"timestamp\":2}",
        "{\"email\":\"a@b.c\",\"timestamp\":18446744073709551615}",
        "{\"email\":\"a@b.c\",\"timestamp\":true}",
        "\u{feff}{\"email\":\"a@b.c\",\"timestamp\":1}",
        "{\"email\":\"a@b.c\",\"timestamp\":1}\n\n",
    ];
    for text in texts {
        assert_eq!(read_record(text, "email"), serde_fields(text, "email"), "{:?}", text);
    }
    for value in ["", "plain", "with \"quotes\" and \\ backslash", "\u{0}\n\t☃"] {
        for timestamp in [0, -3, 1700000000, i64::MAX, i64::MIN] {
            let text = write_record("email", value, timestamp);
            assert_eq!(read_record(&text, "email"), serde_fields(&text, "email"));
            assert_eq!(read_record(&text, "email"), Some((value.to_string(), timestamp)));
        }
    }
}

#[test]
fn the_bounds_of_the_timestamp_are_read() {
    assert_eq!(
        read_record("{\"email\":\"\",\"timestamp\":9223372036854775807}", "email"),
        Some((String::new(), i64::MAX))
    );
    assert_eq!(
        read_record("{\"email\":\"\",\"timestamp\":-9223372036854775808}", "email"),
        Some((String::new(), i64::MIN))
    );
}

#[test]
fn a_record_of_one_kind_is_no_record_of_the_other() {
    let answer = CaptchaAnswer::parse("abcd".to_string()).unwrap();
    let text = CaptchaFields::json_string(answer, 5).unwrap();
    assert!(ConfirmEmail::from_json_str(&text).is_err());
    let email = Email::parse("a@b.cd".to_string()).unwrap();
    let text = ConfirmEmail::json_string(email, 5).unwrap();
    assert!(CaptchaFields::from_json_str(&text).is_err());
}

#[test]
fn what_is_written_is_json_with_exactly_the_two_fields() {
    let values = ["", "plain", "with \"quotes\" and \\ backslash", "\u{0}\n\t☃"];
    for value in values {
        for timestamp in [0, -3, 1700000000, i64::MAX, i64::MIN] {
            let text = write_record("answer", value, timestamp);
            let parsed: serde_json::Value = serde_json::from_str(&text).unwrap();
            let object = parsed.as_object().unwrap();
            assert_eq!(object.len(), 2);
            assert_eq!(object.get("answer").and_then(|v| v.as_str()), Some(value));
            assert_eq!(object.get("timestamp").and_then(|v| v.as_i64()), Some(timestamp));
        }
    }
}

#[test]
fn a_record_is_made_of_the_fields_that_were_read() {
    let record = ConfirmEmail::from_fields(Some(("a@b.c".to_string(), 4))).unwrap();
    assert_eq!(record.email.as_str(), "a@b.c");
    assert_eq!(record.timestamp, 4);
    assert!(matches!(ConfirmEmail::from_fields(None), Err(WireError::NotARecord)));
    let record = CaptchaFields::from_fields(Some(("aB3d".to_string(), -4))).unwrap();
    assert_eq!(record.answer.as_str(), "aB3d");
    assert_eq!(record.timestamp, -4);
    assert!(matches!(CaptchaFields::from_fields(None), Err(WireError::NotARecord)));
}

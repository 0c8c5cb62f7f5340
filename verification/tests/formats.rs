use haproxy_stats::formats::json::{Entry, Field, Tags, Value};
use haproxy_stats::formats::tree::Json;
use haproxy_stats::stat::{CheckStatus, Role, Status};

fn text(s: &str) -> Json {
    Json::Text(s.to_string())
}

fn object(members: Vec<(&str, Json)>) -> Json {
    Json::Object(members.into_iter().map(|(k, v)| (k.to_string(), v)).collect())
}

fn typed(kind: &str, value: Json) -> Json {
    object(vec![("type", text(kind)), ("value", value)])
}

#[test]
fn values_give_the_number_they_were_sent_as() {
    let s32 = Value::S32(-5);
    let s64 = Value::S64(-6);
    let u32 = Value::U32(7);
    let u64 = Value::U64(8);
    let s = Value::Str("nine".to_string());

    assert_eq!(s32.as_i32(), Some(-5));
    assert_eq!(s64.as_i32(), None);
    assert_eq!(u32.as_i32(), None);
    assert_eq!(s.as_i32(), None);

    assert_eq!(s32.as_i64(), Some(-5));
    assert_eq!(s64.as_i64(), Some(-6));
    assert_eq!(u32.as_i64(), None);
    assert_eq!(u64.as_i64(), None);

    assert_eq!(u32.as_u32(), Some(7));
    assert_eq!(u64.as_u32(), None);
    assert_eq!(s32.as_u32(), None);

    assert_eq!(u32.as_u64(), Some(7));
    assert_eq!(u64.as_u64(), Some(8));
    assert_eq!(s64.as_u64(), None);
    assert_eq!(s.as_u64(), None);

    assert_eq!(s.as_str(), Some("nine"));
    assert_eq!(u32.as_str(), None);
}

#[test]
fn values_are_written_as_text() {
    assert_eq!(Value::S32(-5).value_to_string(), "-5");
    assert_eq!(Value::S32(i32::MIN).value_to_string(), "-2147483648");
    assert_eq!(Value::S64(i64::MIN).value_to_string(), "-9223372036854775808");
    assert_eq!(Value::U32(0).value_to_string(), "0");
    assert_eq!(Value::U32(u32::MAX).value_to_string(), "4294967295");
    assert_eq!(Value::U64(u64::MAX).value_to_string(), "18446744073709551615");
    assert_eq!(Value::Str("as is".to_string()).value_to_string(), "as is");
    assert_eq!(Value::Str(String::new()).value_to_string(), "");
}

#[test]
fn tree_members_are_found_by_name() {
    let tree = object(vec![
        ("a", Json::Unsigned(1)),
        ("b", text("two")),
        ("c", Json::Signed(-3)),
        ("d", Json::List(vec![Json::Null, Json::Bool(true)])),
        ("e", Json::Fraction),
    ]);
    assert_eq!(tree.count_at("a"), Some(1));
    assert_eq!(tree.count_at("b"), None);
    assert_eq!(tree.count_at("c"), None);
    assert_eq!(tree.count_at("z"), None);
    assert_eq!(tree.text_at("b"), Some("two".to_string()));
    assert_eq!(tree.text_at("a"), None);
    assert_eq!(tree.get("c").unwrap().integer(), Some(-3));
    assert_eq!(tree.get("a").unwrap().integer(), Some(1));
    assert_eq!(tree.get("e").unwrap().integer(), None);
    assert_eq!(tree.get("e").unwrap().count(), None);
    assert_eq!(tree.get("d").unwrap().items().unwrap().len(), 2);
    assert!(tree.get("z").is_none());
    assert!(tree.items().is_none());
    assert!(tree.text().is_none());
    assert!(text("x").get("x").is_none());
    assert_eq!(text("x").text(), Some(&"x".to_string()));
    assert_eq!(Json::Unsigned(u64::MAX).integer(), Some(u64::MAX as i128));
}

#[test]
fn typed_values_must_fit_their_type() {
    assert_eq!(Value::from_json(&typed("u32", Json::Unsigned(5))), Some(Value::U32(5)));
    assert_eq!(Value::from_json(&typed("u64", Json::Unsigned(5))), Some(Value::U64(5)));
    assert_eq!(Value::from_json(&typed("s32", Json::Unsigned(5))), Some(Value::S32(5)));
    assert_eq!(Value::from_json(&typed("s32", Json::Signed(-5))), Some(Value::S32(-5)));
    assert_eq!(Value::from_json(&typed("s64", Json::Signed(-5))), Some(Value::S64(-5)));
    assert_eq!(
        Value::from_json(&typed("str", text("five"))),
        Some(Value::Str("five".to_string()))
    );
    assert_eq!(Value::from_json(&typed("u32", Json::Signed(-5))), None);
    assert_eq!(Value::from_json(&typed("u64", Json::Signed(-5))), None);
    assert_eq!(Value::from_json(&typed("u32", Json::Unsigned(1 << 32))), None);
    assert_eq!(Value::from_json(&typed("s32", Json::Unsigned(1 << 31))), None);
    assert_eq!(Value::from_json(&typed("s64", Json::Unsigned(1 << 63))), None);
    assert_eq!(Value::from_json(&typed("u64", Json::Fraction)), None);
    assert_eq!(Value::from_json(&typed("u64", text("5"))), None);
    assert_eq!(Value::from_json(&typed("str", Json::Unsigned(5))), None);
    assert_eq!(Value::from_json(&typed("f64", Json::Unsigned(5))), None);
    assert_eq!(Value::from_json(&typed("", Json::Unsigned(5))), None);
    assert_eq!(Value::from_json(&object(vec![("type", text("u32"))])), None);
    assert_eq!(Value::from_json(&object(vec![("value", Json::Unsigned(5))])), None);
    assert_eq!(Value::from_json(&Json::Unsigned(5)), None);
}

#[test]
fn entries_need_all_their_members() {
    let field = object(vec![("name", text("Pid")), ("pos", Json::Unsigned(4))]);
    let tags = object(vec![
        ("nature", text("Key")),
        ("origin", text("Status")),
        ("scope", text("Process")),
    ]);
    let members = |skip: &str| {
        let all = vec![
            ("field", object(vec![("name", text("Pid")), ("pos", Json::Unsigned(4))])),
            ("processNum", Json::Unsigned(1)),
            (
                "tags",
                object(vec![
                    ("nature", text("Key")),
                    ("origin", text("Status")),
                    ("scope", text("Process")),
                ]),
            ),
            ("value", typed("u32", Json::Unsigned(8))),
            ("extra", Json::Null),
        ];
        object(all.into_iter().filter(|(k, _)| *k != skip).collect())
    };
    assert_eq!(
        Entry::from_json(&members("extra")),
        Some(Entry {
            field: Field { pos: 4, name: "Pid".to_string() },
            process_num: 1,
            tags: Tags {
                origin: "Status".to_string(),
                nature: "Key".to_string(),
                scope: "Process".to_string(),
            },
            value: Value::U32(8),
        })
    );
    assert_eq!(Entry::from_json(&members("")), Entry::from_json(&members("extra")));
    for missing in ["field", "processNum", "tags", "value"] {
        assert_eq!(Entry::from_json(&members(missing)), None, "{}", missing);
    }
    assert_eq!(
        Field::from_json(&field),
        Some(Field { pos: 4, name: "Pid".to_string() })
    );
    assert_eq!(Field::from_json(&tags), None);
    assert!(Tags::from_json(&tags).is_some());
    assert_eq!(Tags::from_json(&field), None);
    assert_eq!(Tags::from_json(&Json::Null), None);
}

#[test]
fn states_keep_what_they_do_not_know() {
    assert_eq!(Status::from_text("UP".to_string()), Status::UP);
    assert_eq!(Status::from_text("DOWN".to_string()), Status::DOWN);
    assert_eq!(Status::from_text("OPEN".to_string()), Status::OPEN);
    for other in ["", "up", "UP 1/2", "MAINT", "NOLB", "no check", " UP"] {
        assert_eq!(Status::from_text(other.to_string()), Status::Other(other.to_string()));
        assert_eq!(Status::from_text(other.to_string()).as_str(), other);
    }
    assert_eq!(Status::UP.as_str(), "UP");
    assert_eq!(Status::DOWN.as_str(), "DOWN");
    assert_eq!(Status::OPEN.as_str(), "OPEN");

    let known = [
        ("L4TOUT", CheckStatus::L4TOUT),
        ("* L4TOUT", CheckStatus::LastL4TOUT),
        ("L4CON", CheckStatus::L4CON),
        ("* L4CON", CheckStatus::LastL4CON),
        ("L7OK", CheckStatus::L7OK),
        ("* L7OK", CheckStatus::LastL7OK),
    ];
    for (text, status) in known {
        assert_eq!(CheckStatus::from_text(text.to_string()), status);
        assert_eq!(status.as_str(), text);
    }
    for other in ["", "L4OK", "*L7OK", "* L7STS", "l7ok", "L7OK "] {
        assert_eq!(
            CheckStatus::from_text(other.to_string()),
            CheckStatus::Other(other.to_string())
        );
    }
}

#[test]
fn discriminants_name_roles() {
    assert_eq!(Role::from_tag("0"), Some(Role::Frontend));
    assert_eq!(Role::from_tag("1"), Some(Role::Backend));
    assert_eq!(Role::from_tag("2"), Some(Role::Server));
    assert_eq!(Role::from_tag("3"), Some(Role::Listener));
    for other in ["", "4", "9", "00", "+0", "0 ", "-1", "frontend", "0x0"] {
        assert_eq!(Role::from_tag(other), None, "{:?}", other);
    }
}

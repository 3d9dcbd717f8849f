use lambda_chaos_extension::identity::{format_caller_identity, OutputType};

#[test]
fn get_caller_identity_test() {
    let cases = [
        (OutputType::String, "AccountId = account\nUserARN = arn\n"),
        (OutputType::Json, "{\"UserARN\":\"arn\",\"accountId\":\"account\"}\n"),
    ];
    for (input, expected) in cases {
        let result = format_caller_identity(Some("account"), Some("arn"), input);
        assert_eq!(&result, &expected.to_string());
    }
}

#[test]
fn missing_fields_print_empty() {
    assert_eq!(
        format_caller_identity(None, None, OutputType::String),
        "AccountId = \nUserARN = \n"
    );
    assert_eq!(
        format_caller_identity(None, Some("arn"), OutputType::Json),
        "{\"UserARN\":\"arn\",\"accountId\":\"\"}\n"
    );
}

#[test]
fn json_report_escapes_strings() {
    let out = format_caller_identity(
        Some("12\"3"),
        Some("a\\b\n\t\u{1}é"),
        OutputType::Json,
    );
    assert_eq!(
        out,
        "{\"UserARN\":\"a\\\\b\\n\\t\\u0001é\",\"accountId\":\"12\\\"3\"}\n"
    );
}

#[test]
fn json_report_matches_serde_json() {
    let account = "0123\u{1f}\u{8}\u{c}\r";
    let arn = "arn:aws:iam::0123:user/\"x\"";
    let out = format_caller_identity(Some(account), Some(arn), OutputType::Json);
    let value: serde_json::Value = serde_json::from_str(out.trim_end()).unwrap();
    assert_eq!(value["accountId"], account);
    assert_eq!(value["UserARN"], arn);
    let mut map = serde_json::Map::new();
    map.insert("accountId".to_string(), serde_json::Value::String(account.to_string()));
    map.insert("UserARN".to_string(), serde_json::Value::String(arn.to_string()));
    assert_eq!(out, format!("{}\n", serde_json::Value::Object(map)));
}

use measured_policy::device_policy::load_from_bytes;
use measured_policy::device_policy::DeviceIdRange;
use measured_policy::device_policy::DevicePolicy;
use measured_policy::device_policy::DevicePolicyError;
use measured_policy::device_policy::PolicyRule;
use measured_policy::framework::MeasuredPolicy;
use measured_policy::json::cut_value;
use measured_policy::json::opens_object;
use measured_policy::json::read_items;
use measured_policy::message::decimal_text;
use measured_policy::record::read_fields;
use measured_policy::record::read_listed_fields;
use measured_policy::schema::assemble_policy;
use measured_policy::schema::assemble_range;
use measured_policy::schema::assemble_rule;
use measured_policy::schema::decode_policy;

fn rules(json: &str) -> Vec<PolicyRule> {
    DevicePolicy::parse(json.as_bytes()).unwrap().rules
}

fn one_rule(json: &str) -> PolicyRule {
    let all = rules(&format!("{{\"version\":1,\"rules\":[{json}]}}"));
    assert_eq!(all.len(), 1);
    all[0]
}

fn refused(json: &str) {
    assert!(
        matches!(
            DevicePolicy::parse(json.as_bytes()),
            Err(DevicePolicyError::Parse(_))
        ),
        "{json}"
    );
}

fn refused_rule(json: &str) {
    refused(&format!("{{\"version\":1,\"rules\":[{json}]}}"));
}

#[test]
fn reads_every_field() {
    let rule = one_rule(
        r#"{"vendor_id":1,"device_id":{"start":2,"end":3},"revision_id":4,"prog_if":5,
            "sub_class":6,"base_class":7,"sub_vendor_id":8,"sub_system_id":65535}"#,
    );
    assert_eq!(
        rule,
        PolicyRule {
            vendor_id: Some(1),
            device_id: Some(DeviceIdRange::inclusive(2, 3)),
            revision_id: Some(4),
            prog_if: Some(5),
            sub_class: Some(6),
            base_class: Some(7),
            sub_vendor_id: Some(8),
            sub_system_id: Some(65535),
        }
    );
}

#[test]
fn records_may_be_arrays() {
    let policy = DevicePolicy::parse(b" [ 1 , [ [4318, [2, 3], null, null, 2, 3] , [] ] ] ").unwrap();
    assert_eq!(policy.version, 1);
    assert_eq!(policy.rules.len(), 2);
    assert_eq!(policy.rules[0].vendor_id, Some(4318));
    assert_eq!(policy.rules[0].device_id, Some(DeviceIdRange::inclusive(2, 3)));
    assert_eq!(policy.rules[0].revision_id, None);
    assert_eq!(policy.rules[0].sub_class, Some(2));
    assert_eq!(policy.rules[0].base_class, Some(3));
    assert_eq!(policy.rules[0].sub_vendor_id, None);
    assert_eq!(policy.rules[1], one_rule("{}"));
    refused("[1]");
    refused("[]");
    refused("[1,[],2]");
    refused("[1,[],]");
    refused_rule("[1,null,3,4,5,6,7,8,9]");
    assert_eq!(one_rule("[1,null,3,4,5,6,7,8]").sub_system_id, Some(8));
    refused_rule(r#"{"device_id":[1,2,3]}"#);
}

#[test]
fn unset_fields() {
    assert_eq!(one_rule(r#"{"vendor_id":null,"device_id":null,"prog_if":null}"#), one_rule("{}"));
    assert_eq!(
        one_rule(r#"{"device_id":{}}"#).device_id,
        Some(DeviceIdRange::any())
    );
    assert_eq!(
        one_rule(r#"{"device_id":{"start":7,"end":null}}"#).device_id,
        Some(DeviceIdRange { start: Some(7), end: None })
    );
    refused(r#"{"version":1}"#);
    refused(r#"{"rules":[]}"#);
    refused(r#"{"version":null,"rules":[]}"#);
    refused(r#"{"version":1,"rules":null}"#);
    refused(r#"{"version":1,"rules":{}}"#);
    refused_rule("null");
}

#[test]
fn other_members_are_passed_over() {
    let json = r#"{"note":{"deep":["x",-1.5e3,true]},"version":1,"note":[],"rules":[{"x":"\ud83d\ude00"}]}"#;
    assert_eq!(rules(json).len(), 1);
    refused(r#"{"version":1,"rules":[],"note":}"#);
    refused(r#"{"version":1,"rules":[],"note":tru}"#);
}

#[test]
fn fields_given_twice_are_refused() {
    refused(r#"{"version":1,"version":1,"rules":[]}"#);
    refused(r#"{"version":1,"rules":[],"rules":[]}"#);
    refused_rule(r#"{"vendor_id":null,"vendor_id":4318}"#);
    refused_rule(r#"{"device_id":{"start":1,"start":1}}"#);
}

#[test]
fn keys_may_be_escaped() {
    assert_eq!(one_rule(r#"{"vendor\u005fid":4318}"#).vendor_id, Some(4318));
    assert_eq!(one_rule(r#"{"Vendor_id":4318}"#).vendor_id, None);
    refused_rule(r#"{"\ud800":1}"#);
    refused_rule(r#"{vendor_id:1}"#);
    refused_rule(r#"{1:1}"#);
}

#[test]
fn numbers_must_fit() {
    assert_eq!(one_rule(r#"{"vendor_id":0,"prog_if":255}"#).prog_if, Some(255));
    refused_rule(r#"{"vendor_id":65536}"#);
    refused_rule(r#"{"prog_if":256}"#);
    refused_rule(r#"{"vendor_id":-1}"#);
    refused_rule(r#"{"vendor_id":-0}"#);
    refused_rule(r#"{"vendor_id":01}"#);
    refused_rule(r#"{"vendor_id":1.0}"#);
    refused_rule(r#"{"vendor_id":1e2}"#);
    refused_rule(r#"{"vendor_id":"1"}"#);
    refused_rule(r#"{"vendor_id":true}"#);
    refused_rule(r#"{"vendor_id":99999999999999999999999999}"#);
    refused(r#"{"version":4294967296,"rules":[]}"#);
    let policy = DevicePolicy::parse(br#"{"version":4294967295,"rules":[]}"#).unwrap();
    assert_eq!(policy.version, u32::MAX);
}

#[test]
fn stray_characters_are_refused() {
    for json in [
        r#"{"version":1,"rules":[]}x"#,
        r#"{"version":1,"rules":[]}}"#,
        r#"{"version":1,"rules":[],}"#,
        r#"{,"version":1,"rules":[]}"#,
        r#"{"version":1 "rules":[]}"#,
        r#"{"version" 1,"rules":[]}"#,
        r#"{"version"::1,"rules":[]}"#,
        r#"{"version":1,,"rules":[]}"#,
        r#"{"version":1x,"rules":[]}"#,
        r#"{"version":1,"rules":[{},]}"#,
        r#"{"version":1,"rules":[,{}]}"#,
        r#"{"version":1,"rules":[{}{}]}"#,
        r#"{"version":1,"rules":[{}]"#,
        r#"{"version":1,"rules":[{]}"#,
        r#"{"version":1,"rules":[}]}"#,
        "{",
        "[",
        "1",
        "null",
        "\u{feff}{}",
    ] {
        refused(json);
    }
    let spaced = " \t\r\n{ \"version\" \n:\t1 , \"rules\" : [ { } , { } ] } \r\n";
    assert_eq!(rules(spaced).len(), 2);
}

#[test]
fn parse_errors_carry_a_reason() {
    let reason = |bytes: &[u8]| match DevicePolicy::parse(bytes) {
        Err(DevicePolicyError::Parse(text)) => text,
        _ => panic!("should not parse"),
    };
    assert_eq!(reason(b""), "EOF while parsing a value at line 1 column 0");
    assert_eq!(reason(b"not json"), "expected ident at line 1 column 2");
    assert_eq!(reason(b"{}"), "the document does not follow the device policy schema");
}

#[test]
fn decode_agrees_with_parse() {
    let json = br#"{"version":7,"rules":[{"base_class":3}]}"#;
    assert_eq!(decode_policy(json).unwrap(), DevicePolicy::parse(json).unwrap());
    assert!(decode_policy(b"{}").is_none());
    assert!(matches!(
        load_from_bytes(json),
        Err(DevicePolicyError::UnsupportedVersion(7))
    ));
}

#[test]
fn items_come_in_order() {
    let items = read_items(br#" {"b": 1 , "a":[2, 3],"b":"x"} "#, true).unwrap();
    let keys: Vec<_> = items.iter().map(|item| item.key.clone().unwrap()).collect();
    let values: Vec<_> = items.iter().map(|item| item.value).collect();
    assert_eq!(keys, ["b", "a", "b"]);
    assert_eq!(values, [&b"1"[..], &b"[2, 3]"[..], &b"\"x\""[..]]);
    let items = read_items(b"[true,{}]", false).unwrap();
    assert_eq!(items.len(), 2);
    assert!(items[0].key.is_none());
    assert_eq!(items[0].value, b"true");
    assert!(read_items(b"[]", true).is_none());
    assert!(read_items(b"{}", false).is_none());
    assert!(read_items(b"[ ]", false).unwrap().is_empty());
    assert!(opens_object(b" {") && !opens_object(b"[") && !opens_object(b""));
}

#[test]
fn values_are_cut_off() {
    let text = b"12 , 3";
    assert_eq!(cut_value(text, 0, Some(2)), Some((&b"12"[..], 3)));
    assert_eq!(cut_value(text, 5, Some(1)), Some((&b"3"[..], 6)));
    assert_eq!(cut_value(text, 5, Some(2)), None);
    assert_eq!(cut_value(text, 0, None), None);
}

#[test]
fn fields_follow_their_names() {
    let names = vec!["a".to_string(), "b".to_string()];
    let found = read_fields(br#"{"b":2,"c":3}"#, &names).unwrap();
    assert_eq!(found, [None, Some(&b"2"[..])]);
    let found = read_fields(b"[1]", &names).unwrap();
    assert_eq!(found, [Some(&b"1"[..]), None]);
    assert!(read_fields(b"[1,2,3]", &names).is_none());
    assert!(read_fields(b"7", &names).is_none());
    let elements = read_items(b"[1,2]", false).unwrap();
    assert_eq!(read_listed_fields(&elements, 3).unwrap().len(), 3);
    assert!(read_listed_fields(&elements, 1).is_none());
}

#[test]
fn parts_are_assembled() {
    let range = assemble_range(&vec![Some(&b"5"[..]), None]);
    assert_eq!(range, Some(DeviceIdRange { start: Some(5), end: None }));
    assert_eq!(assemble_range(&vec![Some(&b"x"[..]), None]), None);
    let mut fields = vec![None; 8];
    fields[0] = Some(&b"4318"[..]);
    fields[1] = Some(&b"null"[..]);
    let rule = assemble_rule(&fields).unwrap();
    assert_eq!((rule.vendor_id, rule.device_id), (Some(4318), None));
    fields[7] = Some(&b"65536"[..]);
    assert_eq!(assemble_rule(&fields), None);
    let policy = assemble_policy(&vec![Some(&b"1"[..]), Some(&b"[{}]"[..])]).unwrap();
    assert_eq!((policy.version, policy.rules.len()), (1, 1));
    assert!(assemble_policy(&vec![None, Some(&b"[]"[..])]).is_none());
}

#[test]
fn decimals() {
    assert_eq!(decimal_text(0), "0");
    assert_eq!(decimal_text(9), "9");
    assert_eq!(decimal_text(10), "10");
    assert_eq!(decimal_text(1203), "1203");
    assert_eq!(decimal_text(u64::MAX), "18446744073709551615");
}

fn scalar<T: serde::Serialize>(value: Option<T>) -> String {
    serde_json::to_string(&value).unwrap()
}

fn encode_rule(rule: &PolicyRule) -> String {
    let device_id = match rule.device_id {
        Some(range) => format!(
            "{{\"start\":{},\"end\":{}}}",
            scalar(range.start),
            scalar(range.end)
        ),
        None => "null".to_string(),
    };
    format!(
        "{{\"vendor_id\":{},\"device_id\":{},\"revision_id\":{},\"prog_if\":{},\
         \"sub_class\":{},\"base_class\":{},\"sub_vendor_id\":{},\"sub_system_id\":{}}}",
        scalar(rule.vendor_id),
        device_id,
        scalar(rule.revision_id),
        scalar(rule.prog_if),
        scalar(rule.sub_class),
        scalar(rule.base_class),
        scalar(rule.sub_vendor_id),
        scalar(rule.sub_system_id)
    )
}

fn encode(policy: &DevicePolicy) -> String {
    let rules: Vec<String> = policy.rules.iter().map(encode_rule).collect();
    format!(
        "{{\"version\":{},\"rules\":[{}]}}",
        scalar(Some(policy.version)),
        rules.join(",")
    )
}

fn sample_rules() -> Vec<PolicyRule> {
    let unset = one_rule("{}");
    vec![
        unset,
        PolicyRule { vendor_id: Some(0), prog_if: Some(0), ..unset },
        PolicyRule { device_id: Some(DeviceIdRange::any()), ..unset },
        PolicyRule { device_id: Some(DeviceIdRange::inclusive(65535, 10)), ..unset },
        PolicyRule {
            vendor_id: Some(4318),
            device_id: Some(DeviceIdRange { start: None, end: Some(9) }),
            revision_id: Some(255),
            prog_if: Some(10),
            sub_class: Some(128),
            base_class: Some(6),
            sub_vendor_id: Some(65535),
            sub_system_id: Some(1),
        },
    ]
}

#[test]
fn what_was_written_reads_back() {
    let all = sample_rules();
    for version in [0, 1, 10, u32::MAX] {
        for count in 0..=all.len() {
            let policy = DevicePolicy { version, rules: all[..count].to_vec() };
            let bytes = encode(&policy);
            assert_eq!(DevicePolicy::parse(bytes.as_bytes()).unwrap(), policy);
        }
    }
    let empty = DevicePolicy { version: 1, rules: Vec::new() };
    assert_eq!(encode(&empty), r#"{"version":1,"rules":[]}"#);
    assert_eq!(load_from_bytes(encode(&empty).as_bytes()).unwrap(), empty);
}

// Through serde_json's own tree and writer, whatever order it gives the members.
#[test]
fn what_serde_json_writes_reads_back() {
    let policy = DevicePolicy { version: 1, rules: sample_rules() };
    let tree: serde_json::Value = serde_json::from_str(&encode(&policy)).unwrap();
    for bytes in [serde_json::to_vec(&tree).unwrap(), serde_json::to_vec_pretty(&tree).unwrap()] {
        assert_eq!(DevicePolicy::parse(&bytes).unwrap(), policy);
    }
}

// The same tokens, with whitespace of every kind between them or none.
#[test]
fn whitespace_and_order_do_not_matter() {
    let tokens = [
        "{", "\"note\"", ":", "[", "]", ",", "\"rules\"", ":", "[", "{", "\"base_class\"", ":", "3",
        ",", "\"device_id\"", ":", "{", "\"end\"", ":", "9", "}", ",", "\"vendor_id\"", ":", "4318",
        "}", ",", "{", "}", ",", "{", "\"device_id\"", ":", "null", ",", "\"x\"", ":", "true", ",",
        "\"y\"", ":", "false", "}", "]", ",", "\"version\"", ":", "1", "}",
    ];
    let unset = one_rule("{}");
    let expected = DevicePolicy {
        version: 1,
        rules: vec![
            PolicyRule {
                vendor_id: Some(4318),
                device_id: Some(DeviceIdRange { start: None, end: Some(9) }),
                base_class: Some(3),
                ..unset
            },
            unset,
            unset,
        ],
    };
    for gap in ["", " ", "\n", "\t", "\r", " \r\n\t "] {
        let text = format!("{gap}{}{gap}", tokens.join(gap));
        assert_eq!(DevicePolicy::parse(text.as_bytes()).unwrap(), expected);
    }
}

#[test]
fn documents_that_are_no_policy_are_refused_however_laid_out() {
    for gap in ["", " ", "\n\t"] {
        refused(&format!("{gap}null{gap}"));
        refused(&format!("{gap}true{gap}"));
        refused(&format!("{gap}\"version\"{gap}"));
        refused(&format!("{{{gap}}}"));
        refused(&format!("{{\"version\"{gap}:{gap}65536{gap}}}"));
        refused(&format!("{{\"version\":1,\"rules\":{gap}[{gap}65536{gap}]}}"));
        refused(&format!("{{\"version\":{gap}true{gap},\"rules\":[]}}"));
        refused_rule(&format!("{{\"vendor_id\"{gap}:{gap}65536{gap}}}"));
        refused_rule(&format!("{{\"device_id\"{gap}:{gap}false{gap}}}"));
    }
}

#[test]
fn null_may_have_whitespace_around_it() {
    let null: &[u8] = b" \t\r\nnull \n";
    let fields: Vec<Option<&[u8]>> = vec![Some(null); 8];
    assert_eq!(assemble_rule(&fields), Some(one_rule("{}")));
    let mut fields: Vec<Option<&[u8]>> = vec![None; 8];
    for refusal in [&b" nul "[..], b" null x", b"nullnull", b" ", b"", b"Null", b"nuLl"] {
        fields[1] = Some(refusal);
        assert_eq!(assemble_rule(&fields), None);
    }
    fields[1] = Some(b" { } ");
    assert_eq!(assemble_rule(&fields).unwrap().device_id, Some(DeviceIdRange::any()));
}

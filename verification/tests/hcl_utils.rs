use malbox::hcl_tree::{ExprKind, TreeAttr, TreeBlock, TreeBody, TreeExpr, TreeItem};
use malbox::hcl_utils::{
    expression_to_hcl_value, extract_block_attributes, extract_bool, extract_enum_validation, extract_string,
    extract_string_array, find_attr, non_empty_string, parse, parse_document, string_matches_pattern,
    BlockValidator, BodyRule, BodyValidator, HclError, HclExtractor, HclParser, HclValidator, HclValue,
};

const DOC: &str = r#"
name    = "lab"
enabled = true
count   = 3
tags    = ["a", "b"]

machine "vm" "win10" {
  memory = 4096
  image  = "win10.qcow2"
  disk {
    size = 40
  }
}

machine "vm" "ubuntu" {
  memory = 2048
}
"#;

fn other(text: &str) -> TreeExpr {
    TreeExpr { kind: ExprKind::Other, text: text.to_string(), debug: format!("Other({})", text) }
}

fn string(s: &str) -> TreeExpr {
    TreeExpr { kind: ExprKind::Str(s.to_string()), text: format!("\"{}\"", s), debug: format!("String({:?})", s) }
}

fn block(items: Vec<TreeItem>) -> TreeBlock {
    TreeBlock { identifier: "machine".to_string(), labels: vec!["vm".to_string()], body: TreeBody { structures: items } }
}

fn attr(k: &str, e: TreeExpr) -> TreeItem {
    TreeItem::Attribute(TreeAttr { key: k.to_string(), expr: e })
}

#[test]
fn strings_and_flags_of_expressions() {
    assert_eq!(extract_string(&string("x")), Some("x".to_string()));
    assert_eq!(extract_string(&other("\"${a}\"")), Some("${a}".to_string()));
    assert_eq!(extract_string(&other("\"")), None);
    assert_eq!(extract_string(&other("var.a")), None);
    assert_eq!(extract_bool(&other("true")), Some(true));
    assert_eq!(extract_bool(&other("false")), Some(false));
    assert_eq!(extract_bool(&other("yes")), None);
    assert!(non_empty_string(&string("a")));
    assert!(!non_empty_string(&string("")));
    assert!(!non_empty_string(&other("a")));
    assert!(string_matches_pattern("10", &string("win10")));
    assert!(!string_matches_pattern("11", &string("win10")));
}

#[test]
fn a_parsed_document() {
    let d = parse_document(DOC).unwrap();
    assert_eq!(d.attributes.len(), 4);
    assert!(matches!(&d.attributes[0], (k, HclValue::String(v)) if k == "name" && v == "lab"));
    assert!(matches!(&d.attributes[1], (k, HclValue::Bool(true)) if k == "enabled"));
    assert!(matches!(&d.attributes[2].1, HclValue::Number(n) if n == "3"));
    match &d.attributes[3].1 {
        HclValue::Array(xs) => assert_eq!(xs.len(), 2),
        other => panic!("{:?}", other),
    }
    assert_eq!(d.blocks.len(), 2);
    assert_eq!(d.blocks[0].identifier, "machine");
    assert_eq!(d.blocks[0].labels, vec!["vm".to_string(), "win10".to_string()]);
    assert_eq!(d.blocks[0].nested_blocks.len(), 1);
    assert_eq!(d.blocks[0].nested_blocks[0].identifier, "disk");
    assert!(matches!(parse_document("x = "), Err(HclError::ParseError(_))));
    assert!(matches!(parse("{"), Err(HclError::ParseError(_))));
}

#[test]
fn the_parser_finds_blocks_and_attributes() {
    let mut p = HclParser::new(DOC.to_string());
    assert_eq!(p.get_blocks("machine").unwrap().len(), 2);
    assert!(p.get_blocks("network").unwrap().is_empty());
    let attrs = p.get_attributes().unwrap();
    let keys: Vec<&str> = attrs.iter().map(|(k, _)| k.as_str()).collect();
    assert_eq!(keys, vec!["name", "enabled", "count", "tags"]);
    let b = p.find_block("machine", &["vm", "ubuntu"]).unwrap().unwrap();
    assert_eq!(b.labels[1], "ubuntu");
    assert!(p.find_block("machine", &["vm"]).unwrap().is_none());
    let mut bad = HclParser::new("a = ".to_string());
    assert!(matches!(bad.parse(), Err(HclError::ParseError(_))));
}

#[test]
fn values_of_expressions() {
    let v = expression_to_hcl_value(&other("var.x")).unwrap();
    assert!(matches!(v, HclValue::String(s) if s == "var.x"));
    let arr = TreeExpr {
        kind: ExprKind::Array(vec![string("a"), TreeExpr { kind: ExprKind::Null, text: "null".to_string(), debug: String::new() }]),
        text: String::new(),
        debug: String::new(),
    };
    let v = expression_to_hcl_value(&arr).unwrap();
    let xs = v.as_array().unwrap();
    assert_eq!(xs[0].as_string().map(|s| s.as_str()), Some("a"));
    assert!(matches!(xs[1], HclValue::Null));
    assert!(v.as_string().is_none() && v.as_bool().is_none() && v.as_number().is_none() && v.as_object().is_none());
    let obj = TreeExpr {
        kind: ExprKind::Object(vec![("k".to_string(), string("1")), ("k".to_string(), string("2"))]),
        text: String::new(),
        debug: String::new(),
    };
    let v = expression_to_hcl_value(&obj).unwrap();
    let o = v.as_object().unwrap();
    assert_eq!(o.len(), 1);
    assert_eq!(o[0].1.as_string().map(|s| s.as_str()), Some("2"));
}

#[test]
fn string_arrays() {
    let ok = TreeExpr { kind: ExprKind::Array(vec![string("a"), other("\"b\"")]), text: String::new(), debug: String::new() };
    assert_eq!(extract_string_array(&ok).unwrap(), vec!["a".to_string(), "b".to_string()]);
    let bad = TreeExpr { kind: ExprKind::Array(vec![string("a"), other("1")]), text: String::new(), debug: String::new() };
    match extract_string_array(&bad) {
        Err(HclError::TypeMismatch { expected, actual }) => {
            assert_eq!(expected, "string");
            assert_eq!(actual, "Other(1)");
        }
        other => panic!("{:?}", other),
    }
    match extract_string_array(&other("x")) {
        Err(HclError::TypeMismatch { expected, actual }) => {
            assert_eq!(expected, "array");
            assert_eq!(actual, "x");
        }
        other => panic!("{:?}", other),
    }
}

#[test]
fn enum_validation_and_block_attributes() {
    let a = TreeAttr { key: "validation".to_string(), expr: other("contains([\"x\", \"y\"], var.v)") };
    assert_eq!(extract_enum_validation(&a), Some(vec!["x".to_string(), "y".to_string()]));
    assert_eq!(extract_enum_validation(&TreeAttr { key: "v".to_string(), expr: other("true") }), None);
    let b = block(vec![attr("a", string("1")), attr("b", other("true")), attr("a", string("2"))]);
    let attrs = extract_block_attributes(&b);
    assert_eq!(attrs.len(), 2);
    assert!(matches!(&attrs[0], (k, HclValue::String(v)) if k == "a" && v == "2"));
    assert_eq!(find_attr(&b.body, "b").unwrap().expr.text, "true");
    assert!(find_attr(&b.body, "c").is_none());
}

#[test]
fn the_extractor_reads_typed_values() {
    let b = block(vec![
        attr("name", string("win")),
        attr("on", other("false")),
        attr("list", TreeExpr { kind: ExprKind::Array(vec![string("a")]), text: "[\"a\"]".to_string(), debug: String::new() }),
        attr("count", other("3")),
    ]);
    let x = HclExtractor::new(&b);
    assert_eq!(x.extract_required_string("name").unwrap(), "win");
    assert!(!x.extract_required_bool("on").unwrap());
    assert_eq!(x.extract_required_strings("list").unwrap(), vec!["a".to_string()]);
    assert!(matches!(x.extract_required_string("missing"), Err(HclError::MissingField(k)) if k == "missing"));
    match x.extract_required_bool("count") {
        Err(HclError::TypeMismatch { expected, actual }) => {
            assert_eq!(expected, "boolean");
            assert_eq!(actual, "3");
        }
        other => panic!("{:?}", other),
    }
    assert_eq!(x.extract_optional_string("missing").unwrap(), None);
    assert_eq!(x.extract_optional_bool("on").unwrap(), Some(false));
    assert!(x.extract_optional_string("count").is_err());
    assert_eq!(x.extract_with_default_string("missing", "d".to_string()), "d");
    assert_eq!(x.extract_with_default_string("count", "d".to_string()), "d");
    assert_eq!(x.extract_with_default_string("name", "d".to_string()), "win");
    assert!(x.extract_with_default_bool("missing", true));
}

#[test]
fn validators_report_the_first_failure() {
    let body = parse(DOC).unwrap();
    let v = BodyValidator::new(&body).require_blocks(&["machine"]).require_attributes(&["name", "count"]);
    assert!(v.validate().is_ok());
    assert!(HclValidator::validate(&v).is_ok());
    let v = BodyValidator::new(&body)
        .require_attributes(&["name", "owner"])
        .add_rule(BodyRule::RequiredBlocks(vec!["network".to_string()]));
    assert!(matches!(v.validate(), Err(HclError::MissingField(m)) if m == "attribute 'owner'"));
    let v = BodyValidator::new(&body).require_blocks(&["machine", "network"]);
    assert!(matches!(v.validate(), Err(HclError::MissingField(m)) if m == "block 'network'"));

    let b = block(vec![attr("image", string("")), attr("memory", other("1"))]);
    let bv = BlockValidator::new(&b);
    assert!(bv.validate_label_count(1).is_ok());
    assert!(matches!(bv.validate_label_count(2), Err(HclError::ValidationError(m))
        if m == "Block 'machine' expected 2 labels, got 1"));
    assert!(bv.validate_required_attributes(&["image", "memory"]).is_ok());
    assert!(matches!(bv.validate_required_attributes(&["image", "cpus"]), Err(HclError::MissingField(m))
        if m == "Block 'machine' missing required attribute 'cpus'"));
    assert!(bv.validate_attribute("memory", |_| true).is_ok());
    assert!(matches!(bv.validate_attribute("image", non_empty_string), Err(HclError::ValidationError(m))
        if m == "Attribute 'image' in block 'machine' failed validation"));
    assert!(matches!(bv.validate_attribute("cpus", |_| true), Err(HclError::MissingField(k)) if k == "cpus"));
}

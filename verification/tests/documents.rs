use xml_decode::de::document::from_str;
use xml_decode::shape::{Field, IntKind, Shape, Value, Variant, VariantKind};

fn field(name: &str, shape: Shape) -> Field {
    Field { name: name.to_string(), shape }
}

fn unit(name: &str) -> Variant {
    Variant { name: name.to_string(), kind: VariantKind::Unit }
}

fn units(names: &[&str]) -> Shape {
    Shape::Union(names.iter().map(|n| unit(n)).collect())
}

fn record(entries: Vec<(&str, Value)>) -> Value {
    Value::Record(entries.into_iter().map(|(k, v)| (k.to_string(), v)).collect())
}

fn text(s: &str) -> Value {
    Value::Text(s.to_string())
}

fn variant(name: &str, payload: Value) -> Value {
    Value::Variant(name.to_string(), Box::new(payload))
}

#[test]
fn one_element() {
    let shape = Shape::Record(vec![field("value", Shape::Text)]);
    let expected = record(vec![("value", text("plain text"))]);

    let input = r"<document><value>plain text</value></document>";

    let actual = from_str(input, &shape).unwrap();

    assert_eq!(expected, actual);
}

#[test]
fn nested_elements() {
    let inner = Shape::Record(vec![field("value", Shape::Text)]);
    let shape = Shape::Record(vec![field("inner", inner)]);
    let expected = record(vec![("inner", record(vec![("value", text("plain text"))]))]);

    let input = r"
        <document>
            <inner>
                <value>plain text</value>
            </inner>
        </document>";

    let actual = from_str(input, &shape).unwrap();

    assert_eq!(expected, actual);
}

#[test]
fn multiple_elements() {
    let shape = Shape::Record(vec![field("first", Shape::Text), field("second", Shape::Text)]);
    let expected = record(vec![("first", text("plain text")), ("second", text("more text"))]);

    let input = r"
        <document>
            <first>plain text</first>
            <second>more text</second>
        </document>";

    let actual = from_str(input, &shape).unwrap();

    assert_eq!(expected, actual);
}

#[test]
fn unit_variant() {
    let abc = units(&["a", "b", "c"]);
    let shape = Shape::Record(vec![field("content", abc)]);
    let expected = record(vec![("content", variant("a", Value::Unit))]);

    let input = r"
        <document>
            <content>a</content>
        </document>";

    let actual = from_str(input, &shape).unwrap();

    assert_eq!(expected, actual);
}

#[test]
fn struct_variant() {
    let suit = units(&["cLUBS", "dIAMONDS", "hEARTS", "sPADES"]);
    let rank = units(&[
        "aCE", "tWO", "tHREE", "fOUR", "fIVE", "sIX", "sEVEN", "eIGHT", "nINE", "tEN", "jACK",
        "kNIGHT", "qUEEN", "kING",
    ]);
    let card = Shape::Union(vec![
        Variant {
            name: "trump".to_string(),
            kind: VariantKind::Record(vec![field("number", Shape::Integer(IntKind::U8))]),
        },
        unit("fool"),
        Variant {
            name: "suited".to_string(),
            kind: VariantKind::Record(vec![field("suit", suit), field("rank", rank)]),
        },
    ]);
    let shape = Shape::Record(vec![field("content", card)]);
    let expected = record(vec![(
        "content",
        variant("trump", record(vec![("number", Value::Integer(IntKind::U8, 21))])),
    )]);

    let input = r"
        <document>
            <content><trump><number>21</number></trump></content>
        </document>";

    let actual = from_str(input, &shape).unwrap();

    assert_eq!(expected, actual);
}

fn value_shape(with_kv: bool) -> Shape {
    let mut variants = vec![
        Variant { name: "i".to_string(), kind: VariantKind::Newtype(Shape::Integer(IntKind::I64)) },
        Variant { name: "f".to_string(), kind: VariantKind::Newtype(Shape::Float) },
        Variant { name: "s".to_string(), kind: VariantKind::Newtype(Shape::Text) },
    ];
    if with_kv {
        variants.push(Variant {
            name: "kv".to_string(),
            kind: VariantKind::Tuple(vec![Shape::Text, Shape::Text]),
        });
    }
    Shape::Union(variants)
}

#[test]
fn newtype_variant() {
    let shape = Shape::Record(vec![field("content", value_shape(false))]);
    let expected = record(vec![("content", variant("i", Value::Integer(IntKind::I64, 42)))]);

    let input = r#"
        <document>
            <content>
                <i>42</i>
            </content>
        </document>
    "#;

    let actual = from_str(input, &shape).unwrap();

    assert_eq!(expected, actual);
}

#[test]
fn tuple_variant() {
    let shape = Shape::Record(vec![field("content", value_shape(true))]);
    let expected = record(vec![(
        "content",
        variant("kv", Value::Tuple(vec![text("abc"), text("123")])),
    )]);

    let input = r#"
        <document>
            <content>
                <kv>abc 123</kv>
            </content>
        </document>
    "#;

    let actual = from_str(input, &shape).unwrap();

    assert_eq!(expected, actual);
}

#[test]
fn tuple_variant_with_one_token_is_a_structural_error() {
    let shape = Shape::Record(vec![field("content", value_shape(true))]);
    let input = "<document><content><kv>abc</kv></content></document>";
    let err = from_str(input, &shape).unwrap_err();
    assert_eq!(err.kind(), xml_decode::error::ErrorKind::Structure);
}

#[test]
fn tuple_variant_with_two_spaces_has_an_empty_token() {
    let shape = Shape::Record(vec![field("content", value_shape(true))]);
    let input = "<document><content><kv>abc  123</kv></content></document>";
    let err = from_str(input, &shape).unwrap_err();
    assert_eq!(err.kind(), xml_decode::error::ErrorKind::Structure);
}

#[test]
fn newtype_variant_carries_text_and_float_text() {
    let shape = Shape::Record(vec![field("content", value_shape(false))]);
    let s = from_str("<document><content><s>hello</s></content></document>", &shape).unwrap();
    assert_eq!(s, record(vec![("content", variant("s", text("hello")))]));
    let f = from_str("<document><content><f>1.5</f></content></document>", &shape).unwrap();
    assert_eq!(f, record(vec![("content", variant("f", Value::Float("1.5".to_string())))]));
}

#[test]
fn unit_variant_as_an_element() {
    let card = Shape::Union(vec![unit("fool")]);
    let shape = Shape::Record(vec![field("content", card)]);
    let v = from_str("<document><content><fool/></content></document>", &shape).unwrap();
    assert_eq!(v, record(vec![("content", variant("fool", Value::Unit))]));
}

#[test]
fn unknown_variant_text_is_a_structural_error() {
    let shape = Shape::Record(vec![field("content", units(&["a", "b", "c"]))]);
    let err = from_str("<document><content>d</content></document>", &shape).unwrap_err();
    assert_eq!(err.kind(), xml_decode::error::ErrorKind::Structure);
    assert_eq!(err.message(), "unknown variant");
}

#[test]
fn attributes_come_before_text_and_children() {
    let shape = Shape::Record(vec![
        field("child", Shape::Integer(IntKind::I32)),
        field(".", Shape::Text),
        field("@name", Shape::Text),
        field("@id", Shape::Integer(IntKind::U16)),
    ]);
    let input = r#"<doc id="7" name="x">body<child>-1</child><child>+2</child></doc>"#;
    let v = from_str(input, &shape).unwrap();
    assert_eq!(
        v,
        record(vec![
            ("@id", Value::Integer(IntKind::U16, 7)),
            ("@name", text("x")),
            (".", text("body")),
            ("child", Value::Integer(IntKind::I32, -1)),
            ("child", Value::Integer(IntKind::I32, 2)),
        ])
    );
}

#[test]
fn a_child_of_the_same_name_as_its_parent_is_closed_once() {
    let inner = Shape::Record(vec![field("b", Shape::Text)]);
    let shape = Shape::Record(vec![field("b", inner), field("c", Shape::Text)]);
    let v = from_str("<a><b><b>x</b></b><c>y</c></a>", &shape).unwrap();
    assert_eq!(v, record(vec![("b", record(vec![("b", text("x"))])), ("c", text("y"))]));
}

#[test]
fn malformed_markup_is_the_tokenizer_error() {
    let shape = Shape::Record(vec![field("value", Shape::Text)]);
    let err = from_str("<document><value>plain text</document>", &shape).unwrap_err();
    assert_eq!(err.kind(), xml_decode::error::ErrorKind::Malformed);
    assert!(matches!(*err.0, xml_decode::error::ErrorImpl::Reader(_)));
    assert!(!err.message().is_empty());
}

#[test]
fn a_structural_error_before_the_malformed_place_comes_first() {
    let shape = Shape::Record(vec![field("value", Shape::Text)]);
    let err = from_str("<document><other>1</other><value>x</document>", &shape).unwrap_err();
    assert_eq!(err.kind(), xml_decode::error::ErrorKind::Structure);
    assert_eq!(err.message(), "unknown field");
}

#[test]
fn a_number_that_does_not_fit_is_a_parse_error() {
    let shape = Shape::Record(vec![field("number", Shape::Integer(IntKind::U8))]);
    let err = from_str("<document><number>256</number></document>", &shape).unwrap_err();
    assert_eq!(err.kind(), xml_decode::error::ErrorKind::ScalarParse);
    match &*err.0 {
        xml_decode::error::ErrorImpl::Scalar { text, kind, .. } => {
            assert_eq!(text, "256");
            assert_eq!(*kind, IntKind::U8);
        }
        other => panic!("{:?}", other),
    }
    assert!(err.message().ends_with(": 256"));
}

#[test]
fn an_empty_element_is_the_empty_text() {
    let shape = Shape::Record(vec![field("u", Shape::Unit), field("t", Shape::Text)]);
    let v = from_str("<document><u></u><t/></document>", &shape).unwrap();
    assert_eq!(v, record(vec![("u", Value::Unit), ("t", text(""))]));
}

#[test]
fn an_optional_value_is_present() {
    let shape = Shape::Record(vec![
        field("@a", Shape::Optional(Box::new(Shape::Bool))),
        field("b", Shape::Optional(Box::new(Shape::Char))),
    ]);
    let v = from_str(r#"<document a="true"><b>z</b></document>"#, &shape).unwrap();
    assert_eq!(
        v,
        record(vec![
            ("@a", Value::Optional(Some(Box::new(Value::Bool(true))))),
            ("b", Value::Optional(Some(Box::new(Value::Char('z'))))),
        ])
    );
}

#[test]
fn a_document_without_a_root_is_an_error() {
    let err = from_str("", &Shape::Text).unwrap_err();
    assert_eq!(err.kind(), xml_decode::error::ErrorKind::Malformed);
}

#[test]
fn a_scalar_root() {
    assert_eq!(from_str("<n>12</n>", &Shape::Integer(IntKind::I8)).unwrap(), Value::Integer(IntKind::I8, 12));
    assert_eq!(from_str("<?xml version=\"1.0\"?><n> hi there </n>", &Shape::Text).unwrap(), text("hi there"));
}

#[test]
fn text_between_children_is_a_structural_error() {
    let shape = Shape::Record(vec![field(".", Shape::Text), field("b", Shape::Text)]);
    let v = from_str("<a>t<b>1</b></a>", &shape).unwrap();
    assert_eq!(v, record(vec![(".", text("t")), ("b", text("1"))]));
    let err = from_str("<a>t<b>1</b>u</a>", &shape).unwrap_err();
    assert_eq!(err.kind(), xml_decode::error::ErrorKind::Structure);
    assert_eq!(err.message(), "expected map key, found Characters");
    let err = from_str("<a><b>1</b>u</a>", &shape).unwrap_err();
    assert_eq!(err.message(), "expected map key, found Characters");
}

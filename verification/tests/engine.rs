use xml_decode::de::document::from_events;
use xml_decode::de::map::MapAccess;
use xml_decode::de::plain::{interpret, interpret_tuple, parse_integer, split_tokens, split_tuple};
use xml_decode::de::value::VariantTag;
use xml_decode::de::Deserializer;
use xml_decode::error::{parse_int, with_message, ErrorImpl, ErrorKind};
use xml_decode::event::{Attribute, Event};
use xml_decode::shape::{
    find_field, find_unit_variant, find_variant, Field, IntKind, Shape, Value, Variant,
    VariantKind,
};
use xml_decode::tokens::tokenize;

fn attr(name: &str, value: &str) -> Attribute {
    Attribute { name: name.to_string(), value: value.to_string() }
}

fn start(name: &str, attributes: Vec<Attribute>) -> Event {
    Event::StartElement { name: name.to_string(), attributes }
}

fn end(name: &str) -> Event {
    Event::EndElement { name: name.to_string() }
}

fn chars(text: &str) -> Event {
    Event::Characters(text.to_string())
}

#[test]
fn tokenize_gives_the_events_in_document_order() {
    let tokens = tokenize(r#"<a x="1" y="2"><!-- c --><b>t</b>  </a>"#);
    assert!(tokens.failure.is_none());
    assert_eq!(
        tokens.events,
        vec![
            Event::StartDocument,
            start("a", vec![attr("x", "1"), attr("y", "2")]),
            start("b", vec![]),
            chars("t"),
            end("b"),
            end("a"),
            Event::EndDocument,
        ]
    );
}

#[test]
fn tokenize_keeps_the_events_before_a_failure() {
    let tokens = tokenize("<a><b></a>");
    assert!(tokens.failure.is_some());
    assert_eq!(tokens.events, vec![Event::StartDocument, start("a", vec![]), start("b", vec![])]);
}

#[test]
fn tokenize_tells_the_other_events_apart() {
    let tokens = tokenize("<?xml version=\"1.0\"?><?pi data?><a><![CDATA[x]]></a>");
    assert_eq!(
        tokens.events,
        vec![
            Event::StartDocument,
            Event::ProcessingInstruction,
            start("a", vec![]),
            Event::CData,
            end("a"),
            Event::EndDocument,
        ]
    );
}

#[test]
fn cursor_peek_does_not_consume() {
    let mut de = Deserializer::new(vec![start("a", vec![]), chars("t"), end("a")]);
    assert_eq!(de.peek().unwrap(), Some(&start("a", vec![])));
    assert_eq!(de.peek().unwrap(), Some(&start("a", vec![])));
    assert_eq!(de.next().unwrap(), start("a", vec![]));
    assert_eq!(de.peek().unwrap(), Some(&chars("t")));
    assert_eq!(de.characters().unwrap(), "t");
    assert_eq!(de.next().unwrap(), end("a"));
    assert_eq!(de.peek().unwrap(), None);
    assert_eq!(de.next().unwrap(), Event::EndDocument);
    assert_eq!(de.next().unwrap(), Event::EndDocument);
}

#[test]
fn cursor_operations_fail_on_another_event_and_leave_it() {
    let mut de = Deserializer::new(vec![chars("t"), start("a", vec![attr("k", "v")]), end("a")]);
    assert_eq!(de.start_tag().unwrap_err().message(), "expected start tag, found Characters");
    assert_eq!(de.end_tag(&"a".to_string()).unwrap_err().kind(), ErrorKind::Structure);
    assert_eq!(de.characters().unwrap(), "t");
    assert_eq!(de.characters().unwrap_err().kind(), ErrorKind::Structure);
    assert_eq!(de.start_tag().unwrap(), ("a".to_string(), vec![attr("k", "v")]));
    assert_eq!(de.end_tag(&"b".to_string()).unwrap_err().kind(), ErrorKind::Structure);
    assert!(de.end_tag(&"a".to_string()).is_ok());
    assert_eq!(de.start_tag().unwrap_err().message(), "expected start tag, found EndDocument");
}

#[test]
fn cursor_shows_the_failure_after_the_last_event() {
    let tokens = tokenize("<a>");
    let mut de = Deserializer::with_failure(tokens.events, tokens.failure);
    assert_eq!(de.next().unwrap(), Event::StartDocument);
    assert_eq!(de.next().unwrap(), start("a", vec![]));
    assert_eq!(de.peek().unwrap_err().kind(), ErrorKind::Malformed);
    assert_eq!(de.next().unwrap_err().kind(), ErrorKind::Malformed);
    assert_eq!(de.characters().unwrap_err().kind(), ErrorKind::Malformed);
}

#[test]
fn reconcile_consumes_only_the_matching_end_tag() {
    let mut de = Deserializer::new(vec![end("b"), end("a")]);
    de.reconcile_end_tag(&"a".to_string());
    assert_eq!(de.peek().unwrap(), Some(&end("b")));
    de.reconcile_end_tag(&"b".to_string());
    assert_eq!(de.peek().unwrap(), Some(&end("a")));
    de.reconcile_end_tag(&"a".to_string());
    assert_eq!(de.peek().unwrap(), None);
    de.reconcile_end_tag(&"a".to_string());
    assert_eq!(de.peek().unwrap(), None);
}

#[test]
fn take_attributes_hands_them_out_once() {
    let mut de = Deserializer::new(vec![]);
    de.open_element("a".to_string(), vec![attr("k", "v")]);
    assert_eq!(de.take_attributes(), vec![attr("k", "v")]);
    assert_eq!(de.take_attributes(), vec![]);
}

#[test]
fn keys_are_attributes_then_text_then_children() {
    let mut de = Deserializer::new(vec![
        chars("body"),
        start("c", vec![]),
        chars("1"),
        end("c"),
        start("d", vec![]),
        end("d"),
        end("root"),
        Event::EndDocument,
    ]);
    let mut map = MapAccess::new(vec![attr("a", "x"), attr("b", "y")]);
    let mut keys = Vec::new();
    let mut values = Vec::new();
    while let Some(key) = map.next_key(&mut de).unwrap() {
        assert!(map.value.is_some() || map.end_tag.is_some());
        keys.push(key);
        values.push(map.next_value(&mut de, &Shape::Text).unwrap());
        assert!(map.value.is_none() && map.end_tag.is_none());
    }
    assert_eq!(keys, vec!["@a", "@b", ".", "c", "d"]);
    assert_eq!(
        values,
        vec![
            Value::Text("x".to_string()),
            Value::Text("y".to_string()),
            Value::Text("body".to_string()),
            Value::Text("1".to_string()),
            Value::Text("".to_string()),
        ]
    );
    assert_eq!(de.peek().unwrap(), Some(&end("root")));
    assert_eq!(map.next_key(&mut de).unwrap(), None);
}

#[test]
fn next_key_opens_the_child_and_remembers_its_name() {
    let mut de = Deserializer::new(vec![start("c", vec![attr("k", "v")]), end("c")]);
    let mut map = MapAccess::new(vec![]);
    assert_eq!(map.next_key(&mut de).unwrap(), Some("c".to_string()));
    assert_eq!(map.end_tag, Some("c".to_string()));
    assert_eq!(map.value, None);
    assert_eq!(de.peek().unwrap(), Some(&end("c")));
    assert_eq!(de.take_attributes(), vec![attr("k", "v")]);
}

#[test]
fn next_key_fails_on_an_unexpected_event() {
    let mut de = Deserializer::new(vec![Event::CData, end("a")]);
    let mut map = MapAccess::new(vec![]);
    let err = map.next_key(&mut de).unwrap_err();
    assert_eq!(err.kind(), ErrorKind::Structure);
    assert_eq!(err.message(), "expected map key, found CData");
}

#[test]
fn next_value_leaves_an_end_tag_of_another_name() {
    let mut de = Deserializer::new(vec![start("c", vec![]), chars("1"), end("x"), end("c")]);
    let mut map = MapAccess::new(vec![]);
    assert_eq!(map.next_key(&mut de).unwrap(), Some("c".to_string()));
    assert_eq!(
        map.next_value(&mut de, &Shape::Integer(IntKind::U64)).unwrap(),
        Value::Integer(IntKind::U64, 1)
    );
    assert_eq!(de.peek().unwrap(), Some(&end("x")));
}

#[test]
fn from_events_reads_the_root() {
    let events = vec![
        Event::StartDocument,
        Event::Comment,
        start("root", vec![attr("id", "5")]),
        end("root"),
        Event::EndDocument,
    ];
    let shape = Shape::Record(vec![Field { name: "@id".to_string(), shape: Shape::Integer(IntKind::I16) }]);
    assert_eq!(
        from_events(events, &shape).unwrap(),
        Value::Record(vec![("@id".to_string(), Value::Integer(IntKind::I16, 5))])
    );
    assert_eq!(from_events(vec![chars("x")], &Shape::Text).unwrap_err().kind(), ErrorKind::Structure);
    assert_eq!(from_events(vec![], &Shape::Text).unwrap_err().kind(), ErrorKind::Structure);
}

#[test]
fn integers_of_each_width() {
    assert_eq!(parse_integer("-128", IntKind::I8).unwrap(), -128);
    assert!(parse_integer("128", IntKind::I8).is_err());
    assert_eq!(parse_integer("-32768", IntKind::I16).unwrap(), -32768);
    assert!(parse_integer("32768", IntKind::I16).is_err());
    assert_eq!(parse_integer("2147483647", IntKind::I32).unwrap(), 2147483647);
    assert!(parse_integer("2147483648", IntKind::I32).is_err());
    assert_eq!(parse_integer("-9223372036854775808", IntKind::I64).unwrap(), -9223372036854775808);
    assert!(parse_integer("9223372036854775808", IntKind::I64).is_err());
    assert_eq!(parse_integer("255", IntKind::U8).unwrap(), 255);
    assert!(parse_integer("256", IntKind::U8).is_err());
    assert_eq!(parse_integer("65535", IntKind::U16).unwrap(), 65535);
    assert!(parse_integer("65536", IntKind::U16).is_err());
    assert_eq!(parse_integer("4294967295", IntKind::U32).unwrap(), 4294967295);
    assert!(parse_integer("4294967296", IntKind::U32).is_err());
    assert_eq!(parse_integer("18446744073709551615", IntKind::U64).unwrap(), 18446744073709551615);
    assert!(parse_integer("18446744073709551616", IntKind::U64).is_err());
}

#[test]
fn integers_take_a_sign_and_digits_only() {
    assert_eq!(parse_integer("+7", IntKind::U8).unwrap(), 7);
    assert_eq!(parse_integer("007", IntKind::U8).unwrap(), 7);
    assert_eq!(parse_integer("-0", IntKind::I8).unwrap(), 0);
    assert!(parse_integer("-0", IntKind::U8).is_err());
    assert!(parse_integer("", IntKind::I32).is_err());
    assert!(parse_integer("+", IntKind::I32).is_err());
    assert!(parse_integer("-", IntKind::I32).is_err());
    assert!(parse_integer(" 1", IntKind::I32).is_err());
    assert!(parse_integer("1 ", IntKind::I32).is_err());
    assert!(parse_integer("1.0", IntKind::I32).is_err());
    assert!(parse_integer("+-1", IntKind::I32).is_err());
}

#[test]
fn scalars_from_text() {
    assert_eq!(interpret("true".to_string(), &Shape::Bool).unwrap(), Value::Bool(true));
    assert_eq!(interpret("false".to_string(), &Shape::Bool).unwrap(), Value::Bool(false));
    assert_eq!(interpret("1".to_string(), &Shape::Bool).unwrap_err().kind(), ErrorKind::Structure);
    assert_eq!(interpret("".to_string(), &Shape::Unit).unwrap(), Value::Unit);
    assert_eq!(interpret(" ".to_string(), &Shape::Unit).unwrap_err().kind(), ErrorKind::Structure);
    assert_eq!(interpret("é".to_string(), &Shape::Char).unwrap(), Value::Char('é'));
    assert_eq!(interpret("ab".to_string(), &Shape::Char).unwrap_err().kind(), ErrorKind::Structure);
    assert_eq!(interpret("".to_string(), &Shape::Char).unwrap_err().kind(), ErrorKind::Structure);
    assert_eq!(interpret("é".to_string(), &Shape::Bytes).unwrap(), Value::Bytes(vec![0xc3, 0xa9]));
    assert_eq!(interpret("x".to_string(), &Shape::Float).unwrap(), Value::Float("x".to_string()));
    assert_eq!(
        interpret("5".to_string(), &Shape::Optional(Box::new(Shape::Integer(IntKind::U32)))).unwrap(),
        Value::Optional(Some(Box::new(Value::Integer(IntKind::U32, 5))))
    );
    assert_eq!(
        interpret("x".to_string(), &Shape::Integer(IntKind::U32)).unwrap_err().kind(),
        ErrorKind::ScalarParse
    );
    assert_eq!(
        interpret("x".to_string(), &Shape::Record(vec![])).unwrap_err().kind(),
        ErrorKind::Structure
    );
}

#[test]
fn unit_variant_by_exact_name() {
    let shape = Shape::Union(vec![
        Variant { name: "a".to_string(), kind: VariantKind::Newtype(Shape::Text) },
        Variant { name: "a".to_string(), kind: VariantKind::Unit },
        Variant { name: "b".to_string(), kind: VariantKind::Unit },
    ]);
    assert_eq!(
        interpret("a".to_string(), &shape).unwrap(),
        Value::Variant("a".to_string(), Box::new(Value::Unit))
    );
    assert_eq!(interpret("A".to_string(), &shape).unwrap_err().kind(), ErrorKind::Structure);
    if let Shape::Union(variants) = &shape {
        assert_eq!(find_unit_variant(variants, &"a".to_string()), Some(1));
        assert_eq!(find_variant(variants, &"a".to_string()), Some(0));
        assert_eq!(find_variant(variants, &"c".to_string()), None);
    }
}

#[test]
fn the_first_field_of_a_name_is_found() {
    let fields = vec![
        Field { name: "x".to_string(), shape: Shape::Text },
        Field { name: "y".to_string(), shape: Shape::Text },
        Field { name: "x".to_string(), shape: Shape::Bool },
    ];
    assert_eq!(find_field(&fields, &"x".to_string()), Some(0));
    assert_eq!(find_field(&fields, &"y".to_string()), Some(1));
    assert_eq!(find_field(&fields, &"z".to_string()), None);
}

#[test]
fn tokens_are_split_at_each_space() {
    assert_eq!(split_tokens("abc 123"), vec!["abc", "123"]);
    assert_eq!(split_tokens("abc"), vec!["abc"]);
    assert_eq!(split_tokens(""), vec![""]);
    assert_eq!(split_tokens("a  b "), vec!["a", "", "b", ""]);
}

#[test]
fn tuple_tokens_are_read_by_place() {
    let shapes = vec![Shape::Text, Shape::Integer(IntKind::U8), Shape::Bool];
    assert_eq!(
        interpret_tuple("k 9 true".to_string(), &shapes).unwrap(),
        Value::Tuple(vec![Value::Text("k".to_string()), Value::Integer(IntKind::U8, 9), Value::Bool(true)])
    );
    assert_eq!(interpret_tuple("k 9".to_string(), &shapes).unwrap_err().kind(), ErrorKind::Structure);
    assert_eq!(interpret_tuple("k x true".to_string(), &shapes).unwrap_err().kind(), ErrorKind::ScalarParse);
    assert_eq!(interpret_tuple("k x maybe".to_string(), &shapes).unwrap_err().kind(), ErrorKind::ScalarParse);
}

#[test]
fn errors_keep_what_they_were_made_with() {
    let e = with_message("expected x, found y".to_string());
    assert_eq!(e.kind(), ErrorKind::Structure);
    assert_eq!(e.message(), "expected x, found y");
    assert!(matches!(*e.0, ErrorImpl::Message(_)));
    let inner = "x".parse::<u8>().unwrap_err();
    let e = parse_int(inner.clone());
    assert_eq!(e.kind(), ErrorKind::ScalarParse);
    assert_eq!(e.message(), format!("{}", inner));
    let tokens = tokenize("<a");
    let failure = tokens.failure.unwrap();
    let e = xml_decode::error::reader(failure.clone());
    assert_eq!(e.kind(), ErrorKind::Malformed);
    assert_eq!(e.message(), format!("{}", failure));
    let e = xml_decode::error::scalar_parse("x".to_string(), IntKind::U8, inner.clone());
    assert_eq!(e.message(), format!("{}: x", inner));
}

#[test]
fn open_root_skips_what_stands_before_it() {
    let mut de = Deserializer::new(vec![
        Event::StartDocument,
        Event::ProcessingInstruction,
        start("root", vec![attr("k", "v")]),
        chars("t"),
        end("root"),
    ]);
    assert_eq!(de.open_root().unwrap(), "root");
    assert_eq!(de.peek().unwrap(), Some(&chars("t")));
    assert_eq!(de.take_attributes(), vec![attr("k", "v")]);
    assert_eq!(de.open_root().unwrap_err().kind(), ErrorKind::Structure);
}

#[test]
fn the_body_key_comes_once_only() {
    let mut de = Deserializer::new(vec![
        chars("t"),
        start("b", vec![]),
        end("b"),
        chars("u"),
        end("a"),
    ]);
    let mut map = MapAccess::new(vec![]);
    assert_eq!(map.next_key(&mut de).unwrap(), Some(".".to_string()));
    assert_eq!(map.next_value(&mut de, &Shape::Text).unwrap(), Value::Text("t".to_string()));
    assert_eq!(map.next_key(&mut de).unwrap(), Some("b".to_string()));
    assert_eq!(map.next_value(&mut de, &Shape::Text).unwrap(), Value::Text("".to_string()));
    let err = map.next_key(&mut de).unwrap_err();
    assert_eq!(err.kind(), ErrorKind::Structure);
    assert_eq!(err.message(), "expected map key, found Characters");
    assert!(map.value.is_none() && map.end_tag.is_none());
    assert_eq!(de.peek().unwrap(), Some(&end("a")));
}

#[test]
fn text_after_a_child_is_no_key() {
    let mut de = Deserializer::new(vec![start("b", vec![]), end("b"), chars("u"), end("a")]);
    let mut map = MapAccess::new(vec![attr("k", "v")]);
    assert_eq!(map.next_key(&mut de).unwrap(), Some("@k".to_string()));
    assert!(!map.body_closed);
    assert_eq!(map.next_value(&mut de, &Shape::Text).unwrap(), Value::Text("v".to_string()));
    assert_eq!(map.next_key(&mut de).unwrap(), Some("b".to_string()));
    assert!(map.body_closed);
    assert_eq!(map.next_value(&mut de, &Shape::Unit).unwrap(), Value::Unit);
    assert_eq!(map.next_key(&mut de).unwrap_err().message(), "expected map key, found Characters");
    let fields = vec![
        Field { name: "b".to_string(), shape: Shape::Text },
        Field { name: ".".to_string(), shape: Shape::Text },
    ];
    let events = vec![start("a", vec![]), start("b", vec![]), end("b"), chars("u"), end("a")];
    let err = from_events(events, &Shape::Record(fields)).unwrap_err();
    assert_eq!(err.kind(), ErrorKind::Structure);
}

#[test]
fn an_event_that_is_no_key_is_consumed_and_named() {
    let mut de = Deserializer::new(vec![Event::ProcessingInstruction, end("a")]);
    let mut map = MapAccess::new(vec![]);
    let err = map.next_key(&mut de).unwrap_err();
    assert!(matches!(&*err.0, ErrorImpl::Message(m) if m == "expected map key, found ProcessingInstruction"));
    assert!(map.value.is_none() && map.end_tag.is_none());
    assert_eq!(de.peek().unwrap(), Some(&end("a")));
}

#[test]
fn next_key_hands_on_the_tokenizer_error() {
    let tokens = tokenize("<a><b>");
    let failure = tokens.failure.clone().unwrap();
    let mut de = Deserializer::with_failure(tokens.events, tokens.failure);
    assert_eq!(de.open_root().unwrap(), "a");
    let mut map = MapAccess::new(de.take_attributes());
    assert_eq!(map.next_key(&mut de).unwrap(), Some("b".to_string()));
    map.close_child(&mut de);
    let err = map.next_key(&mut de).unwrap_err();
    assert!(matches!(&*err.0, ErrorImpl::Reader(r) if *r == failure));
    assert_eq!(err.message(), format!("{}", failure));
    assert!(map.value.is_none() && map.end_tag.is_none());
}

#[test]
fn next_value_carries_the_text_that_is_no_integer() {
    let mut de = Deserializer::new(vec![end("a")]);
    let mut map = MapAccess::new(vec![attr("n", "abc")]);
    assert_eq!(map.next_key(&mut de).unwrap(), Some("@n".to_string()));
    let err = map.next_value(&mut de, &Shape::Integer(IntKind::U8)).unwrap_err();
    assert_eq!(err.kind(), ErrorKind::ScalarParse);
    assert!(matches!(&*err.0, ErrorImpl::Scalar { text, kind, .. } if text == "abc" && *kind == IntKind::U8));
    assert_eq!(de.peek().unwrap(), Some(&end("a")));
}

#[test]
fn the_steps_of_a_value_can_be_taken_one_by_one() {
    let mut de = Deserializer::new(vec![chars("t"), start("b", vec![]), end("b"), end("a")]);
    let mut map = MapAccess::new(vec![]);
    assert_eq!(map.next_key(&mut de).unwrap(), Some(".".to_string()));
    assert_eq!(map.take_text(), Some("t".to_string()));
    assert_eq!(map.take_text(), None);
    assert_eq!(map.next_key(&mut de).unwrap(), Some("b".to_string()));
    assert_eq!(map.take_text(), None);
    map.close_child(&mut de);
    assert_eq!(map.end_tag, None);
    assert_eq!(de.peek().unwrap(), Some(&end("a")));
    assert_eq!(map.next_key(&mut de).unwrap(), None);
}

#[test]
fn the_variant_is_named_by_text_or_by_a_child() {
    let mut de = Deserializer::new(vec![chars("a"), start("b", vec![attr("k", "v")]), end("b")]);
    assert!(matches!(de.variant_tag().unwrap(), VariantTag::Text(t) if t == "a"));
    assert!(matches!(de.variant_tag().unwrap(), VariantTag::Element(n) if n == "b"));
    assert_eq!(de.take_attributes(), vec![attr("k", "v")]);
    let err = de.variant_tag().unwrap_err();
    assert_eq!(err.kind(), ErrorKind::Structure);
    assert_eq!(de.peek().unwrap(), Some(&end("b")));
}

#[test]
fn a_tuple_has_as_many_tokens_as_payloads() {
    assert_eq!(split_tuple("abc 123", 2).unwrap(), vec!["abc", "123"]);
    assert_eq!(split_tuple("abc", 2).unwrap_err().kind(), ErrorKind::Structure);
    assert_eq!(split_tuple("", 1).unwrap(), vec![""]);
    assert_eq!(split_tuple("a b c", 2).unwrap_err().message(), "wrong number of values for the variant");
}

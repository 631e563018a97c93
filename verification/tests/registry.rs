use poem_openapi::registry::{MetaSchema, MetaSchemaRef, Registry};
use poem_openapi::types::error::ParseError;
use poem_openapi::types::{ParseFromJSON, ParseFromParameter, ToJSON, Type};
use poem_openapi::value::{Number, Value};

#[test]
fn registering_twice_keeps_one_entry() {
    let mut registry = Registry::new();
    assert_eq!(registry.len(), 0);
    assert!(!registry.contains("Pet"));
    registry.register_schema("Pet".to_string(), MetaSchema::new("object"));
    assert_eq!(registry.len(), 1);
    assert!(registry.contains("Pet"));
    registry.register_schema("Pet".to_string(), MetaSchema::new("object"));
    registry.register_schema("Pet".to_string(), MetaSchema::new("string"));
    assert_eq!(registry.len(), 1);
    assert_eq!(registry.get("Pet"), Some(&MetaSchema { ty: "object", format: None, items: None }));
}

#[test]
fn registry_holds_names_apart() {
    let mut registry = Registry::new();
    registry.register_schema("Pet".to_string(), MetaSchema::new("object"));
    registry.register_schema("pet".to_string(), MetaSchema::new_with_format("string", "uuid"));
    registry.register_schema(
        "Pets".to_string(),
        MetaSchema::array_of(MetaSchemaRef::Reference("Pet".to_string())),
    );
    assert_eq!(registry.len(), 3);
    assert_eq!(
        registry.get("pet"),
        Some(&MetaSchema { ty: "string", format: Some("uuid"), items: None })
    );
    assert_eq!(
        registry.get("Pets"),
        Some(&MetaSchema {
            ty: "array",
            format: None,
            items: Some(Box::new(MetaSchemaRef::Reference("Pet".to_string()))),
        })
    );
    assert_eq!(registry.get("Owner"), None);
    assert!(!registry.contains("Owner"));
}

#[test]
fn schema_constructors() {
    assert_eq!(MetaSchema::new("string"), MetaSchema { ty: "string", format: None, items: None });
    assert_eq!(
        MetaSchema::new_with_format("string", "date-time"),
        MetaSchema { ty: "string", format: Some("date-time"), items: None }
    );
}

#[test]
fn int32_from_json() {
    assert_eq!(i32::parse_from_json(Some(Value::Number(Number::Integer(5)))), Ok(5));
    assert_eq!(i32::parse_from_json(Some(Value::Number(Number::Integer(-7)))), Ok(-7));
    assert_eq!(
        i32::parse_from_json(Some(Value::Number(Number::Integer(2147483647)))),
        Ok(i32::MAX)
    );
    assert_eq!(
        i32::parse_from_json(Some(Value::Number(Number::Integer(-2147483648)))),
        Ok(i32::MIN)
    );
    assert_eq!(
        i32::parse_from_json(Some(Value::Number(Number::Integer(2147483648)))),
        Err(ParseError::Custom("integer out of range".to_string()))
    );
    assert_eq!(
        i32::parse_from_json(Some(Value::Number(Number::Integer(-2147483649)))),
        Err(ParseError::Custom("integer out of range".to_string()))
    );
    assert_eq!(
        i32::parse_from_json(Some(Value::Number(Number::Float(1.5f64.to_bits())))),
        Err(ParseError::ExpectedType(Value::Number(Number::Float(1.5f64.to_bits()))))
    );
    assert_eq!(
        i32::parse_from_json(Some(Value::String("5".to_string()))),
        Err(ParseError::ExpectedType(Value::String("5".to_string())))
    );
    assert_eq!(i32::parse_from_json(None), Err(ParseError::ExpectedType(Value::Null)));
}

#[test]
fn int32_to_json_and_back() {
    for n in [0, 1, -1, 42, i32::MAX, i32::MIN] {
        let json = n.to_json().unwrap();
        assert_eq!(json, Value::Number(Number::Integer(n as i128)));
        assert_eq!(i32::parse_from_json(Some(json)), Ok(n));
    }
}

#[test]
fn int32_describes_itself() {
    assert_eq!(i32::name(), "integer_int32");
    assert!(i32::is_required());
    assert_eq!(
        i32::schema_ref(),
        MetaSchemaRef::Inline(Box::new(MetaSchema {
            ty: "integer",
            format: Some("int32"),
            items: None,
        }))
    );
    assert_eq!(5.as_raw_value(), Some(&5));
    assert_eq!(5.raw_element_iter(), vec![&5]);
    assert!(!Type::is_empty(&5));
}

#[test]
fn string_parameter() {
    assert_eq!(String::parse_from_parameter("a b"), Ok("a b".to_string()));
    assert_eq!(String::parse_from_parameters(&vec!["a"]), Ok("a".to_string()));
    assert_eq!(String::parse_from_parameters(&vec![]), Err(ParseError::ExpectedInput));
    assert_eq!(
        String::parse_from_parameters(&vec!["a", "b"]),
        Err(ParseError::Custom("expected a single value".to_string()))
    );
    assert_eq!(<String as Type>::name(), "string");
    assert_eq!(
        <String as Type>::schema_ref(),
        MetaSchemaRef::Inline(Box::new(MetaSchema { ty: "string", format: None, items: None }))
    );
    let text = "a".to_string();
    assert_eq!(text.as_raw_value(), Some(&text));
    assert_eq!(text.raw_element_iter(), vec![&text]);
}

#[test]
fn sequence_parameter() {
    assert_eq!(
        Vec::<String>::parse_from_parameters(&vec!["a", "b", "a"]),
        Ok(vec!["a".to_string(), "b".to_string(), "a".to_string()])
    );
    assert_eq!(Vec::<String>::parse_from_parameters(&vec![]), Ok(vec![]));
    assert_eq!(Vec::<String>::parse_from_parameter("a,b"), Ok(vec!["a,b".to_string()]));
    assert_eq!(<Vec<String> as Type>::name(), "[string]");
    assert_eq!(<Vec<Vec<String>> as Type>::name(), "[[string]]");
    assert_eq!(
        <Vec<String> as Type>::schema_ref(),
        MetaSchemaRef::Inline(Box::new(MetaSchema {
            ty: "array",
            format: None,
            items: Some(Box::new(MetaSchemaRef::Inline(Box::new(MetaSchema {
                ty: "string",
                format: None,
                items: None,
            })))),
        }))
    );
    let values = vec!["a".to_string(), "b".to_string()];
    assert_eq!(values.as_raw_value(), Some(&values));
    assert_eq!(values.raw_element_iter(), vec![&values[0], &values[1]]);
    assert!(!Type::is_empty(&values));
    assert!(Type::is_empty(&Vec::<String>::new()));
}

#[test]
fn error_messages() {
    assert_eq!(
        ParseError::expected_type(Value::Bool(false)),
        ParseError::ExpectedType(Value::Bool(false))
    );
    assert_eq!(ParseError::expected_input(), ParseError::ExpectedInput);
    assert_eq!(ParseError::custom("no"), ParseError::Custom("no".to_string()));
    assert_eq!(
        ParseError::custom("no").propagate(),
        ParseError::Propagated(Box::new(ParseError::Custom("no".to_string())))
    );
    assert_eq!(
        ParseError::ExpectedType(Value::Null).into_message(),
        "unexpected input of type null"
    );
    assert_eq!(
        ParseError::ExpectedType(Value::Bool(true)).into_message(),
        "unexpected input of type boolean"
    );
    assert_eq!(
        ParseError::ExpectedType(Value::Number(Number::Integer(1))).into_message(),
        "unexpected input of type number"
    );
    assert_eq!(
        ParseError::ExpectedType(Value::String("a".to_string())).into_message(),
        "unexpected input of type string"
    );
    assert_eq!(
        ParseError::ExpectedType(Value::Array(vec![])).into_message(),
        "unexpected input of type array"
    );
    assert_eq!(
        ParseError::ExpectedType(Value::Object(vec![])).into_message(),
        "unexpected input of type object"
    );
    assert_eq!(ParseError::ExpectedInput.into_message(), "expected an input value");
    assert_eq!(ParseError::custom("no").into_message(), "no");
    assert_eq!(ParseError::custom("no").propagate().propagate().into_message(), "no");
    assert_eq!(
        ParseError::ExpectedType(Value::Null).propagate().into_message(),
        "unexpected input of type null"
    );
}

#[test]
fn absent_value_reads_as_null() {
    assert_eq!(Value::or_null(None), Value::Null);
    assert_eq!(Value::or_null(Some(Value::Bool(true))), Value::Bool(true));
}

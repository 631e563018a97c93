use poem_openapi::base::{ApiExtractorType, ExtractParamOptions, UrlQuery};
use poem_openapi::error::ParseParamError;
use poem_openapi::param::query::Query;
use poem_openapi::registry::{MetaParamIn, MetaSchema, MetaSchemaRef, Registry};
use poem_openapi::types::external::timestamp::Timestamp;
use poem_openapi::types::ParseFromParameter;

fn query(pairs: &[(&str, &str)]) -> UrlQuery {
    UrlQuery(pairs.iter().map(|(k, v)| (k.to_string(), v.to_string())).collect())
}

fn options(name: &'static str, ignore_case: bool, explode: bool) -> ExtractParamOptions<fn() -> Vec<String>> {
    ExtractParamOptions { name, ignore_case, default_value: None, explode }
}

fn texts(values: &[&str]) -> Vec<String> {
    values.iter().map(|v| v.to_string()).collect()
}

#[test]
fn explode_takes_one_element_per_occurrence() {
    let source = query(&[("ids", "1,2"), ("ids", "3,4")]);
    let extracted = Query::<Vec<String>>::from_request(&source, options("ids", false, true)).unwrap();
    assert_eq!(extracted.0, texts(&["1,2", "3,4"]));
    assert_eq!(extracted.0.len(), 2);
}

#[test]
fn combined_splits_the_first_occurrence_only() {
    let source = query(&[("ids", "1,2"), ("ids", "3,4")]);
    let extracted = Query::<Vec<String>>::from_request(&source, options("ids", false, false)).unwrap();
    assert_eq!(extracted.0, texts(&["1", "2"]));
}

#[test]
fn combined_trims_each_piece() {
    let source = query(&[("ids", " a , b\t,,c ,"), ("other", "x")]);
    let extracted = Query::<Vec<String>>::from_request(&source, options("ids", false, false)).unwrap();
    assert_eq!(extracted.0, texts(&["a", "b", "", "c", ""]));
    let source = query(&[("ids", "")]);
    let extracted = Query::<Vec<String>>::from_request(&source, options("ids", false, false)).unwrap();
    assert_eq!(extracted.0, texts(&[""]));
}

#[test]
fn white_space_is_what_unicode_calls_white_space() {
    let is_white_space = |c: char| {
        let code = c as u32;
        (0x09..=0x0D).contains(&code)
            || code == 0x20
            || code == 0x85
            || code == 0xA0
            || code == 0x1680
            || (0x2000..=0x200A).contains(&code)
            || code == 0x2028
            || code == 0x2029
            || code == 0x202F
            || code == 0x205F
            || code == 0x3000
    };
    let mut count = 0;
    for code in 0..=0x10FFFFu32 {
        if let Some(c) = char::from_u32(code) {
            assert_eq!(c.is_whitespace(), is_white_space(c), "U+{:04X}", code);
            if is_white_space(c) {
                count += 1;
            }
        }
    }
    assert_eq!(count, 25);
    for c in ['\t', '\n', '\u{0B}', '\u{0C}', '\r', ' ', '\u{85}', '\u{A0}', '\u{1680}', '\u{2003}', '\u{3000}'] {
        let value = format!("{}a{}b{},{}", c, c, c, c);
        let source = UrlQuery(vec![("ids".to_string(), value)]);
        let extracted =
            Query::<Vec<String>>::from_request(&source, options("ids", false, false)).unwrap();
        assert_eq!(extracted.0, vec![format!("a{}b", c), String::new()]);
    }
    for c in ['\u{200B}', '\u{180E}', '\u{FEFF}', '\u{1C}', '_', '0'] {
        let value = format!("{}a{}", c, c);
        let source = UrlQuery(vec![("ids".to_string(), value.clone())]);
        let extracted =
            Query::<Vec<String>>::from_request(&source, options("ids", false, false)).unwrap();
        assert_eq!(extracted.0, vec![value]);
    }
}

#[test]
fn occurrences_keep_their_order() {
    let source = query(&[("a", "1"), ("b", "x"), ("a", "2"), ("c", "y"), ("a", "3")]);
    let extracted = Query::<Vec<String>>::from_request(&source, options("a", false, true)).unwrap();
    assert_eq!(extracted.0, texts(&["1", "2", "3"]));
    assert_eq!(source.get_all("a"), vec!["1", "2", "3"]);
    assert_eq!(source.get_all("b"), vec!["x"]);
    assert!(source.get_all("d").is_empty());
}

#[test]
fn name_is_matched_without_regard_to_ascii_case() {
    let source = query(&[("foo", "1"), ("FOO", "2"), ("fo", "3"), ("fooo", "4"), ("Foo", "5")]);
    let extracted = Query::<Vec<String>>::from_request(&source, options("Foo", true, true)).unwrap();
    assert_eq!(extracted.0, texts(&["1", "2", "5"]));
    assert_eq!(source.get_all_ignore_ascii_case("Foo"), vec!["1", "2", "5"]);
    let extracted = Query::<Vec<String>>::from_request(&source, options("Foo", false, true)).unwrap();
    assert_eq!(extracted.0, texts(&["5"]));
    assert_eq!(source.get_all("Foo"), vec!["5"]);
}

#[test]
fn case_is_ignored_for_ascii_letters_only() {
    let source = query(&[("stra\u{df}e", "1"), ("STRA\u{df}E", "2"), ("stra\u{1e9e}e", "3"), ("k", "4"), ("\u{212a}", "5")]);
    assert_eq!(source.get_all_ignore_ascii_case("Stra\u{df}e"), vec!["1", "2"]);
    assert_eq!(source.get_all_ignore_ascii_case("K"), vec!["4"]);
    let source = query(&[("a[", "1"), ("A{", "2"), ("a@", "3"), ("A`", "4")]);
    assert_eq!(source.get_all_ignore_ascii_case("a["), vec!["1"]);
    assert_eq!(source.get_all_ignore_ascii_case("a`"), vec!["4"]);
}

#[test]
fn default_is_used_when_the_parameter_does_not_occur() {
    let source = query(&[("other", "1")]);
    let param_opts = ExtractParamOptions {
        name: "ids",
        ignore_case: false,
        default_value: Some(|| texts(&["7", "8,9"])),
        explode: false,
    };
    let extracted = Query::<Vec<String>>::from_request(&source, param_opts).unwrap();
    assert_eq!(extracted.0, texts(&["7", "8,9"]));
    let param_opts = ExtractParamOptions {
        name: "when",
        ignore_case: true,
        default_value: Some(|| Timestamp::new(0, 0).unwrap()),
        explode: true,
    };
    let extracted = Query::<Timestamp>::from_request(&source, param_opts).unwrap();
    assert_eq!(extracted.0, Timestamp::new(0, 0).unwrap());
}

#[test]
fn default_is_not_used_when_the_parameter_occurs() {
    let source = query(&[("ids", "1")]);
    let param_opts = ExtractParamOptions {
        name: "ids",
        ignore_case: false,
        default_value: Some(|| -> Vec<String> { panic!("the default must not be produced") }),
        explode: true,
    };
    let extracted = Query::<Vec<String>>::from_request(&source, param_opts).unwrap();
    assert_eq!(extracted.0, texts(&["1"]));
}

#[test]
fn missing_parameter_without_default() {
    let source = query(&[("other", "1")]);
    let param_opts: ExtractParamOptions<fn() -> Timestamp> =
        ExtractParamOptions { name: "when", ignore_case: false, default_value: None, explode: true };
    assert_eq!(
        Query::<Timestamp>::from_request(&source, param_opts),
        Err(ParseParamError { name: "when", reason: "expected an input value".to_string() })
    );
    let param_opts: ExtractParamOptions<fn() -> Timestamp> =
        ExtractParamOptions { name: "when", ignore_case: false, default_value: None, explode: false };
    assert_eq!(
        Query::<Timestamp>::from_request(&source, param_opts),
        Err(ParseParamError { name: "when", reason: "expected an input value".to_string() })
    );
    assert_eq!(
        Query::<Vec<String>>::from_request(&source, options("ids", false, false)),
        Err(ParseParamError { name: "ids", reason: "expected an input value".to_string() })
    );
    assert_eq!(
        Query::<Vec<String>>::from_request(&source, options("ids", true, true)),
        Err(ParseParamError { name: "ids", reason: "expected an input value".to_string() })
    );
}

#[test]
fn failure_names_the_parameter() {
    let source = query(&[("when", "invalid-timestamp")]);
    let param_opts: ExtractParamOptions<fn() -> Timestamp> =
        ExtractParamOptions { name: "when", ignore_case: false, default_value: None, explode: true };
    let reason = Timestamp::parse_from_parameter("invalid-timestamp").unwrap_err().into_message();
    assert!(!reason.is_empty());
    assert_eq!(
        Query::<Timestamp>::from_request(&source, param_opts),
        Err(ParseParamError { name: "when", reason: reason.clone() })
    );
    let param_opts: ExtractParamOptions<fn() -> Vec<Timestamp>> =
        ExtractParamOptions { name: "when", ignore_case: false, default_value: None, explode: true };
    assert_eq!(
        Query::<Vec<Timestamp>>::from_request(&source, param_opts),
        Err(ParseParamError { name: "when", reason })
    );
}

#[test]
fn scalar_parameter() {
    let text = "2024-03-10T10:00:00Z";
    let source = query(&[("when", text)]);
    let param_opts: ExtractParamOptions<fn() -> Timestamp> =
        ExtractParamOptions { name: "when", ignore_case: false, default_value: None, explode: true };
    let extracted = Query::<Timestamp>::from_request(&source, param_opts).unwrap();
    assert_eq!(extracted.0, Timestamp::parse_from_parameter(text).unwrap());
    let source = query(&[("when", text), ("when", text)]);
    let param_opts: ExtractParamOptions<fn() -> Timestamp> =
        ExtractParamOptions { name: "when", ignore_case: false, default_value: None, explode: true };
    assert_eq!(
        Query::<Timestamp>::from_request(&source, param_opts),
        Err(ParseParamError { name: "when", reason: "expected a single value".to_string() })
    );
    let param_opts: ExtractParamOptions<fn() -> Timestamp> =
        ExtractParamOptions { name: "when", ignore_case: false, default_value: None, explode: false };
    let extracted = Query::<Timestamp>::from_request(&source, param_opts).unwrap();
    assert_eq!(extracted.0, Timestamp::parse_from_parameter(text).unwrap());
}

#[test]
fn query_gives_access_to_its_value() {
    let mut extracted = Query(texts(&["1"]));
    assert_eq!(extracted.deref(), &texts(&["1"]));
    extracted.deref_mut().push("2".to_string());
    assert_eq!(extracted.0, texts(&["1", "2"]));
    assert_eq!(extracted.param_raw_type(), Some(&texts(&["1", "2"])));
}

#[test]
fn query_describes_its_parameter() {
    assert_eq!(Query::<Timestamp>::types(), vec![ApiExtractorType::Parameter]);
    assert!(Query::<Timestamp>::param_is_required());
    assert!(Query::<Vec<String>>::param_is_required());
    assert_eq!(Query::<Timestamp>::param_in(), Some(MetaParamIn::Query));
    assert_eq!(
        Query::<Timestamp>::param_schema_ref(),
        Some(MetaSchemaRef::Inline(Box::new(MetaSchema {
            ty: "string",
            format: Some("date-time"),
            items: None,
        })))
    );
    let mut registry = Registry::new();
    Query::<Vec<Timestamp>>::register(&mut registry);
    assert_eq!(registry.len(), 0);
}

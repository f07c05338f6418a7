use zigzag::json::Json;

fn sample() -> Json {
    Json::Object(vec![
        ("n".to_owned(), Json::number(12)),
        ("s".to_owned(), Json::text("x")),
        ("b".to_owned(), Json::Bool(true)),
        (
            "l".to_owned(),
            Json::Array(vec![Json::Null, Json::Object(Vec::new())]),
        ),
        ("s".to_owned(), Json::text("second")),
    ])
}

#[test]
fn fields_are_looked_up_by_name() {
    let value = sample();
    assert_eq!(value.object("n"), Some(&Json::Number("12".to_owned())));
    assert_eq!(value.object("s").and_then(Json::as_str), Some("x"));
    assert_eq!(value.object("missing"), None);
    assert_eq!(Json::Null.object("n"), None);
    assert_eq!(Json::text("n").object("n"), None);
}

#[test]
fn values_are_read_by_their_type() {
    let value = sample();
    let number = value.object("n").unwrap();
    assert_eq!(number.as_u64(), Some(12));
    assert_eq!(number.as_str(), None);
    assert_eq!(number.as_bool(), None);
    assert_eq!(value.object("b").unwrap().as_bool(), Some(true));
    assert_eq!(value.object("l").unwrap().as_array().map(Vec::len), Some(2));
    assert_eq!(value.as_array(), None);
    assert_eq!(value.as_fields().map(Vec::len), Some(5));
    assert_eq!(number.as_fields(), None);
    for text in ["1.5", "-1", "1e3", "18446744073709551616", ""] {
        assert_eq!(Json::Number(text.to_owned()).as_u64(), None);
    }
    assert_eq!(Json::text("12").as_u64(), None);
    assert_eq!(Json::number(u64::MAX).as_u64(), Some(u64::MAX));
}

#[test]
fn a_copy_is_the_same_value() {
    assert_eq!(sample().clone(), sample());
}

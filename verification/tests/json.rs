use uniswap_backend::json::{copies, Json};
use uniswap_backend::wire::{read, read_and_rewrite, spell, MOST_NESTED};

#[test]
fn a_text_is_read_as_the_value_it_spells() {
    let v = read(r#"{"a":1,"b":-2,"c":2.5,"d":"t","e":[true,null],"f":{}}"#).unwrap();
    assert_eq!((v.u64_of("a"), v.i64_of("a")), (Some(1), Some(1)));
    assert_eq!((v.u64_of("b"), v.i64_of("b")), (None, Some(-2)));
    assert_eq!(v.get("c"), Some(&Json::Float(2.5f64.to_bits())));
    assert_eq!((v.str_of("d"), v.str_of("a"), v.str_of("none")), ("t", "", ""));
    assert_eq!(v.array_of("e").unwrap().len(), 2);
    assert!(v.get("f").unwrap().is_object() && !v.get("f").unwrap().has_fields());
    let max = read("18446744073709551615").unwrap();
    assert_eq!((max.as_u64(), max.as_i64()), (Some(u64::MAX), None));
    assert_eq!(read(r#"{"a":1,"a":2}"#).unwrap().u64_of("a"), Some(2), "the later field counts");
    assert!(read("{").is_err());
}

#[test]
fn a_text_is_rewritten_the_way_the_writer_spells_it() {
    let (v, written) = read_and_rewrite(" { \"b\" : [1, 2.50] , \"a\" : \"\\u0041\" } ").unwrap();
    assert_eq!(written, r#"{"a":"A","b":[1,2.5]}"#);
    assert_eq!(v.str_of("a"), "A");
    assert_eq!(read_and_rewrite("[").unwrap_err(), read("[").unwrap_err());
}

#[test]
fn a_field_is_put_in_or_put_over() {
    let v = Json::object().with("a", Json::Unsigned(1)).with("b", Json::signed(-4)).with("a", Json::text("x"));
    assert_eq!((v.str_of("a"), v.i64_of("b")), ("x", Some(-4)));
    assert_eq!(Json::Null.with("a", Json::Bool(true)).bool_of("a"), Some(true));
    assert!(Json::Null.takes_fields() && !Json::text("").takes_fields());
    assert_eq!(v.clone(), v);
    assert_eq!(copies(&[v.clone()]), [v]);
    assert!(Json::text("t").get("t").is_none());
}

#[test]
fn a_plain_value_is_spelled_the_way_the_writer_does() {
    let spelled = [
        "null", "true", "0", "18446744073709551615", "-9223372036854775808", r#""a\"b""#, "[]",
        r#"[1,[null,{}]]"#, r#"{"a":-1,"b":{"c":"d"},"z":[]}"#,
    ];
    for text in spelled {
        assert_eq!(spell(&read(text).unwrap()).as_deref(), Some(text));
    }
    let built = Json::object().with("b", Json::signed(-3)).with("a", Json::text("x")).with("b", Json::signed(4));
    assert_eq!(spell(&built).as_deref(), Some(r#"{"a":"x","b":4}"#));
    let twice = Json::Object(vec![("a".to_string(), Json::Null), ("a".to_string(), Json::Bool(true))]);
    for other in [read("1.5").unwrap(), read(r#"{"a":[1.0]}"#).unwrap(), Json::Negative(3), Json::array(vec![twice])] {
        assert_eq!(spell(&other), None, "{other:?}");
    }
}

#[test]
fn what_is_spelled_is_read_again_as_deep_as_the_reader_follows() {
    let arrays = |deep: usize| (0..deep).fold(Json::text("x"), |v, _| Json::array(vec![v]));
    let objects = |deep: usize| (0..deep).fold(Json::signed(-1), |v, _| Json::object().with("a", v));
    let most = MOST_NESTED as usize;
    for deepest in [arrays(most), objects(most)] {
        assert_eq!(read(&spell(&deepest).unwrap()), Ok(deepest));
    }
    for deeper in [arrays(most + 1), objects(most + 1)] {
        assert!(read(&spell(&deeper).unwrap()).is_err());
    }
    let odd = Json::object().with("", Json::text("\u{0}\u{1f}\"\\/\u{7f}\u{2028}\u{10ffff}")).with("\n", Json::signed(i64::MIN));
    assert_eq!(read(&spell(&odd).unwrap()), Ok(odd));
}

#[test]
fn a_copy_of_a_plain_value_is_plain() {
    let v = read(r#"{"a":[1,{"b":-2}],"c":null}"#).unwrap();
    assert_eq!(spell(&v.clone()), spell(&v));
    assert!(spell(&v).is_some());
}

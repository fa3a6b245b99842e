use containerd::error::ErrorKind;
use containerd::filters::adaptor::{AdapterFunc, Adaptor, FieldPath, FieldValue};
use containerd::filters::filter::{always_fn, All, Any, Filter, FilterFunc, Operator, Select};
use containerd::filters::parser::{parse, parse_all};
use containerd::filters::quote::unquote;

fn path(segments: &[&str]) -> Vec<String> {
    segments.iter().map(|s| s.to_string()).collect()
}

/// The selectors of `input` as they are written.
fn selectors(input: &str) -> Vec<(Vec<String>, Operator, String)> {
    let all = parse(input).expect("the filter parses");
    all.0.iter().map(|s| (s.field_path().clone(), s.operator(), s.value().clone())).collect()
}

fn sel(segments: &[&str], operator: Operator, value: &str) -> (Vec<String>, Operator, String) {
    (path(segments), operator, value.to_owned())
}

/// The position and the message with which `input` fails to parse.
fn failure(input: &str) -> (usize, String) {
    match parse(input) {
        Ok(_) => panic!("{:?} parses", input),
        Err(e) => {
            assert_eq!(e.input(), input);
            (e.pos(), e.msg().clone())
        }
    }
}

/// An object with the fields `name` and `labels.<key>` as given.
fn object(name: &str, labels: &[(&str, &str)]) -> Box<dyn Adaptor> {
    let name = name.to_owned();
    let labels: Vec<(String, String)> =
        labels.iter().map(|(k, v)| (k.to_string(), v.to_string())).collect();
    Box::new(AdapterFunc::new(move |fieldpath: Vec<String>| -> (String, bool) {
        match fieldpath.first().map(|s| s.as_str()) {
            Some("name") => (name.clone(), !name.is_empty()),
            Some("labels") => {
                let key = fieldpath[1..].join(".");
                match labels.iter().find(|(k, _)| *k == key) {
                    Some((_, v)) => (v.clone(), true),
                    None => (String::new(), false),
                }
            }
            _ => (String::new(), false),
        }
    }))
}

fn matches(filter: &str, adaptor: &Box<dyn Adaptor>) -> bool {
    parse(filter).expect("the filter parses").is_match(adaptor)
}

#[test]
fn operators_are_written() {
    assert_eq!(Operator::Present.as_str(), "?");
    assert_eq!(Operator::Equal.as_str(), "==");
    assert_eq!(Operator::NotEqual.as_str(), "!=");
    assert_eq!(Operator::Matches.as_str(), "~=");
}

#[test]
fn the_empty_filter_has_no_selector() {
    assert!(selectors("").is_empty());
    assert!(matches("", &object("", &[])));
}

#[test]
fn parsing_presence() {
    assert_eq!(selectors("name"), vec![sel(&["name"], Operator::Present, "")]);
    assert_eq!(selectors("labels.foo"), vec![sel(&["labels", "foo"], Operator::Present, "")]);
    assert_eq!(selectors("a.b.c.d"), vec![sel(&["a", "b", "c", "d"], Operator::Present, "")]);
}

#[test]
fn parsing_operators_and_values() {
    assert_eq!(selectors("name==foo"), vec![sel(&["name"], Operator::Equal, "foo")]);
    assert_eq!(selectors("name!=foo"), vec![sel(&["name"], Operator::NotEqual, "foo")]);
    assert_eq!(selectors("name~=^f.o$"), vec![sel(&["name"], Operator::Matches, "^f.o$")]);
    assert_eq!(
        selectors("labels.foo==omg_asdf.asdf-qwer"),
        vec![sel(&["labels", "foo"], Operator::Equal, "omg_asdf.asdf-qwer")]
    );
    assert_eq!(selectors("a==b==c"), vec![sel(&["a"], Operator::Equal, "b==c")]);
}

#[test]
fn parsing_conjunctions() {
    assert_eq!(
        selectors("labels.foo,name==bar,other!=x"),
        vec![
            sel(&["labels", "foo"], Operator::Present, ""),
            sel(&["name"], Operator::Equal, "bar"),
            sel(&["other"], Operator::NotEqual, "x"),
        ]
    );
}

#[test]
fn parsing_skips_white_space() {
    assert_eq!(
        selectors("  labels . foo  ==  bar ,\tname "),
        vec![
            sel(&["labels", "foo"], Operator::Equal, "bar"),
            sel(&["name"], Operator::Present, ""),
        ]
    );
}

#[test]
fn parsing_quoted_fields_and_values() {
    assert_eq!(
        selectors(r#"labels."very complex label"==something"#),
        vec![sel(&["labels", "very complex label"], Operator::Equal, "something")]
    );
    assert_eq!(
        selectors(r#"labels."a.b,c"=="x, y""#),
        vec![sel(&["labels", "a.b,c"], Operator::Equal, "x, y")]
    );
    assert_eq!(
        selectors(r#"labels."more complex label with \\ and \"".post=="tab\there""#),
        vec![sel(
            &["labels", "more complex label with \\ and \"", "post"],
            Operator::Equal,
            "tab\there"
        )]
    );
    assert_eq!(selectors(r#"a=="""#), vec![sel(&["a"], Operator::Equal, "")]);
}

#[test]
fn parsing_alternate_quotes_for_regular_expressions() {
    assert_eq!(selectors("name~=/a b/"), vec![sel(&["name"], Operator::Matches, "a b")]);
    assert_eq!(selectors("name~=|a/b|"), vec![sel(&["name"], Operator::Matches, "a/b")]);
    assert_eq!(selectors(r"name~=/a\/b/"), vec![sel(&["name"], Operator::Matches, "a/b")]);
    assert_eq!(selectors(r#"name~="a|b""#), vec![sel(&["name"], Operator::Matches, "a|b")]);
}

#[test]
fn parse_errors_tell_where_and_why() {
    let cases = [
        ("labels.|foo|==omg_asdf.asdf-qwer", 7, "invalid quote encountered"),
        ("name==/foo/", 6, "invalid quote encountered"),
        ("name!=|foo|", 6, "invalid quote encountered"),
        ("/name/", 0, "invalid quote encountered"),
        (" ", 1, "expected field or quoted"),
        (",", 0, "expected field or quoted"),
        ("name,", 5, "expected field or quoted"),
        ("labels.", 7, "expected field or quoted"),
        ("labels..foo", 7, "expected field or quoted"),
        ("==foo", 0, "expected field or quoted"),
        ("-", 0, "expected field or quoted"),
        ("\"foo", 0, "quoted literal not terminated"),
        ("labels.\"fo\\zo\"", 7, "illegal escape sequence"),
        ("labels.\"\\x1\"", 7, "illegal numeric escape sequence"),
        ("labels.\"\\xg\\z\"", 7, "illegal escape sequence"),
        ("labels.\"\\z\\x\"", 7, "illegal numeric escape sequence"),
        ("labels.\"\\z", 7, "quoted literal not terminated"),
        ("labels.\"\\400\"", 7, "unquoting failed: invalid syntax"),
        ("labels.\"\\ud800\"", 7, "unquoting failed: invalid syntax"),
        ("labels.\"\\U00110000\"", 7, "unquoting failed: invalid syntax"),
        ("name foo", 5, "expected an operator (\"==\"|\"!=\"|\"~=\")"),
        ("name-foo", 4, "expected an operator (\"==\"|\"!=\"|\"~=\")"),
        ("name\"x\"", 4, "expected an operator (\"==\"|\"!=\"|\"~=\")"),
        ("name \"x", 5, "quoted literal not terminated"),
        ("name=foo", 4, "unsupported operator \"=\""),
        ("name===foo", 4, "unsupported operator \"===\""),
        ("name=~foo", 4, "unsupported operator \"=~\""),
        ("name==", 6, "expected value or quoted"),
        ("name==,", 6, "expected value or quoted"),
        ("name== ", 7, "expected value or quoted"),
        ("name===", 4, "unsupported operator \"===\""),
        ("name==\"foo", 6, "quoted literal not terminated"),
        ("name==foo bar", 10, "unexpected input: bar"),
        ("name==\"foo\"bar", 11, "unexpected input: bar"),
        ("name==\"foo\".bar", 11, "unexpected input: ."),
        ("name==foo,,", 10, "expected field or quoted"),
    ];
    for (input, pos, msg) in cases {
        assert_eq!(failure(input), (pos, msg.to_owned()), "{:?}", input);
    }
}

#[test]
fn a_quoted_value_may_hold_the_nul_character() {
    assert_eq!(selectors("name==\"a\0b\""), vec![sel(&["name"], Operator::Equal, "a\0b")]);
}

#[test]
fn parse_errors_show_the_place_in_the_filter() {
    let e = parse("labels.|foo|==omg_asdf.asdf-qwer").err().unwrap();
    assert_eq!(
        e.to_string(),
        "filters: parse error: [labels. >|||< foo|==omg_asdf.asdf-qwer]: invalid quote encountered"
    );
    assert_eq!(e.offset(), 7);

    let e = parse("name-foo").err().unwrap();
    assert_eq!(
        e.to_string(),
        "filters: parse error: [name >|-|< foo]: expected an operator (\"==\"|\"!=\"|\"~=\")"
    );

    let e = parse("name==").err().unwrap();
    assert_eq!(e.to_string(), "filters: parse error: [name==]: expected value or quoted");
    assert_eq!(e.offset(), 6);

    let e = parse("name==é,").err().unwrap();
    assert_eq!(e.pos(), 8);
    assert_eq!(e.offset(), 9);
    assert_eq!(e.to_string(), "filters: parse error: [name==é,]: expected field or quoted");

    let e = parse("é").err().unwrap();
    assert_eq!(e.to_string(), "filters: parse error: [ >|é|< ]: expected field or quoted");

    let e = parse("name==é ü").err().unwrap();
    assert_eq!((e.pos(), e.offset()), (8, 9));
    assert_eq!(e.to_string(), "filters: parse error: [name==é  >|ü|< ]: unexpected input: ü");

    let error = parse("name=").err().unwrap().into_error();
    assert_eq!(error.kind(), ErrorKind::InvalidArgument);
    assert_eq!(error.message(), "filters: parse error: [name >|=|< ]: unsupported operator \"=\"");
}

#[test]
fn unquoting() {
    let cases = [
        (r#""""#, Some("")),
        (r#""abc""#, Some("abc")),
        ("|a b|", Some("a b")),
        ("/a.b,c/", Some("a.b,c")),
        (r#""\a\b\f\n\r\t\v\\""#, Some("\u{7}\u{8}\u{c}\n\r\t\u{b}\\")),
        (r#""say \"hi\"""#, Some("say \"hi\"")),
        (r"|a\|b|", Some("a|b")),
        (r"/a\/b/", Some("a/b")),
        (r#""\101\102\060""#, Some("AB0")),
        (r#""\000""#, Some("\0")),
        (r#""\377""#, Some("\u{ff}")),
        (r#""\x41\x7a\xe9""#, Some("Azé")),
        (r#""\u00e9\u4e16""#, Some("é世")),
        (r#""\U0001F600""#, Some("😀")),
        (r#""\U0010FFFF""#, Some("\u{10ffff}")),
        ("\"é世\"", Some("é世")),
        ("", None),
        ("\"", None),
        ("abc", None),
        ("'abc'", None),
        ("`abc`", None),
        ("\"abc|", None),
        ("\"a\"b\"", None),
        ("\"a\nb\"", None),
        (r#""\""#, None),
        (r#""\z""#, None),
        (r#""\'""#, None),
        (r#"|\"|"#, None),
        (r#""\400""#, None),
        (r#""\12""#, None),
        (r#""\128""#, None),
        (r#""\x4""#, None),
        (r#""\x4g""#, None),
        (r#""\u12""#, None),
        (r#""\ud800""#, None),
        (r#""\udfff""#, None),
        (r#""\U00110000""#, None),
        (r#""\UFFFFFFFF""#, None),
        (r#""\U0001F60""#, None),
    ];
    for (input, expected) in cases {
        assert_eq!(unquote(input), expected.map(|s| s.to_owned()), "{}", input);
    }
}

#[test]
fn matching_presence() {
    let o = object("foo", &[("a", "1"), ("empty", "")]);
    assert!(matches("name", &o));
    assert!(matches("labels.a", &o));
    assert!(matches("labels.empty", &o));
    assert!(!matches("labels.b", &o));
    assert!(!matches("other", &o));
    assert!(!matches("name", &object("", &[])));
}

#[test]
fn matching_equality() {
    let o = object("foo", &[("a", "1"), ("empty", "")]);
    assert!(matches("name==foo", &o));
    assert!(!matches("name==fo", &o));
    assert!(!matches("name==Foo", &o));
    assert!(matches("labels.a==1", &o));
    assert!(matches("labels.empty==\"\"", &o));
    assert!(!matches("labels.absent==\"\"", &o));
    assert!(!matches("labels.absent==1", &o));
}

#[test]
fn matching_inequality_does_not_ask_for_presence() {
    let o = object("foo", &[("a", "1")]);
    assert!(matches("name!=bar", &o));
    assert!(!matches("name!=foo", &o));
    assert!(matches("labels.absent!=1", &o));
    assert!(!matches("labels.absent!=\"\"", &o));
    assert!(!matches("labels.a!=1", &o));
}

#[test]
fn matching_tests_the_field_against_the_pattern() {
    let o = object("fooer", &[("version", "v1.22.3")]);
    assert!(matches("name~=^foo", &o));
    assert!(matches("name~=oo", &o));
    assert!(!matches("name~=^oo", &o));
    assert!(!matches("name~=^foo$", &o));
    assert!(matches(r#"labels.version~="^v\\d+\\.\\d+\\.\\d+$""#, &o));
    assert!(matches("labels.version~=/^v[0-9]+[.][0-9]+[.][0-9]+$/", &o));
    assert!(!matches("labels.version~=/^v[0-9]+$/", &o));
    assert_eq!(failure(r"labels.version~=/^v\d+$/"), (16, "illegal escape sequence".to_owned()));
    assert!(matches("name~=/^(foo|bar)er$/", &o));
    assert!(matches(r"name~=|^(foo\|bar)er$|", &o));
    // The pattern does not match itself, the field does not hold it.
    assert!(!matches("name~=f.+r$x", &o));
    assert!(matches("labels.absent~=^$", &o));
}

#[test]
fn a_pattern_that_does_not_compile_matches_nothing() {
    let o = object("foo(", &[]);
    assert!(!matches("name~=foo(", &o));
    assert!(!matches("name~=\"(\"", &o));
    assert!(matches("name~=\"\\\\(\"", &o));
}

#[test]
fn selectors_by_hand() {
    let o = object("foo", &[("a", "1")]);
    let present = Select::new(path(&["labels", "a"]), Operator::Present, String::new());
    let equal = Select::new(path(&["name"]), Operator::Equal, "foo".to_owned());
    let other = Select::new(path(&["name"]), Operator::Equal, "bar".to_owned());
    let pattern = Select::new(path(&["name"]), Operator::Matches, "^f".to_owned());
    assert!(present.is_match(&o));
    assert!(equal.is_match(&o));
    assert!(!other.is_match(&o));
    assert!(pattern.is_match(&o));
    assert_eq!(equal.field_path(), &path(&["name"]));
    assert_eq!(equal.operator(), Operator::Equal);
    assert_eq!(equal.value(), "foo");

    assert!(present.matches_field("", true));
    assert!(!present.matches_field("anything", false));
    assert!(equal.matches_field("foo", true));
    assert!(!equal.matches_field("foo", false));
    assert!(pattern.matches_field("fa", false));
    assert!(!pattern.matches_field("af", true));
    let not_equal = Select::new(path(&["name"]), Operator::NotEqual, "foo".to_owned());
    assert!(!not_equal.matches_field("foo", true));
    assert!(!not_equal.matches_field("foo", false));
    assert!(not_equal.matches_field("bar", false));
}

#[test]
fn all_and_any() {
    let o = object("foo", &[("a", "1")]);
    let yes = || Select::new(path(&["name"]), Operator::Equal, "foo".to_owned());
    let no = || Select::new(path(&["name"]), Operator::Equal, "bar".to_owned());

    assert!(All::<Select>(vec![]).is_match(&o));
    assert!(All(vec![yes()]).is_match(&o));
    assert!(All(vec![yes(), yes()]).is_match(&o));
    assert!(!All(vec![yes(), no()]).is_match(&o));
    assert!(!All(vec![no(), yes()]).is_match(&o));

    assert!(!Any::<All<Select>>(vec![]).is_match(&o));
    assert!(Any(vec![All::<Select>(vec![])]).is_match(&o));
    assert!(Any(vec![All(vec![no()]), All(vec![yes()])]).is_match(&o));
    assert!(!Any(vec![All(vec![no()]), All(vec![yes(), no()])]).is_match(&o));

    assert!(always_fn(&o));
}

#[test]
fn several_filters_are_alternatives() {
    let o = object("foo", &[("a", "1")]);
    let filters = |f: &[&str]| -> Vec<String> { f.iter().map(|s| s.to_string()).collect() };
    assert!(parse_all(&filters(&[])).unwrap().is_match(&o));
    assert!(parse_all(&filters(&[""])).unwrap().is_match(&o));
    assert!(parse_all(&filters(&["name==bar", "labels.a==1"])).unwrap().is_match(&o));
    assert!(!parse_all(&filters(&["name==bar", "labels.a==2"])).unwrap().is_match(&o));
    assert!(!parse_all(&filters(&["name==foo,labels.a==2"])).unwrap().is_match(&o));
    assert_eq!(parse_all(&filters(&["name==bar", "labels.a==2"])).unwrap().0.len(), 2);

    let e = match parse_all(&filters(&["name", "name=", "labels."])) {
        Ok(_) => panic!("a malformed filter was accepted"),
        Err(e) => e,
    };
    assert_eq!(e.kind(), ErrorKind::InvalidArgument);
    assert_eq!(e.message(), "filters: parse error: [name >|=|< ]: unsupported operator \"=\"");
}

#[test]
fn filters_open_to_what_they_hold() {
    let all = parse("a,b==c").unwrap();
    assert_eq!(all.len(), 2);
    assert_eq!(all[1].value(), "c");
    let any = parse_all(&vec!["a".to_owned(), "b".to_owned(), "c".to_owned()]).unwrap();
    assert_eq!(any.len(), 3);
    assert_eq!(any.iter().map(|clause| clause.len()).sum::<usize>(), 3);

    let adaptor = AdapterFunc::new(|fieldpath: Vec<String>| (fieldpath.join("/"), true));
    assert_eq!((*adaptor)(path(&["a", "b"])), ("a/b".to_owned(), true));
    assert_eq!(adaptor.field(path(&["a", "b"])), ("a/b".to_owned(), true));
}

/// An object with one field, `name`.
struct Named(String);

impl Adaptor for Named {
    fn lookup(&self, _fieldpath: FieldPath) -> FieldValue {
        unreachable!("a description for proofs, never run")
    }

    fn field(&self, fieldpath: Vec<String>) -> (String, bool) {
        if fieldpath == ["name"] {
            (self.0.clone(), true)
        } else {
            (String::new(), false)
        }
    }
}

#[test]
fn a_type_of_its_own_as_adaptor() {
    let o: Box<dyn Adaptor> = Box::new(Named("foo".to_owned()));
    assert!(matches("name==foo", &o));
    assert!(matches("name~=^f", &o));
    assert!(!matches("name!=foo", &o));
    assert!(!matches("name.first", &o));
    assert!(!matches("labels.a", &o));
}

/// A filter of its own kind: it matches the objects whose name is as long
/// as it says.
struct NameOfLength(usize);

impl Filter for NameOfLength {
    fn matches(&self, _adaptor: &Box<dyn Adaptor>) -> bool {
        unreachable!("a description for proofs, never run")
    }

    fn is_match(&self, adaptor: &Box<dyn Adaptor>) -> bool {
        adaptor.field(path(&["name"])).0.chars().count() == self.0
    }
}

#[test]
fn filters_of_any_kind_side_by_side() {
    let foo = object("foo", &[("a", "1")]);
    let fooer = object("fooer", &[]);

    // Without a kind named, the filters are boxed filters of any kind.
    let all: All = All(vec![
        Box::new(parse("name~=^foo").unwrap()),
        Box::new(NameOfLength(3)),
        Box::new(Select::new(path(&["labels", "a"]), Operator::Present, String::new())),
        Box::new(FilterFunc::new(always_fn)),
    ]);
    assert!(all.is_match(&foo));
    assert!(!all.is_match(&fooer));

    let any: Any = Any(vec![
        Box::new(NameOfLength(5)),
        Box::new(parse("labels.a==2").unwrap()),
        Box::new(All(vec![Box::new(NameOfLength(3)) as Box<dyn Filter>, Box::new(NameOfLength(4))])),
    ]);
    assert!(!any.is_match(&foo));
    assert!(any.is_match(&fooer));

    let nothing: Any = Any(vec![]);
    assert!(!nothing.is_match(&foo));
    let everything: All = All(vec![]);
    assert!(everything.is_match(&foo));
}

#[test]
fn a_function_as_filter() {
    let foo = object("foo", &[]);
    let always = FilterFunc::new(always_fn);
    assert!(always.is_match(&foo));
    let never = FilterFunc::new(|_adaptor: &Box<dyn Adaptor>| false);
    assert!(!never.is_match(&foo));
    let named = FilterFunc::new(|adaptor: &Box<dyn Adaptor>| adaptor.field(path(&["name"])).1);
    assert!(named.is_match(&foo));
    assert!(!named.is_match(&object("", &[])));
}

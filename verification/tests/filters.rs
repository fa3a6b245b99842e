use containerd::filters::adaptor::{AdapterFunc, Adaptor};
use containerd::filters::filter::Filter;
use containerd::filters::parser::parse;
use std::collections::HashMap;

#[derive(Clone)]
struct CEntry {
    name: String,
    other: String,
    labels: Option<HashMap<String, String>>,
}

fn corpus() -> Vec<CEntry> {
    vec![
        CEntry {
            name: "food".to_owned(),
            other: "".to_owned(),
            labels: Some(HashMap::from([("foo".to_owned(), "true".to_owned())])),
        },
        CEntry { name: "bar".to_owned(), other: "".to_owned(), labels: None },
        CEntry {
            name: "bar".to_owned(),
            other: "".to_owned(),
            labels: Some(HashMap::from([("bar".to_owned(), "true".to_owned())])),
        },
        CEntry {
            name: "fooer".to_owned(),
            other: "".to_owned(),
            labels: Some(HashMap::from([(
                "more complex label with \\ and \"".to_owned(),
                "present".to_owned(),
            )])),
        },
        CEntry {
            name: "fooer".to_owned(),
            other: "".to_owned(),
            labels: Some(HashMap::from([(
                "more complex label with \\ and \".post".to_owned(),
                "present".to_owned(),
            )])),
        },
        CEntry { name: "baz".to_owned(), other: "too complex, yo".to_owned(), labels: None },
        CEntry { name: "bazo".to_owned(), other: "abc".to_owned(), labels: None },
        CEntry {
            name: "compound".to_owned(),
            other: "".to_owned(),
            labels: Some(HashMap::from([("foo".to_owned(), "omg_asdf.asdf-qwer".to_owned())])),
        },
    ]
}

fn adapt(obj: CEntry) -> Box<dyn Adaptor> {
    Box::new(AdapterFunc::new(move |field_path: Vec<String>| -> (String, bool) {
        match field_path[0].as_str() {
            "name" => (obj.name.clone(), obj.name.chars().count() > 0),
            "other" => (obj.other.clone(), obj.other.chars().count() > 0),
            "labels" => match &obj.labels {
                Some(l) => {
                    let key = field_path[1..].join(".");
                    match l.get(&key) {
                        Some(value) => (value.to_owned(), true),
                        None => ("".to_owned(), false),
                    }
                }
                None => ("".to_owned(), false),
            },
            _ => ("".to_owned(), false),
        }
    }))
}

/// The places in the corpus of the entries that `input` matches.
fn matching(input: &str) -> Vec<usize> {
    let filter = parse(input).expect("the filter parses");
    let mut found = Vec::new();
    for (i, entry) in corpus().into_iter().enumerate() {
        if filter.is_match(&adapt(entry)) {
            found.push(i);
        }
    }
    found
}

struct TEntry {
    name: String,
    input: String,
    expected: Option<Vec<usize>>,
    err_string: Option<String>,
}

#[test]
fn test_filters() {
    let everything: Vec<usize> = (0..corpus().len()).collect();
    assert_eq!(everything.len(), 8);

    let cases = vec![
        TEntry {
            name: "Empty".to_owned(),
            input: "".to_owned(),
            expected: Some(everything.clone()),
            err_string: None,
        },
        TEntry {
            name: "Present".to_owned(),
            input: "name".to_owned(),
            expected: Some(everything.clone()),
            err_string: None,
        },
        TEntry {
            name: "LabelPresent".to_owned(),
            input: "labels.foo".to_owned(),
            expected: Some(vec![0, 7]),
            err_string: None,
        },
        TEntry {
            name: "NameAndLabelPresent".to_owned(),
            input: "labels.foo,name".to_owned(),
            expected: Some(vec![0, 7]),
            err_string: None,
        },
        TEntry {
            name: "LabelValue".to_owned(),
            input: "labels.foo==true".to_owned(),
            expected: Some(vec![0]),
            err_string: None,
        },
        TEntry {
            name: "LabelValuePunctuated".to_owned(),
            input: "labels.foo==omg_asdf.asdf-qwer".to_owned(),
            expected: Some(vec![7]),
            err_string: None,
        },
        TEntry {
            name: "LabelValueNoAltQuoting".to_owned(),
            input: "labels.|foo|==omg_asdf.asdf-qwer".to_owned(),
            expected: None,
            err_string: Some(
                "filters: parse error: [labels. >|||< foo|==omg_asdf.asdf-qwer]: invalid quote encountered"
                    .to_owned(),
            ),
        },
        TEntry {
            name: "Name".to_owned(),
            input: "name==bar".to_owned(),
            expected: Some(vec![1, 2]),
            err_string: None,
        },
    ];

    for case in cases {
        match (case.expected, case.err_string) {
            (Some(expected), None) => {
                assert_eq!(matching(&case.input), expected, "case {}", case.name);
            }
            (None, Some(err_string)) => {
                let e = match parse(&case.input) {
                    Ok(_) => panic!("case {}: the filter parses", case.name),
                    Err(e) => e,
                };
                assert_eq!(e.to_string(), err_string, "case {}", case.name);
                assert_eq!(e.pos(), 7, "case {}", case.name);
            }
            _ => unreachable!(),
        }
    }
}

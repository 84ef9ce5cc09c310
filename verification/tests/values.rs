use rocqd::json::{write_object, Json, NotJson};
use rocqd::lsp::types::{
    all_uris_fit, no_diagnostics, read_diagnostics, write_diagnostics, Position, Range, ERROR,
};
use rocqd::path::{display, is_absolute, join, parent, same_path, with_extension};
use rocqd::text::{parse_number, same_text, strip_prefix, trim, trim_trailing, write_int, write_nat};

#[test]
fn json_is_read_and_written() {
    let j = Json::parse(r#" {"b":[1,-2,2.50,"xé",true,null],"a":{},"b2":18446744073709551615} "#)
        .unwrap();
    assert_eq!(j.get("b2"), Some(&Json::Unsigned(u64::MAX)));
    assert_eq!(
        j.pretty(),
        "{\n  \"a\": {},\n  \"b\": [\n    1,\n    -2,\n    2.5,\n    \"xé\",\n    true,\n    null\n  ],\n  \"b2\": 18446744073709551615\n}"
    );
    assert_eq!(j.clone(), j);
    match j.get("b") {
        Some(Json::Array(items)) => {
            assert_eq!(items[0], Json::Unsigned(1));
            assert_eq!(items[1], Json::Signed(-2));
            assert!(matches!(items[2], Json::Float(_)));
            assert_eq!(items[2].clone().pretty(), "2.5");
            assert_eq!(items[3].text(), Some(&"xé".to_string()));
        }
        other => panic!("expected an array, got {other:?}"),
    }
    assert_eq!(Json::parse("[1,]"), Err(NotJson));
    assert_eq!(Json::parse(""), Err(NotJson));
}

#[test]
fn nesting_has_a_limit() {
    let deep = |n: usize| format!("{}{}", "[".repeat(n), "]".repeat(n));
    assert!(Json::parse(&deep(127)).is_ok());
    assert_eq!(Json::parse(&deep(128)), Err(NotJson));
}

#[test]
fn the_last_of_equal_members_counts() {
    let j = Json::parse(r#"{"a":1,"a":2}"#).unwrap();
    assert_eq!(j, Json::Object(vec![("a".to_string(), Json::Unsigned(2))]));
    let twice = vec![("a".to_string(), Json::Unsigned(1)), ("a".to_string(), Json::Unsigned(2))];
    assert_eq!(write_object(&twice), r#"{"a":1,"a":2}"#);
    let twice = Json::Object(twice);
    assert_eq!(twice.get("a"), Some(&Json::Unsigned(2)));
    assert_eq!(twice.pretty(), "{\n  \"a\": 2\n}");
    let many = ["x", "y", "x", "z", "x"];
    let many = many.iter().enumerate().map(|(i, k)| (k.to_string(), Json::Unsigned(i as u64)));
    let inner = vec![("o".to_string(), Json::Object(many.collect()))];
    assert_eq!(write_object(&inner), r#"{"o":{"x":4,"y":1,"z":3}}"#);
}

#[test]
fn fields_of_records() {
    let array = Json::parse("[3,\"x\"]").unwrap();
    assert!(array.is_record(2) && !array.is_record(1));
    assert_eq!(array.u32_field(0, "n"), Some(3));
    assert_eq!(array.text_field(1, "s"), Some("x".to_string()));
    assert_eq!(array.text_field(2, "t"), None);
    let object = Json::parse(r#"{"n":4294967296,"s":1.0}"#).unwrap();
    assert!(object.is_record(0));
    assert_eq!(object.u32_field(0, "n"), None);
    assert_eq!(object.int_between(0, 1), None);
    assert_eq!(Json::Unsigned(u64::MAX).int_between(i64::MIN, i64::MAX), None);
}

#[test]
fn ranges_are_read_back() {
    let range = Range {
        start: Position { line: 1, character: 2 },
        end: Position { line: 3, character: u32::MAX },
    };
    assert_eq!(Range::read(&range.to_json()), Some(range));
    assert_eq!(Range::read(&Json::parse("[[1,2],[3,4294967295]]").unwrap()), Some(range));
    assert_eq!(Range::read(&Json::parse("[[1,2],[3]]").unwrap()), None);
    assert_eq!(Range::read(&Json::parse(r#"{"start":[1,2]}"#).unwrap()), None);
    assert_eq!(Range::read(&Json::parse("[[1,2],[3,4],5]").unwrap()), None);
}

#[test]
fn diagnostics_keep_what_they_carry() {
    let source = Json::parse(
        r#"[{"range":{"start":{"line":0,"character":1},"end":[2,3]},"severity":1,"code":"E1",
            "source":"rocq","message":"bad","unknown":5,"data":{"k":[null]}},
            {"range":[[0,0],[0,0]],"message":"note","severity":null}]"#,
    )
    .unwrap();
    let list = read_diagnostics(&source).unwrap();
    assert_eq!(list.len(), 2);
    assert_eq!(list[0].severity, Some(ERROR));
    assert_eq!(list[0].message, "bad");
    assert_eq!(list[0].range.end, Position { line: 2, character: 3 });
    assert_eq!(list[1].severity, None);
    // What is not part of a diagnostic is left out; the rest comes back unchanged.
    assert_eq!(
        write_diagnostics(&list).pretty(),
        Json::parse(
            r#"[{"code":"E1","data":{"k":[null]},"message":"bad","range":{"start":{"line":0,
                "character":1},"end":{"line":2,"character":3}},"severity":1,"source":"rocq"},
                {"message":"note","range":{"start":{"line":0,"character":0},
                "end":{"line":0,"character":0}}}]"#
        )
        .unwrap()
        .pretty()
    );
    assert_eq!(read_diagnostics(&write_diagnostics(&list)), Some(list));
}

#[test]
fn what_is_no_list_of_diagnostics() {
    assert_eq!(read_diagnostics(&Json::Null), None);
    assert_eq!(read_diagnostics(&Json::parse("[{}]").unwrap()), None);
    assert_eq!(
        read_diagnostics(&Json::parse(r#"[{"range":[[0,0],[0,0]],"message":1}]"#).unwrap()),
        None
    );
    assert_eq!(read_diagnostics(&Json::Array(vec![])), Some(vec![]));
    assert_eq!(no_diagnostics(), vec![]);
}

#[test]
fn a_link_is_read_as_it_is() {
    let source = |href: &str| {
        let text = format!(
            r#"[{{"range":[[0,0],[0,1]],"message":"m","code":7,"codeDescription":{{"href":"{href}"}}}}]"#
        );
        Json::parse(&text).unwrap()
    };
    let list = read_diagnostics(&source("https://a.b/c%20d#e")).unwrap();
    assert!(write_diagnostics(&list).pretty().contains("\"href\": \"https://a.b/c%20d#e\""));
    assert_eq!(read_diagnostics(&source("not a link")), None);
}

#[test]
fn links_of_ordinary_length_fit() {
    let related = r#"[{"range":[[0,0],[0,1]],"message":"m","relatedInformation":[
        {"location":{"uri":"file:///a.v","range":[[0,0],[0,1]]},"message":"see"}]}]"#;
    let j = Json::parse(related).unwrap();
    assert!(all_uris_fit(&j));
    let list = read_diagnostics(&j).unwrap();
    assert!(write_diagnostics(&list).pretty().contains("\"uri\": \"file:///a.v\""));
    assert!(all_uris_fit(&Json::Null) && all_uris_fit(&Json::parse("[1,[2]]").unwrap()));
}

#[test]
fn plain_diagnostics_are_read_unchanged() {
    let source = Json::parse(
        r#"[{"message":"a","range":{"end":{"character":2,"line":1},"start":{"character":0,"line":1}},"severity":-7},
            {"message":"","range":{"end":{"character":0,"line":0},"start":{"character":0,"line":0}}}]"#,
    )
    .unwrap();
    let list = read_diagnostics(&source).unwrap();
    assert_eq!(list[0].severity, Some(-7));
    assert_eq!(write_diagnostics(&list).pretty(), source.pretty());
}

#[test]
fn texts_are_cut() {
    assert_eq!(trim("\u{2003} \t a b\u{a0}\n"), "a b");
    assert_eq!(trim("\u{200b}"), "\u{200b}");
    assert_eq!(trim_trailing("a..b...", '.'), "a..b");
    assert_eq!(trim_trailing("...", '.'), "");
    assert_eq!(strip_prefix("Check nat", "Check "), Some("nat"));
    assert_eq!(strip_prefix("Check", "Check "), None);
    assert!(same_text("é", "é") && !same_text("é", "e") && !same_text("a", "ab"));
}

#[test]
fn numbers_are_read_back() {
    assert_eq!(write_nat(0), "0");
    assert_eq!(write_nat(u64::MAX), "18446744073709551615");
    assert_eq!(write_int(-120), "-120");
    assert_eq!(parse_number(&write_nat(4294967295), 4294967295), Some(4294967295));
    assert_eq!(parse_number("4294967296", 4294967295), None);
    assert_eq!(parse_number("18446744073709551616", u64::MAX), None);
    assert_eq!(parse_number("+007", 7), Some(7));
    assert_eq!(parse_number("+", 7), None);
    assert_eq!(parse_number("", 7), None);
    assert_eq!(parse_number("-1", 7), None);
    assert_eq!(parse_number("1 ", 7), None);
    assert_eq!(parse_number("٣", 7), None);
}

#[test]
fn paths_are_compared_by_component() {
    assert!(same_path(b"/a//b/./c/", b"/a/b/c"));
    assert!(same_path(b"a/.", b"a"));
    assert!(same_path(b"/", b"//"));
    assert!(!same_path(b"./a", b"a"));
    assert!(!same_path(b"/a", b"a"));
    assert!(!same_path(b"/a/../a", b"/a"));
    assert!(!same_path(b"/a/b", b"/a/b/c"));
    assert!(same_path(b"", b""));
}

#[test]
fn paths_are_joined_and_cut() {
    assert!(is_absolute(b"/x") && !is_absolute(b"x/") && !is_absolute(b""));
    assert_eq!(join(b"/a", b"b"), b"/a/b");
    assert_eq!(join(b"/a/", b"b"), b"/a/b");
    assert_eq!(join(b"", b"b"), b"b");
    assert_eq!(join(b"/a", b"/b"), b"/b");
    assert_eq!(parent(b"/a/b.v"), Some(&b"/a"[..]));
    assert_eq!(parent(b"/a"), Some(&b"/"[..]));
    assert_eq!(parent(b"/"), None);
    assert_eq!(parent(b"a"), Some(&b""[..]));
    assert_eq!(parent(b""), None);
    assert_eq!(parent(b"/a//b/./"), Some(&b"/a"[..]));
}

#[test]
fn extensions_are_replaced() {
    assert_eq!(with_extension(b"/run/rocqd.sock", b"pid"), b"/run/rocqd.pid");
    assert_eq!(with_extension(b"a.b/c", b"x"), b"a.b/c.x");
    assert_eq!(with_extension(b"a/.rc", b"x"), b"a/.rc.x");
    assert_eq!(with_extension(b"a.tar.gz/", b"x"), b"a.tar.x");
    assert_eq!(with_extension(b"..", b"x"), b"..");
    assert_eq!(with_extension(b"/", b"x"), b"/");
    assert_eq!(with_extension(b"", b"x"), b"");
}

#[test]
fn paths_are_shown() {
    assert_eq!(display("/tmp/é.v".as_bytes()), "/tmp/é.v");
    assert_eq!(display(b"/tmp/\xff.v"), "/tmp/\u{fffd}.v");
}

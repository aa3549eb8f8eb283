use csv2xml::convert::{convert, ConvertError};

fn element_names_and_texts(out: &[u8]) -> (String, Vec<(String, Vec<(String, String)>)>) {
    let text = std::str::from_utf8(out).expect("output is UTF-8").to_string();
    let docref = roxmltree::Document::parse(&text).expect("output parses as XML");
    let root = docref.root_element();
    let mut rows = Vec::new();
    for row in root.children().filter(|n| n.is_element()) {
        let mut leaves = Vec::new();
        for leaf in row.children().filter(|n| n.is_element()) {
            leaves.push((
                leaf.tag_name().name().to_string(),
                leaf.text().unwrap_or("").to_string(),
            ));
        }
        rows.push((row.tag_name().name().to_string(), leaves));
    }
    (root.tag_name().name().to_string(), rows)
}

#[test]
fn two_records() {
    let data = b"name,age\nAlice,30\nBob,25";
    let out = convert(data, "people", "row").expect("well-formed input converts");
    let (root, rows) = element_names_and_texts(&out);
    assert_eq!(root, "people");
    assert_eq!(rows.len(), 2);
    assert_eq!(rows[0].0, "row");
    assert_eq!(rows[1].0, "row");
    assert_eq!(
        rows[0].1,
        vec![
            ("name".to_string(), "Alice".to_string()),
            ("age".to_string(), "30".to_string())
        ]
    );
    assert_eq!(
        rows[1].1,
        vec![
            ("name".to_string(), "Bob".to_string()),
            ("age".to_string(), "25".to_string())
        ]
    );
}

#[test]
fn short_row_yields_fewer_leaves() {
    let data = b"name,age\nCarl";
    let out = convert(data, "people", "row").expect("a short row is no error");
    let (root, rows) = element_names_and_texts(&out);
    assert_eq!(root, "people");
    assert_eq!(rows.len(), 1);
    assert_eq!(rows[0].1, vec![("name".to_string(), "Carl".to_string())]);
}

#[test]
fn long_row_drops_extra_fields() {
    let data = b"name,age\nDora,41,extra";
    let out = convert(data, "people", "row").expect("a long row is no error");
    let (_, rows) = element_names_and_texts(&out);
    assert_eq!(rows.len(), 1);
    assert_eq!(
        rows[0].1,
        vec![
            ("name".to_string(), "Dora".to_string()),
            ("age".to_string(), "41".to_string())
        ]
    );
}

#[test]
fn whitespace_is_trimmed_everywhere() {
    let data = b" name , age \n Alice , 30 ";
    let out = convert(data, "  people\t", " row\n").expect("well-formed input converts");
    let (root, rows) = element_names_and_texts(&out);
    assert_eq!(root, "people");
    assert_eq!(rows.len(), 1);
    assert_eq!(rows[0].0, "row");
    assert_eq!(
        rows[0].1,
        vec![
            ("name".to_string(), "Alice".to_string()),
            ("age".to_string(), "30".to_string())
        ]
    );
}

#[test]
fn quoted_fields_and_escaped_quotes() {
    let data = b"name,note\n\"Amy, Q.\",\"says \"\"hi\"\"\"";
    let out = convert(data, "people", "row").expect("well-formed input converts");
    let (_, rows) = element_names_and_texts(&out);
    assert_eq!(
        rows[0].1,
        vec![
            ("name".to_string(), "Amy, Q.".to_string()),
            ("note".to_string(), "says \"hi\"".to_string())
        ]
    );
}

#[test]
fn reserved_characters_round_trip() {
    let data = b"expr,who\n1<2&3>0,\"O'Hara \"\"X\"\"\"";
    let out = convert(data, "root", "item").expect("well-formed input converts");
    let (_, rows) = element_names_and_texts(&out);
    assert_eq!(
        rows[0].1,
        vec![
            ("expr".to_string(), "1<2&3>0".to_string()),
            ("who".to_string(), "O'Hara \"X\"".to_string())
        ]
    );
}

#[test]
fn empty_input_yields_empty_root() {
    let data = b"";
    let out = convert(data, "people", "row").expect("empty input converts");
    let (root, rows) = element_names_and_texts(&out);
    assert_eq!(root, "people");
    assert_eq!(rows.len(), 0);
}

#[test]
fn headers_only_yields_empty_root() {
    let data = b"name,age\n";
    let out = convert(data, "people", "row").expect("a header-only input converts");
    let (root, rows) = element_names_and_texts(&out);
    assert_eq!(root, "people");
    assert_eq!(rows.len(), 0);
}

#[test]
fn malformed_input_mid_file_is_a_parse_error() {
    // A record that does not decode as UTF-8 is malformed tabular input: the
    // conversion fails and emits nothing.
    let data = b"name,age\nAlice,30\nB\xFFb,25";
    let r = convert(data, "people", "row");
    assert!(matches!(r, Err(ConvertError::Parse(_))));
}

#[test]
fn output_is_well_formed_markup() {
    let data = b"name,age\nAlice,30";
    let out = convert(data, "people", "row").expect("well-formed input converts");
    let text = std::str::from_utf8(&out).expect("output is UTF-8");
    let doc = roxmltree::Document::parse(text).expect("output parses as XML");
    assert_eq!(doc.root_element().tag_name().name(), "people");
}

#[test]
fn conversion_is_idempotent() {
    let data = b"name,age\nAlice,30\nBob,25";
    let once = convert(data, "people", "row").expect("well-formed input converts");
    let twice = convert(data, "people", "row").expect("well-formed input converts");
    assert_eq!(once, twice);
}

#[test]
fn row_count_matches_input() {
    let data = b"h1,h2\na,b\nc,d\ne,f\ng,h";
    let out = convert(data, "r", "x").expect("well-formed input converts");
    let (_, rows) = element_names_and_texts(&out);
    assert_eq!(rows.len(), 4);
}

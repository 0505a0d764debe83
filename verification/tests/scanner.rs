use message_factory::{read_annotation, read_declaration, scan_lines, MessageMetadata, ScanError};

fn lines(text: &[&str]) -> Vec<String> {
    text.iter().map(|l| l.to_string()).collect()
}

fn pairs(messages: &[MessageMetadata]) -> Vec<(String, String)> {
    messages.iter().map(|m| (m.name().to_string(), m.id().to_string())).collect()
}

fn pair(name: &str, id: &str) -> (String, String) {
    (name.to_string(), id.to_string())
}

fn found(groups: &[Option<&str>]) -> Option<Vec<Option<String>>> {
    Some(groups.iter().map(|g| g.map(|s| s.to_string())).collect())
}

#[test]
fn two_pairs_give_two_records_in_order() {
    let file = lines(&[
        "// @id: 0x0001",
        "message Circle {",
        "// @id: 0x0002",
        "message Square {",
    ]);
    let messages = scan_lines(&file).unwrap();
    assert_eq!(pairs(&messages), vec![pair("Circle", "0x0001"), pair("Square", "0x0002")]);
}

#[test]
fn records_are_equal_to_hand_built_ones() {
    let file = lines(&["// @id: 0x00ff", "message Ping {"]);
    let messages = scan_lines(&file).unwrap();
    assert_eq!(messages, vec![MessageMetadata::new("Ping".to_string(), "0x00ff".to_string())]);
}

#[test]
fn pairs_with_unrelated_lines_between_them() {
    let file = lines(&[
        "syntax = \"proto3\";",
        "",
        "// a triangle",
        "// @id: 0x0010",
        "",
        "// three sides",
        "message Triangle {",
        "  int32 a = 1;",
        "}",
        "",
        "// @id: 0x0011",
        "message Line {",
        "  int32 length = 1;",
        "}",
        "// @id: 0x0012",
        "message Point {",
        "}",
    ]);
    let messages = scan_lines(&file).unwrap();
    assert_eq!(
        pairs(&messages),
        vec![pair("Triangle", "0x0010"), pair("Line", "0x0011"), pair("Point", "0x0012")]
    );
}

#[test]
fn empty_file_has_no_records() {
    assert_eq!(scan_lines(&Vec::new()), Ok(Vec::new()));
}

#[test]
fn dangling_annotation_is_dropped() {
    let file = lines(&["// @id: 0x0001", "message Circle {", "}", "// @id: 0x0002", "", "}"]);
    let messages = scan_lines(&file).unwrap();
    assert_eq!(pairs(&messages), vec![pair("Circle", "0x0001")]);
}

#[test]
fn annotation_alone_gives_nothing() {
    assert_eq!(scan_lines(&lines(&["// @id: 0x0001"])), Ok(Vec::new()));
}

#[test]
fn declaration_without_annotation_is_ignored() {
    let file = lines(&["message Orphan {", "  int32 a = 1;", "}"]);
    assert_eq!(scan_lines(&file), Ok(Vec::new()));
}

#[test]
fn orphan_before_a_pair_leaves_the_pair_alone() {
    let file = lines(&["message Orphan {", "}", "// @id: 0x0007", "message Kept {"]);
    let messages = scan_lines(&file).unwrap();
    assert_eq!(pairs(&messages), vec![pair("Kept", "0x0007")]);
}

#[test]
fn identifier_waits_five_lines_for_its_declaration() {
    let file = lines(&[
        "// @id: 0x00a1",
        "// a comment",
        "",
        "option java_package = \"x\";",
        "/* block",
        "   comment */",
        "message Late {",
    ]);
    let messages = scan_lines(&file).unwrap();
    assert_eq!(pairs(&messages), vec![pair("Late", "0x00a1")]);
}

#[test]
fn second_annotation_before_the_declaration_is_inert() {
    let file = lines(&["// @id: 0x0001", "// @id: 0x0002", "message First {"]);
    let messages = scan_lines(&file).unwrap();
    assert_eq!(pairs(&messages), vec![pair("First", "0x0001")]);
}

#[test]
fn annotation_after_a_consumed_one_is_read_again() {
    let file = lines(&[
        "// @id: 0x0001",
        "// @id: 0x0002",
        "message First {",
        "// @id: 0x0003",
        "message Second {",
    ]);
    let messages = scan_lines(&file).unwrap();
    assert_eq!(pairs(&messages), vec![pair("First", "0x0001"), pair("Second", "0x0003")]);
}

#[test]
fn line_that_is_both_is_read_by_the_state() {
    let file = lines(&["message //@id:0x0001", "message //@id:0x0002"]);
    let messages = scan_lines(&file).unwrap();
    assert_eq!(pairs(&messages), vec![pair("//@id:0x0002", "0x0001")]);
}

#[test]
fn annotation_accepts_either_case() {
    let file = lines(&["// @id: 0XaBcD", "message Mixed {", "// @id: 0xFFFF", "message Upper {"]);
    let messages = scan_lines(&file).unwrap();
    assert_eq!(pairs(&messages), vec![pair("Mixed", "0XaBcD"), pair("Upper", "0xFFFF")]);
}

#[test]
fn annotation_spacing_is_free() {
    let file = lines(&[
        "//@id:0x0001",
        "message A {",
        "    //   @id:   0x0002   ",
        "message B {",
        "\t//\t@id:\t0x0003\t",
        "message C {",
    ]);
    let messages = scan_lines(&file).unwrap();
    assert_eq!(pairs(&messages), vec![pair("A", "0x0001"), pair("B", "0x0002"), pair("C", "0x0003")]);
}

#[test]
fn annotation_may_trail_other_text() {
    let file = lines(&["option x = 1; // @id: 0x0042", "message Trailing {"]);
    let messages = scan_lines(&file).unwrap();
    assert_eq!(pairs(&messages), vec![pair("Trailing", "0x0042")]);
}

#[test]
fn annotation_needs_exactly_four_digits() {
    for bad in ["// @id: 0x001", "// @id: 0x00001", "// @id: 0x00g1", "// @id: 0001", "// @id: x0001"] {
        let file = lines(&[bad, "message Never {"]);
        assert_eq!(scan_lines(&file), Ok(Vec::new()), "{}", bad);
    }
}

#[test]
fn annotation_must_end_the_line() {
    let file = lines(&["// @id: 0x0001 trailing", "message Never {"]);
    assert_eq!(scan_lines(&file), Ok(Vec::new()));
}

#[test]
fn annotation_needs_its_marker() {
    for bad in ["// id: 0x0001", "/ @id: 0x0001", "// @ID: 0x0001", "# @id: 0x0001"] {
        let file = lines(&[bad, "message Never {"]);
        assert_eq!(scan_lines(&file), Ok(Vec::new()), "{}", bad);
    }
}

#[test]
fn declaration_without_a_brace() {
    let file = lines(&["// @id: 0x0001", "message Bare"]);
    let messages = scan_lines(&file).unwrap();
    assert_eq!(pairs(&messages), vec![pair("Bare", "0x0001")]);
}

#[test]
fn declaration_spacing_is_free() {
    let file = lines(&[
        "// @id: 0x0001",
        "  message   Spaced   {",
        "// @id: 0x0002",
        "message\tTabbed\t{",
        "// @id: 0x0003",
        "message Trailing {   ",
    ]);
    let messages = scan_lines(&file).unwrap();
    assert_eq!(pairs(&messages), vec![pair("Spaced", "0x0001"), pair("Tabbed", "0x0002")]);
}

#[test]
fn declaration_must_end_the_line() {
    let file = lines(&["// @id: 0x0001", "message Open { int32 a = 1; }", "message Closed {"]);
    let messages = scan_lines(&file).unwrap();
    assert_eq!(pairs(&messages), vec![pair("Closed", "0x0001")]);
}

#[test]
fn declaration_needs_a_name() {
    let file = lines(&["// @id: 0x0001", "message", "message ", "messages {", "message Named {"]);
    let messages = scan_lines(&file).unwrap();
    assert_eq!(pairs(&messages), vec![pair("Named", "0x0001")]);
}

#[test]
fn scanning_twice_gives_the_same_records() {
    let file = lines(&[
        "// @id: 0x0001",
        "message Circle {",
        "}",
        "message Orphan {",
        "// @id: 0x0002",
        "message Square {",
        "// @id: 0x0003",
    ]);
    let first = scan_lines(&file);
    let second = scan_lines(&file);
    assert_eq!(first, second);
    assert_eq!(
        pairs(&first.unwrap()),
        vec![pair("Circle", "0x0001"), pair("Square", "0x0002")]
    );
}

#[test]
fn read_annotation_without_a_match() {
    assert_eq!(read_annotation(found(&[]), 3), Ok(None));
}

#[test]
fn read_annotation_takes_the_identifier() {
    assert_eq!(read_annotation(found(&[Some("0x0001")]), 0), Ok(Some("0x0001".to_string())));
}

#[test]
fn read_annotation_takes_the_last_of_several() {
    assert_eq!(
        read_annotation(found(&[Some("0x0001"), Some("0x0002"), Some("0x0003")]), 0),
        Ok(Some("0x0003".to_string()))
    );
}

#[test]
fn read_annotation_reports_a_missing_group() {
    assert_eq!(read_annotation(found(&[None]), 7), Err(ScanError::MissingGroup { line: 7 }));
    assert_eq!(
        read_annotation(found(&[None, Some("0x0001")]), 8),
        Err(ScanError::MissingGroup { line: 8 })
    );
    assert_eq!(
        read_annotation(found(&[Some("0x0001"), None]), 9),
        Err(ScanError::MissingGroup { line: 9 })
    );
}

#[test]
fn read_annotation_reports_a_rejected_pattern() {
    assert_eq!(read_annotation(None, 0), Err(ScanError::BadPattern));
}

#[test]
fn read_declaration_without_a_match() {
    assert_eq!(read_declaration(found(&[]), 3), Ok(None));
}

#[test]
fn read_declaration_takes_the_name() {
    assert_eq!(read_declaration(found(&[Some("Circle")]), 0), Ok(Some("Circle".to_string())));
}

#[test]
fn read_declaration_reports_a_second_match() {
    assert_eq!(
        read_declaration(found(&[Some("Circle"), Some("Square")]), 4),
        Err(ScanError::MalformedPairing { line: 4 })
    );
    assert_eq!(
        read_declaration(found(&[Some("A"), Some("B"), None]), 5),
        Err(ScanError::MalformedPairing { line: 5 })
    );
}

#[test]
fn read_declaration_reports_a_missing_group() {
    assert_eq!(read_declaration(found(&[None]), 1), Err(ScanError::MissingGroup { line: 1 }));
    assert_eq!(
        read_declaration(found(&[None, Some("B")]), 2),
        Err(ScanError::MissingGroup { line: 2 })
    );
    assert_eq!(
        read_declaration(found(&[Some("A"), None]), 3),
        Err(ScanError::MissingGroup { line: 3 })
    );
}

#[test]
fn read_declaration_reports_a_rejected_pattern() {
    assert_eq!(read_declaration(None, 0), Err(ScanError::BadPattern));
}

use message_factory::{
    generate_factory_file, get_proto_list, get_protos_info, proto_glob_pattern, MessageMetadata,
    ProtoMessageInfo, SourceFile,
};

fn file(path: &str, stem: &str, text: &[&str]) -> SourceFile {
    SourceFile::new(
        path.to_string(),
        stem.to_string(),
        text.iter().map(|l| l.to_string()).collect(),
    )
}

fn record(path: &str, stem: &str, messages: &[(&str, &str)]) -> ProtoMessageInfo {
    ProtoMessageInfo::new(
        path.to_string(),
        stem.to_string(),
        messages.iter().map(|(n, i)| MessageMetadata::new(n.to_string(), i.to_string())).collect(),
    )
}

fn shapes_file() -> SourceFile {
    file(
        "protos/shapes.proto",
        "shapes",
        &["// @id: 0x0001", "message Circle {", "// @id: 0x0002", "message Square {"],
    )
}

#[test]
fn glob_pattern_selects_the_schema_files_of_the_directory() {
    assert_eq!(proto_glob_pattern("protos"), "protos/*.proto");
    assert_eq!(proto_glob_pattern("/abs/dir"), "/abs/dir/*.proto");
    assert_eq!(proto_glob_pattern(""), "/*.proto");
}

#[test]
fn stem_of_a_path() {
    let stem = |path: &str| {
        SourceFile::from_path(path.to_string(), Vec::new()).map(|f| f.stem().to_string())
    };
    assert_eq!(stem("protos/shapes.proto"), Some("shapes".to_string()));
    assert_eq!(stem("shapes.proto"), Some("shapes".to_string()));
    assert_eq!(stem("/abs/dir/wire.v2.proto"), Some("wire.v2".to_string()));
    assert_eq!(stem("dir/.proto"), Some(".proto".to_string()));
    assert_eq!(stem("dir/plain"), Some("plain".to_string()));
}

#[test]
fn with_stem_keeps_the_stem_it_is_given() {
    let lines = vec!["// @id: 0x0001".to_string()];
    let made = SourceFile::with_stem("p/a.proto".to_string(), Some("a".to_string()), lines.clone());
    assert_eq!(made, Some(SourceFile::new("p/a.proto".to_string(), "a".to_string(), lines.clone())));
    let other = SourceFile::with_stem("p/a.proto".to_string(), Some("b".to_string()), lines);
    assert_eq!(other.unwrap().stem(), "b");
}

#[test]
fn with_stem_without_a_stem_is_nothing() {
    assert_eq!(SourceFile::with_stem("p/a.proto".to_string(), None, Vec::new()), None);
    assert_eq!(SourceFile::with_stem("".to_string(), None, vec!["x".to_string()]), None);
}

#[test]
fn path_without_a_file_name_has_no_stem() {
    assert_eq!(SourceFile::from_path("".to_string(), Vec::new()), None);
    assert_eq!(SourceFile::from_path("/".to_string(), Vec::new()), None);
    assert_eq!(SourceFile::from_path("protos/..".to_string(), Vec::new()), None);
}

#[test]
fn source_file_keeps_what_it_was_given() {
    let lines = vec!["// @id: 0x0001".to_string(), "message A {".to_string()];
    let read = SourceFile::from_path("p/a.proto".to_string(), lines.clone()).unwrap();
    assert_eq!(read.path(), "p/a.proto");
    assert_eq!(read.stem(), "a");
    assert_eq!(read.lines(), &lines);
    assert_eq!(read, SourceFile::new("p/a.proto".to_string(), "a".to_string(), lines));
    let other = file("p/a.proto", "module_a", &["x"]);
    assert_eq!(other.path(), "p/a.proto");
    assert_eq!(other.stem(), "module_a");
    assert_eq!(other.lines(), &vec!["x".to_string()]);
}

#[test]
fn shapes_directory() {
    let lines = ["// @id: 0x0001", "message Circle {", "// @id: 0x0002", "message Square {"];
    let read = SourceFile::from_path(
        "protos/shapes.proto".to_string(),
        lines.iter().map(|l| l.to_string()).collect(),
    )
    .unwrap();
    assert_eq!(read, shapes_file());
    let infos = get_protos_info(&vec![read]).unwrap();
    assert_eq!(infos.len(), 1);
    assert_eq!(infos[0].file_path(), "protos/shapes.proto");
    assert_eq!(infos[0].file_name(), "shapes");
    assert_eq!(infos[0].messages().len(), 2);
    assert_eq!(infos[0].messages()[0].name(), "Circle");
    assert_eq!(infos[0].messages()[0].id(), "0x0001");
    assert_eq!(infos[0].messages()[1].name(), "Square");
    assert_eq!(infos[0].messages()[1].id(), "0x0002");
    assert_eq!(
        infos,
        vec![record("protos/shapes.proto", "shapes", &[("Circle", "0x0001"), ("Square", "0x0002")])]
    );

    let out = generate_factory_file("src/protos", &infos);
    let circle = out.factory_source.find("register::<shapes::Circle>(0x0001);").unwrap();
    let square = out.factory_source.find("register::<shapes::Square>(0x0002);").unwrap();
    assert!(circle < square);
    let circle = out.aggregator_source.find("pub use shapes::Circle;").unwrap();
    let square = out.aggregator_source.find("pub use shapes::Square;").unwrap();
    assert!(circle < square);
}

#[test]
fn orphan_file_has_a_record_without_messages() {
    let infos = get_protos_info(&vec![file("p/orphan.proto", "orphan", &["message Orphan {"])]).unwrap();
    assert_eq!(infos, vec![record("p/orphan.proto", "orphan", &[])]);
}

#[test]
fn orphan_then_late_declaration() {
    let infos = get_protos_info(&vec![file(
        "p/late.proto",
        "late",
        &[
            "message Orphan {",
            "}",
            "// @id: 0x0101",
            "// one",
            "// two",
            "// three",
            "// four",
            "// five",
            "message Late {",
        ],
    )])
    .unwrap();
    assert_eq!(infos, vec![record("p/late.proto", "late", &[("Late", "0x0101")])]);
}

#[test]
fn no_files_no_records() {
    assert_eq!(get_protos_info(&Vec::new()), Ok(Vec::new()));
}

#[test]
fn records_keep_the_order_of_the_files() {
    let zeta = || file("p/zeta.proto", "zeta", &["// @id: 0x0009", "message Z {"]);
    let alpha = || file("p/alpha.proto", "alpha", &["// @id: 0x0001", "message A {"]);
    let forward = get_protos_info(&vec![zeta(), alpha()]).unwrap();
    assert_eq!(
        forward,
        vec![
            record("p/zeta.proto", "zeta", &[("Z", "0x0009")]),
            record("p/alpha.proto", "alpha", &[("A", "0x0001")]),
        ]
    );
    let backward = get_protos_info(&vec![alpha(), zeta()]).unwrap();
    assert_eq!(
        backward,
        vec![
            record("p/alpha.proto", "alpha", &[("A", "0x0001")]),
            record("p/zeta.proto", "zeta", &[("Z", "0x0009")]),
        ]
    );
}

#[test]
fn two_runs_over_the_same_files_agree() {
    let files = vec![shapes_file(), file("p/b.proto", "b", &["// @id: 0x0003"]), shapes_file()];
    let first = get_protos_info(&files);
    let second = get_protos_info(&files);
    assert_eq!(first, second);
    assert_eq!(first.unwrap().len(), 3);
}

#[test]
fn pending_identifier_does_not_cross_files() {
    let infos = get_protos_info(&vec![
        file("p/a.proto", "a", &["// @id: 0x0001"]),
        file("p/b.proto", "b", &["message B {", "// @id: 0x0002", "message C {"]),
    ])
    .unwrap();
    assert_eq!(
        infos,
        vec![record("p/a.proto", "a", &[]), record("p/b.proto", "b", &[("C", "0x0002")])]
    );
}

#[test]
fn proto_list_gives_the_paths_in_order() {
    let infos = vec![
        record("p/zeta.proto", "zeta", &[("Z", "0x0009")]),
        record("/abs/alpha.proto", "alpha", &[]),
        record("p/zeta.proto", "zeta", &[]),
    ];
    assert_eq!(get_proto_list(&infos), vec!["p/zeta.proto", "/abs/alpha.proto", "p/zeta.proto"]);
    assert_eq!(get_proto_list(&Vec::new()), Vec::<&str>::new());
}

#[test]
fn proto_list_of_a_collection() {
    let infos = get_protos_info(&vec![shapes_file(), file("p/b.proto", "b", &[])]).unwrap();
    assert_eq!(get_proto_list(&infos), vec!["protos/shapes.proto", "p/b.proto"]);
}

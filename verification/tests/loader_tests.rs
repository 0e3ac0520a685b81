use coding::{Code, CodingSystem, LoadError, RowFault, load_coding_system};

#[test]
fn csv_two_rows_in_order() {
    let body = "11-0000,Management Occupations\n11-1011,Chief Executives\n";
    let (system, warnings) = load_coding_system("soc2018_all.csv", body, "soc 2018").unwrap();
    assert_eq!(system.name, "soc 2018");
    assert_eq!(system.codes.len(), 2);
    assert_eq!(system.codes[0], Code::new("11-0000", "Management Occupations", "soc 2018"));
    assert_eq!(system.codes[1], Code::new("11-1011", "Chief Executives", "soc 2018"));
    assert_eq!(warnings.len(), 0);
}

#[test]
fn csv_first_row_is_data_not_header() {
    let body = "code,title\n11-0000,Management Occupations\n";
    let (system, warnings) = load_coding_system("table.csv", body, "soc 2018").unwrap();
    assert_eq!(system.codes.len(), 2);
    assert_eq!(system.codes[0], Code::new("code", "title", "soc 2018"));
    assert_eq!(warnings.len(), 0);
}

#[test]
fn csv_well_formed_keeps_every_row() {
    let body = "a,1\nb,2\nc,3\nd,4\ne,5";
    let (system, warnings) = load_coding_system("x.csv", body, "demo").unwrap();
    assert_eq!(system.codes.len(), 5);
    assert_eq!(warnings.len(), 0);
    for code in &system.codes {
        assert_eq!(code.coding_system, "demo");
    }
}

#[test]
fn csv_short_row_warns_and_is_dropped() {
    let body = "11-0000,Management Occupations\nlonely\n11-1011,Chief Executives\n";
    let (system, warnings) = load_coding_system("soc.csv", body, "soc 2018").unwrap();
    assert_eq!(system.codes.len(), 2);
    assert_eq!(system.codes[0].code, "11-0000");
    assert_eq!(system.codes[1].code, "11-1011");
    assert_eq!(warnings.len(), 1);
    assert_eq!(warnings[0].line, 2);
    assert_eq!(warnings[0].fault, RowFault::MissingTitle);
}

#[test]
fn csv_interior_empty_line_warns() {
    let body = "a,1\n\nb,2\n";
    let (system, warnings) = load_coding_system("x.csv", body, "demo").unwrap();
    assert_eq!(system.codes.len(), 2);
    assert_eq!(warnings.len(), 1);
    assert_eq!(warnings[0].line, 2);
}

#[test]
fn csv_extra_columns_are_ignored() {
    let body = "a,1,extra,columns\n";
    let (system, warnings) = load_coding_system("x.csv", body, "demo").unwrap();
    assert_eq!(system.codes.len(), 1);
    assert_eq!(system.codes[0], Code::new("a", "1", "demo"));
    assert_eq!(warnings.len(), 0);
}

#[test]
fn csv_empty_content_has_no_rows() {
    let (system, warnings) = load_coding_system("x.csv", "", "demo").unwrap();
    assert_eq!(system.codes.len(), 0);
    assert_eq!(warnings.len(), 0);
}

#[test]
fn crlf_rows_parse_like_lf() {
    let body = "11-0000,Management Occupations\r\n11-1011,Chief Executives\r\n";
    let (system, warnings) = load_coding_system("soc.csv", body, "soc 2018").unwrap();
    assert_eq!(system.codes.len(), 2);
    assert_eq!(system.codes[0], Code::new("11-0000", "Management Occupations", "soc 2018"));
    assert_eq!(system.codes[1], Code::new("11-1011", "Chief Executives", "soc 2018"));
    assert_eq!(warnings.len(), 0);
}

#[test]
fn tdt_splits_on_tabs() {
    let body = "11-0000\tManagement Occupations\n11-1011\tChief Executives\n";
    let (system, warnings) = load_coding_system("soc.tdt", body, "soc 2018").unwrap();
    assert_eq!(system.codes.len(), 2);
    assert_eq!(system.codes[0], Code::new("11-0000", "Management Occupations", "soc 2018"));
    assert_eq!(warnings.len(), 0);
    // a comma is not a delimiter for tab-delimited content
    let (system, warnings) = load_coding_system("soc.tdt", "a,1\n", "soc 2018").unwrap();
    assert_eq!(system.codes.len(), 0);
    assert_eq!(warnings.len(), 1);
}

#[test]
fn json_single_object() {
    let body = "[{\"soc_code\":\"0\",\"title\":\"All\"}]";
    let (system, warnings) = load_coding_system("noc.json", body, "noc 2011").unwrap();
    assert_eq!(system.name, "noc 2011");
    assert_eq!(system.codes.len(), 1);
    assert_eq!(system.codes[0], Code::new("0", "All", "noc 2011"));
    assert_eq!(warnings.len(), 0);
}

#[test]
fn json_maps_every_object_in_order() {
    let body = "[{\"soc_code\":\"11-0000\",\"title\":\"Management Occupations\"},{\"title\":\"Chief Executives\",\"soc_code\":\"11-1011\"}]";
    let (system, _) = load_coding_system("soc.json", body, "soc 2018").unwrap();
    assert_eq!(system.codes.len(), 2);
    assert_eq!(system.codes[0], Code::new("11-0000", "Management Occupations", "soc 2018"));
    assert_eq!(system.codes[1], Code::new("11-1011", "Chief Executives", "soc 2018"));
}

#[test]
fn json_not_an_array_is_fatal() {
    let err = load_coding_system("x.json", "{\"soc_code\":\"0\",\"title\":\"All\"}", "demo").unwrap_err();
    assert!(matches!(err, LoadError::ParseError { .. }));
    let err = load_coding_system("x.json", "not json at all", "demo").unwrap_err();
    assert!(matches!(err, LoadError::ParseError { .. }));
}

#[test]
fn json_missing_field_is_fatal() {
    let err = load_coding_system("x.json", "[{\"soc_code\":\"0\"}]", "demo").unwrap_err();
    assert!(matches!(err, LoadError::ParseError { .. }));
    let err = load_coding_system("x.json", "[{\"title\":\"All\"}]", "demo").unwrap_err();
    assert!(matches!(err, LoadError::ParseError { .. }));
}

#[test]
fn json_extra_fields_of_any_type_are_ignored() {
    let body = "[{\"soc_code\":\"0\",\"title\":\"All\",\"level\":3,\"leaf\":true,\"notes\":null}]";
    let (system, warnings) = load_coding_system("noc.json", body, "noc 2011").unwrap();
    assert_eq!(system.codes.len(), 1);
    assert_eq!(system.codes[0], Code::new("0", "All", "noc 2011"));
    assert_eq!(warnings.len(), 0);
}

#[test]
fn json_non_string_required_field_is_fatal() {
    let err = load_coding_system("x.json", "[{\"soc_code\":5,\"title\":\"All\"}]", "demo").unwrap_err();
    assert!(matches!(err, LoadError::ParseError { .. }));
    let err = load_coding_system("x.json", "[{\"soc_code\":\"5\",\"title\":[]}]", "demo").unwrap_err();
    assert!(matches!(err, LoadError::ParseError { .. }));
}

#[test]
fn json_empty_array_is_empty_system() {
    let (system, warnings) = load_coding_system("x.json", "[]", "demo").unwrap();
    assert_eq!(system.codes.len(), 0);
    assert_eq!(warnings.len(), 0);
}

#[test]
fn unknown_extension_is_fatal() {
    let err = load_coding_system("demo.txt", "a,1\n", "soc 2010").unwrap_err();
    match err {
        LoadError::UnsupportedFormat { extension } => assert_eq!(extension, "txt"),
        other => panic!("expected an unsupported-format failure, got {other:?}"),
    }
}

#[test]
fn extension_match_is_case_sensitive() {
    let err = load_coding_system("FILE.CSV", "a,1\n", "demo").unwrap_err();
    match err {
        LoadError::UnsupportedFormat { extension } => assert_eq!(extension, "CSV"),
        other => panic!("expected an unsupported-format failure, got {other:?}"),
    }
    assert!(load_coding_system("file.csv", "a,1\n", "demo").is_ok());
}

#[test]
fn extension_is_taken_after_last_dot() {
    assert!(load_coding_system("https://example.test/codingsystems/soc2018_all.csv", "a,1\n", "demo").is_ok());
    let err = load_coding_system("archive.csv.gz", "a,1\n", "demo").unwrap_err();
    assert!(matches!(err, LoadError::UnsupportedFormat { .. }));
}

#[test]
fn missing_extension_is_fatal() {
    let err = load_coding_system("demo", "a,1\n", "demo system").unwrap_err();
    match err {
        LoadError::UnsupportedFormat { extension } => assert_eq!(extension, "demo"),
        other => panic!("expected an unsupported-format failure, got {other:?}"),
    }
    let err = load_coding_system("demo.", "a,1\n", "demo system").unwrap_err();
    match err {
        LoadError::UnsupportedFormat { extension } => assert_eq!(extension, ""),
        other => panic!("expected an unsupported-format failure, got {other:?}"),
    }
}

#[test]
fn dotless_format_token_is_fatal() {
    // a bare format token is a whole file name without an extension hint
    for name in ["csv", "tdt", "json"] {
        let err = load_coding_system(name, "a,1\n", "demo").unwrap_err();
        match err {
            LoadError::UnsupportedFormat { extension } => assert_eq!(extension, name),
            other => panic!("expected an unsupported-format failure, got {other:?}"),
        }
    }
}

#[test]
fn coding_system_name_is_copied_verbatim() {
    let (system, _) = load_coding_system("x.csv", "a,1\n", "  spaced name  ").unwrap();
    assert_eq!(system.name, "  spaced name  ");
    assert_eq!(system.codes[0].coding_system, "  spaced name  ");
}

#[test]
fn from_csv_text_parses_commas() {
    let (system, warnings) = CodingSystem::from_csv_text("0,All\n", "noc 2011");
    assert_eq!(system.name, "noc 2011");
    assert_eq!(system.codes.len(), 1);
    assert_eq!(system.codes[0], Code::new("0", "All", "noc 2011"));
    assert_eq!(warnings.len(), 0);
}

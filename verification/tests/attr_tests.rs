use diagweave::derive_model::{
    from_field, parse_display_mode, parse_set_options, resolved_source_index, scan_field_refs, source_field,
    variant_constructor_names, DeriveAttr, DisplayMode, DisplayModeError, FieldAttr, FieldRef, FieldRefError,
    SetOption, SetOptionError, SetOptions,
};

fn attr(name: &str, has_args: bool) -> FieldAttr {
    FieldAttr { name: name.to_string(), has_args }
}

fn display(args: Option<&str>) -> DeriveAttr {
    DeriveAttr { name: "display".to_string(), args: args.map(|a| a.to_string()) }
}

fn opt(key: &str, value: &str) -> SetOption {
    SetOption { key: key.to_string(), value: value.to_string() }
}

#[test]
fn field_markers_are_scanned_per_field() {
    let fields = vec![vec![attr("doc", true), attr("source", false)], vec![], vec![attr("from", false)]];
    let refs = scan_field_refs(&fields).expect("valid markers");
    assert_eq!(
        refs,
        vec![
            FieldRef { index: 0, has_from: false, has_source: true },
            FieldRef { index: 1, has_from: false, has_source: false },
            FieldRef { index: 2, has_from: true, has_source: false },
        ]
    );
    assert_eq!(scan_field_refs(&vec![vec![attr("from", false), attr("from", false)]]), Err(FieldRefError::DuplicateFrom));
    assert_eq!(scan_field_refs(&vec![vec![attr("source", true)]]), Err(FieldRefError::SourceWithArguments));
    assert_eq!(scan_field_refs(&vec![vec![attr("from", true)]]), Err(FieldRefError::FromWithArguments));
    assert_eq!(scan_field_refs(&vec![vec![attr("source", false), attr("source", false)]]), Err(FieldRefError::DuplicateSource));
    assert_eq!(FieldRefError::DuplicateFrom.message(), "duplicate #[from] on field");
}

#[test]
fn from_field_needs_a_single_marked_field() {
    assert_eq!(from_field(&vec![vec![attr("from", false)]]), Ok(Some(0)));
    assert_eq!(from_field(&vec![vec![], vec![]]), Ok(None));
    assert_eq!(from_field(&vec![vec![attr("from", false)], vec![]]), Err(FieldRefError::FromNeedsOneField));
    assert_eq!(
        from_field(&vec![vec![attr("from", false)], vec![attr("from", false)]]),
        Err(FieldRefError::MultipleFrom)
    );
}

#[test]
fn source_field_accepts_one_marker() {
    let fields = vec![vec![], vec![attr("source", false)]];
    assert_eq!(source_field(&fields), Ok(Some(FieldRef { index: 1, has_from: false, has_source: true })));
    assert_eq!(
        source_field(&vec![vec![attr("source", false)], vec![attr("from", false)]]),
        Err(FieldRefError::MultipleSources)
    );
    assert_eq!(resolved_source_index(&fields, false), Ok(Some(1)));
    assert_eq!(resolved_source_index(&vec![vec![]], true), Ok(Some(0)));
    assert_eq!(resolved_source_index(&vec![vec![], vec![]], true), Err(FieldRefError::TransparentNeedsOneField));
    assert_eq!(resolved_source_index(&vec![vec![], vec![]], false), Ok(None));
}

#[test]
fn display_mode_reads_templates_and_transparent() {
    match parse_display_mode(&vec![display(Some("\"user {id} missing\""))]) {
        Ok(DisplayMode::Template(t)) => assert_eq!(t, "user {id} missing"),
        other => panic!("expected a template, got {other:?}"),
    }
    assert!(matches!(parse_display_mode(&vec![display(Some("transparent"))]), Ok(DisplayMode::Transparent)));
    assert!(matches!(parse_display_mode(&vec![]), Ok(DisplayMode::Default)));
    let other = DeriveAttr { name: "doc".to_string(), args: Some("\"x\"".to_string()) };
    assert!(matches!(parse_display_mode(&vec![other]), Ok(DisplayMode::Default)));
    assert_eq!(parse_display_mode(&vec![display(Some("opaque"))]).err(), Some(DisplayModeError::Unsupported));
    assert_eq!(parse_display_mode(&vec![display(Some("1 + 2"))]).err(), Some(DisplayModeError::Malformed));
    assert_eq!(parse_display_mode(&vec![display(None)]).err(), Some(DisplayModeError::Malformed));
    assert_eq!(
        parse_display_mode(&vec![display(Some("transparent")), display(Some("\"x\""))]).err(),
        Some(DisplayModeError::Duplicate)
    );
}

#[test]
fn set_options_are_validated() {
    let d = SetOptions::default();
    assert_eq!(d.report_path, "::diagweave::report::Report");
    assert_eq!(d.constructor_prefix, "");
    let o = parse_set_options(&vec![opt("constructor_prefix", "new_v2"), opt("report_path", "crate::Report")]).expect("valid");
    assert_eq!(o.report_path, "crate::Report");
    assert_eq!(o.constructor_prefix, "new_v2");
    assert_eq!(parse_set_options(&vec![]).map(|o| o.report_path), Ok("::diagweave::report::Report".to_string()));
    assert_eq!(parse_set_options(&vec![opt("report_path", "not a path!")]).err(), Some(SetOptionError::InvalidReportPath));
    assert_eq!(parse_set_options(&vec![opt("constructor_prefix", "Bad")]).err(), Some(SetOptionError::InvalidConstructorPrefix));
    assert_eq!(parse_set_options(&vec![opt("color", "red")]).err(), Some(SetOptionError::UnknownOption));
}

#[test]
fn constructor_names_are_prefixed_and_unique() {
    let names = variant_constructor_names(&vec!["NotFound".to_string(), "HTTPTimeout".to_string()], "new")
        .expect("unique names");
    assert_eq!(names, vec!["new_not_found".to_string(), "new_http_timeout".to_string()]);
    let names = variant_constructor_names(&vec!["NotFound".to_string()], "").expect("unique names");
    assert_eq!(names, vec!["not_found".to_string()]);
    assert_eq!(
        variant_constructor_names(&vec!["NotFound".to_string(), "notFound".to_string(), "Notfound".to_string()], ""),
        Err("not_found".to_string())
    );
}

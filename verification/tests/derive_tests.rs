use diagweave::derive_model::{
    compile_display_template, convert_variant, converts_into, merge_debug_derive, render_display,
    render_display_template, resolve_sets, to_snake_case, union_variants, variant_for_type, SetDef,
    SetError, TemplateError, TemplatePiece, UnionTerm,
};

fn strings(items: &[&str]) -> Vec<String> {
    items.iter().map(|s| s.to_string()).collect()
}

fn example_sets() -> Vec<SetDef> {
    vec![
        SetDef { name: "SetA".to_string(), includes: vec![], variants: strings(&["Variant1"]) },
        SetDef { name: "SetB".to_string(), includes: strings(&["SetA"]), variants: strings(&["Variant2"]) },
        SetDef { name: "SetC".to_string(), includes: vec![], variants: strings(&["Variant3"]) },
    ]
}

fn api_error_terms() -> Vec<UnionTerm> {
    vec![
        UnionTerm::External { type_path: "AuthError".to_string(), alias: None },
        UnionTerm::External { type_path: "DbError".to_string(), alias: None },
        UnionTerm::Inline { variants: strings(&["RateLimited", "TupleEscaped"]) },
    ]
}

#[test]
fn test_set_derives_clone_copy() {
    let merged = merge_debug_derive(&strings(&["Clone", "Copy", "Debug", "PartialEq", "Eq"]));
    assert_eq!(merged, strings(&["Clone", "Copy", "Debug", "PartialEq", "Eq"]));
}

#[test]
fn test_set_derives_clone_only() {
    let merged = merge_debug_derive(&strings(&["Clone", "Debug", "PartialEq"]));
    assert_eq!(merged, strings(&["Clone", "Debug", "PartialEq"]));
    let members = resolve_sets(&example_sets()).expect("sets resolve");
    assert_eq!(members[1], strings(&["Variant1", "Variant2"]));
}

#[test]
fn test_set_derives_implicit_debug() {
    let merged = merge_debug_derive(&strings(&["Clone"]));
    assert_eq!(merged, strings(&["Clone", "Debug"]));
    assert!(format!("{:?}", merged).contains("Debug"));
}

#[test]
fn test_conversion_between_differently_derived_sets() {
    let members = resolve_sets(&example_sets()).expect("sets resolve");
    assert!(converts_into(&members[0], &members[1]));
    assert!(!converts_into(&members[1], &members[0]));
    assert!(!converts_into(&members[2], &members[1]));
    match convert_variant(&members[1], "Variant1") {
        Some(0) => {}
        _ => panic!("unexpected"),
    }
}

#[test]
fn wraps_external_error_types() {
    let variants = union_variants(&api_error_terms()).expect("distinct variants");
    match variant_for_type(&variants, "AuthError") {
        Some(i) => assert_eq!(variants[i].name, "AuthError"),
        _ => panic!("unexpected variant"),
    }
}

#[test]
fn keeps_inline_variants() {
    let variants = union_variants(&api_error_terms()).expect("distinct variants");
    assert_eq!(variants.len(), 4);
    assert_eq!(variants[2].name, "RateLimited");
    assert_eq!(variants[2].wraps, None);
    let names = strings(&["retry_after_secs"]);
    let text = render_display("Rate limited for {retry_after_secs}s", &names, &strings(&["10"]));
    assert_eq!(text, Ok("Rate limited for 10s".to_string()));
}

#[test]
fn converts_second_external_type() {
    let variants = union_variants(&api_error_terms()).expect("distinct variants");
    match variant_for_type(&variants, "DbError") {
        Some(i) => {
            assert_eq!(i, 1);
            assert_eq!(variants[i].name, "DbError");
        }
        _ => panic!("unexpected variant"),
    }
}

#[test]
fn supports_alias_for_external_types() {
    let terms = vec![
        UnionTerm::External { type_path: "AuthError".to_string(), alias: Some("Auth".to_string()) },
        UnionTerm::External { type_path: "DbError".to_string(), alias: Some("Database".to_string()) },
    ];
    let variants = union_variants(&terms).expect("distinct variants");
    match variant_for_type(&variants, "AuthError") {
        Some(i) => assert_eq!(variants[i].name, "Auth"),
        _ => panic!("unexpected variant"),
    }
    assert_eq!(variants[1].name, "Database");
}

#[test]
fn union_display_works_for_wrapped_and_inline_variants() {
    let wrapped = render_display("{0}", &strings(&["0"]), &strings(&["auth token invalid"]));
    let inline = render_display("Rate limited for {retry_after_secs}s", &strings(&["retry_after_secs"]), &strings(&["12"]));
    let escaped = render_display("Escaped braces {{db}} code={0}", &strings(&["0"]), &strings(&["88"]));
    assert_eq!(wrapped, Ok("auth token invalid".to_string()));
    assert_eq!(inline, Ok("Rate limited for 12s".to_string()));
    assert_eq!(escaped, Ok("Escaped braces {db} code=88".to_string()));
    let variants = union_variants(&api_error_terms()).expect("distinct variants");
    let dbg = format!("{:?}", variants[2]);
    assert!(dbg.contains("RateLimited"));
}

#[test]
fn snake_case_constructor_names() {
    assert_eq!(to_snake_case("RateLimited"), "rate_limited");
    assert_eq!(to_snake_case("HTTPError"), "http_error");
    assert_eq!(to_snake_case("already_snake"), "already_snake");
    assert_eq!(to_snake_case("A"), "a");
    assert_eq!(to_snake_case(""), "");
}

#[test]
fn template_errors_are_reported() {
    let names = strings(&["a"]);
    assert_eq!(compile_display_template("open {a", &names), Err(TemplateError::Unclosed));
    assert_eq!(compile_display_template("empty {}", &names), Err(TemplateError::EmptyPlaceholder));
    assert_eq!(
        compile_display_template("unknown {b}", &names),
        Err(TemplateError::UnknownPlaceholder("b".to_string()))
    );
    assert_eq!(compile_display_template("stray } here", &names), Err(TemplateError::UnmatchedClose));
}

#[test]
fn template_compiles_to_format_string_and_order() {
    let names = strings(&["x", "y"]);
    let pieces = compile_display_template("{y}-{x}", &names).expect("valid template");
    assert_eq!(
        pieces,
        vec![TemplatePiece::Field(1), TemplatePiece::Literal('-'), TemplatePiece::Field(0)]
    );
    let (fmt, order) = render_display_template("{{{y}}} {x}", &names).expect("valid template");
    assert_eq!(fmt, "{{{}}} {}");
    assert_eq!(order, vec![1, 0]);
}

#[test]
fn duplicate_union_variant_is_refused() {
    let terms = vec![
        UnionTerm::External { type_path: "errors::AuthError".to_string(), alias: None },
        UnionTerm::Inline { variants: strings(&["AuthError"]) },
    ];
    assert_eq!(union_variants(&terms), Err("AuthError".to_string()));
}

#[test]
fn external_variant_takes_last_path_segment() {
    let terms = vec![UnionTerm::External { type_path: "crate::errors::DbError".to_string(), alias: None }];
    let variants = union_variants(&terms).expect("distinct variants");
    assert_eq!(variants[0].name, "DbError");
    assert_eq!(variants[0].wraps, Some("crate::errors::DbError".to_string()));
}

#[test]
fn external_variant_ignores_generic_arguments() {
    let terms = vec![
        UnionTerm::External { type_path: "a::B<T>".to_string(), alias: None },
        UnionTerm::External { type_path: "x::Wrap<c::D>".to_string(), alias: None },
        UnionTerm::External { type_path: "std :: io :: Error".to_string(), alias: None },
    ];
    let variants = union_variants(&terms).expect("distinct variants");
    assert_eq!(variants[0].name, "B");
    assert_eq!(variants[1].name, "Wrap");
    assert_eq!(variants[2].name, "Error");
}

#[test]
fn unknown_included_set_is_refused() {
    let defs = vec![SetDef { name: "SetB".to_string(), includes: strings(&["SetA"]), variants: vec![] }];
    assert_eq!(resolve_sets(&defs), Err(SetError::UnknownSet("SetA".to_string())));
}

use gears_cli::schema::{
    create_schema, parse_i64, Human, ModelsFilterParams, MutationRoot, NewHuman, PagingParams,
    QueryRoot, Status, DEFAULT_PAGE_SIZE,
};

fn s(x: &str) -> String {
    String::from(x)
}

#[test]
fn paging_limit_defaults_to_page_size() {
    assert_eq!(PagingParams { limit: None, cursor: None }.get_limit(), DEFAULT_PAGE_SIZE);
    assert_eq!(PagingParams { limit: Some(7), cursor: None }.get_limit(), 7);
}

#[test]
fn paging_defaults() {
    let p = PagingParams::default();
    assert_eq!(p.limit, Some(20));
    assert!(p.cursor.is_none());
    let f = ModelsFilterParams::default();
    assert!(f.uuid.is_none());
    assert!(f.name.is_none());
}

#[test]
fn cursor_reads_decimal_strings() {
    assert_eq!(PagingParams { limit: None, cursor: None }.get_cursor(), 0);
    assert_eq!(PagingParams { limit: None, cursor: Some(s("123")) }.get_cursor(), 123);
    assert_eq!(PagingParams { limit: None, cursor: Some(s("-45")) }.get_cursor(), -45);
    assert_eq!(PagingParams { limit: None, cursor: Some(s("+7")) }.get_cursor(), 7);
    assert_eq!(PagingParams { limit: None, cursor: Some(s("007")) }.get_cursor(), 7);
}

#[test]
fn cursor_malformed_or_out_of_range_reads_zero() {
    for bad in ["", "abc", "12x", "--4", "+", "-", " 1", "999999999999999999999999"] {
        assert_eq!(PagingParams { limit: None, cursor: Some(s(bad)) }.get_cursor(), 0, "{}", bad);
    }
}

#[test]
fn parse_i64_matches_std_parse() {
    for case in [
        "0", "1", "-1", "+42", "9223372036854775807", "-9223372036854775808",
        "9223372036854775808", "-9223372036854775809", "00123", "", "x", "1 2", "18446744073709551616",
    ] {
        assert_eq!(parse_i64(case), case.parse::<i64>().ok(), "{}", case);
    }
}

#[test]
fn stub_resolvers_serve_the_sample_record() {
    let q = QueryRoot;
    let conn = q.models(None, Some(PagingParams::default()));
    assert_eq!(conn.edges.len(), 1);
    assert_eq!(conn.edges[0].name, "Johnny Cash");
    assert!(!conn.page_info.has_next_page);
    let h: Human = q.human(s("anything"));
    assert_eq!(h.id, "1234");
}

#[test]
fn stub_mutation_echoes_the_input() {
    let m = MutationRoot;
    let h = m.create_human(NewHuman {
        name: s("Ada"),
        appears_in: vec![Status::Active],
        home_planet: s("Earth"),
    });
    assert_eq!(h.id, "1234");
    assert_eq!(h.name, "Ada");
    assert_eq!(h.home_planet, "Earth");
}

#[test]
fn schema_holds_both_roots() {
    let schema = create_schema();
    let _ = schema.query;
    let _ = schema.mutation;
}

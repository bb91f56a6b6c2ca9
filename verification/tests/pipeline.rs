//! End-to-end checks of the request pipeline: plan, complete, render.

use users_gql::execute::{complete_users, plan_request, GqlRequest, Plan, QueryOutput, UserFieldSel};
use users_gql::respond::render_response;
use users_gql::rows::{Cell, ColDesc, ColTy};
use users_gql::schema::service_schema;

fn cs(s: &str) -> Vec<char> {
    s.chars().collect()
}

fn to_string(v: Vec<char>) -> String {
    v.into_iter().collect()
}

fn users_cols() -> Vec<ColDesc> {
    vec![
        ColDesc { name: cs("age"), ty: ColTy::Int4 },
        ColDesc { name: cs("name"), ty: ColTy::Text },
    ]
}

fn row(age: i32, name: &str) -> Vec<Cell> {
    vec![Cell::IntCell(age), Cell::TextCell(cs(name))]
}

fn plan_of(query: &str) -> Plan {
    let req = GqlRequest { query: cs(query), operation_name: None };
    plan_request(&req, &service_schema())
}

fn fetch_fields(query: &str) -> Vec<UserFieldSel> {
    match plan_of(query) {
        Plan::FetchUsers(fields) => fields,
        Plan::Respond(r) => panic!("expected a fetch plan, got a response: {:?}", to_string(render_response(&r))),
    }
}

#[test]
fn age_name_query_plans_both_columns() {
    let fields = fetch_fields("{ users { age name } }");
    assert_eq!(fields, vec![UserFieldSel::Age, UserFieldSel::Name]);
}

#[test]
fn empty_table_renders_empty_array() {
    let fields = fetch_fields("{ users { age name } }");
    let out = QueryOutput { cols: users_cols(), rows: vec![] };
    let resp = complete_users(&fields, Ok(out));
    assert_eq!(to_string(render_response(&resp)), "{\"data\":{\"users\":[]}}");
}

#[test]
fn two_rows_render_in_order() {
    let fields = fetch_fields("{ users { age name } }");
    let out = QueryOutput { cols: users_cols(), rows: vec![row(30, "Ada"), row(45, "Linus")] };
    let resp = complete_users(&fields, Ok(out));
    assert_eq!(
        to_string(render_response(&resp)),
        "{\"data\":{\"users\":[{\"age\":30,\"name\":\"Ada\"},{\"age\":45,\"name\":\"Linus\"}]}}"
    );
}

#[test]
fn partial_selection_renders_only_name() {
    let fields = fetch_fields("{ users { name } }");
    assert_eq!(fields, vec![UserFieldSel::Name]);
    let out = QueryOutput { cols: users_cols(), rows: vec![row(30, "Ada")] };
    let resp = complete_users(&fields, Ok(out));
    assert_eq!(
        to_string(render_response(&resp)),
        "{\"data\":{\"users\":[{\"name\":\"Ada\"}]}}"
    );
}

#[test]
fn unknown_field_is_a_validation_error() {
    match plan_of("{ users { email } }") {
        Plan::FetchUsers(_) => panic!("an unknown field must not plan a fetch"),
        Plan::Respond(r) => {
            assert!(r.data.is_none());
            assert_eq!(r.errors.len(), 1);
            let msg = to_string(render_response(&r));
            assert!(msg.contains("email"), "message must name the field: {}", msg);
            assert_eq!(
                msg,
                "{\"errors\":[{\"message\":\"Unknown field \\\"email\\\" on type \\\"User\\\"\"}]}"
            );
        },
    }
}

#[test]
fn unknown_root_field_is_a_validation_error() {
    match plan_of("{ customers { age } }") {
        Plan::FetchUsers(_) => panic!("an unknown field must not plan a fetch"),
        Plan::Respond(r) => {
            assert!(r.data.is_none());
            let msg = to_string(render_response(&r));
            assert!(msg.contains("customers"));
            assert!(msg.contains("Query"));
        },
    }
}

#[test]
fn syntax_error_yields_errors_and_no_data() {
    match plan_of("{ users { age ") {
        Plan::FetchUsers(_) => panic!("a malformed document must not plan a fetch"),
        Plan::Respond(r) => {
            assert!(r.data.is_none());
            assert!(!r.errors.is_empty());
        },
    }
}

#[test]
fn scalar_with_selection_set_is_rejected() {
    match plan_of("{ users { age { x } } }") {
        Plan::FetchUsers(_) => panic!("a scalar selection set must not plan a fetch"),
        Plan::Respond(r) => {
            let msg = to_string(render_response(&r));
            assert!(msg.contains("age"));
            assert!(msg.contains("must not have a selection set"));
        },
    }
}

#[test]
fn users_without_selection_set_is_rejected() {
    match plan_of("{ users }") {
        Plan::FetchUsers(_) => panic!("an object field without subfields must not plan a fetch"),
        Plan::Respond(r) => {
            let msg = to_string(render_response(&r));
            assert!(msg.contains("users"));
            assert!(msg.contains("must have a selection set"));
        },
    }
}

#[test]
fn database_failure_becomes_a_field_error() {
    let fields = vec![UserFieldSel::Age, UserFieldSel::Name];
    let resp = complete_users(&fields, Err(cs("connection reset")));
    assert_eq!(
        to_string(render_response(&resp)),
        "{\"data\":{\"users\":null},\"errors\":[{\"message\":\"connection reset\",\"path\":[\"users\"]}]}"
    );
}

#[test]
fn wrong_columns_become_a_mapping_error() {
    let fields = vec![UserFieldSel::Age, UserFieldSel::Name];
    let cols = vec![
        ColDesc { name: cs("age"), ty: ColTy::Text },
        ColDesc { name: cs("name"), ty: ColTy::Text },
    ];
    let resp = complete_users(&fields, Ok(QueryOutput { cols, rows: vec![] }));
    let msg = to_string(render_response(&resp));
    assert!(msg.contains("\"users\":null"));
    assert!(msg.contains("result columns do not match"));
}

#[test]
fn null_cell_becomes_a_mapping_error() {
    let fields = vec![UserFieldSel::Age, UserFieldSel::Name];
    let rows = vec![vec![Cell::Null, Cell::TextCell(cs("Ada"))]];
    let resp = complete_users(&fields, Ok(QueryOutput { cols: users_cols(), rows }));
    let msg = to_string(render_response(&resp));
    assert!(msg.contains("null value in a non-null column"));
}

#[test]
fn same_query_twice_renders_identically() {
    let fields = fetch_fields("{ users { age name } }");
    let make = || {
        let out = QueryOutput { cols: users_cols(), rows: vec![row(30, "Ada"), row(45, "Linus")] };
        to_string(render_response(&complete_users(&fields, Ok(out))))
    };
    assert_eq!(make(), make());
}

#[test]
fn negative_age_renders_with_minus_sign() {
    let fields = vec![UserFieldSel::Age];
    let out = QueryOutput { cols: users_cols(), rows: vec![row(-17, "x")] };
    let resp = complete_users(&fields, Ok(out));
    assert_eq!(
        to_string(render_response(&resp)),
        "{\"data\":{\"users\":[{\"age\":-17}]}}"
    );
}

#[test]
fn names_are_json_escaped() {
    let fields = vec![UserFieldSel::Name];
    let out = QueryOutput { cols: users_cols(), rows: vec![row(1, "a\"b\\c\nd")] };
    let resp = complete_users(&fields, Ok(out));
    assert_eq!(
        to_string(render_response(&resp)),
        "{\"data\":{\"users\":[{\"name\":\"a\\\"b\\\\c\\u000ad\"}]}}"
    );
}

#[test]
fn duplicate_subfields_are_kept_once() {
    let fields = fetch_fields("{ users { age age name } }");
    assert_eq!(fields, vec![UserFieldSel::Age, UserFieldSel::Name]);
}

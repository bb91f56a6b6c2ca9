//! Operation selection, operation kinds, and the explorer page.

use users_gql::execute::{plan_request, GqlRequest, Plan, UserFieldSel};
use users_gql::explorer::explorer_page;
use users_gql::pool::SessionPool;
use users_gql::respond::render_response;
use users_gql::schema::service_schema;

fn cs(s: &str) -> Vec<char> {
    s.chars().collect()
}

fn to_string(v: Vec<char>) -> String {
    v.into_iter().collect()
}

fn plan_named(query: &str, name: Option<&str>) -> Plan {
    let req = GqlRequest { query: cs(query), operation_name: name.map(cs) };
    plan_request(&req, &service_schema())
}

fn response_text(p: Plan) -> String {
    match p {
        Plan::Respond(r) => to_string(render_response(&r)),
        Plan::FetchUsers(_) => panic!("expected a response, got a fetch plan"),
    }
}

#[test]
fn named_operation_is_selected() {
    let p = plan_named("query A { users { age } } query B { users { name } }", Some("B"));
    match p {
        Plan::FetchUsers(fields) => assert_eq!(fields, vec![UserFieldSel::Name]),
        Plan::Respond(_) => panic!("operation B should validate and plan a fetch"),
    }
}

#[test]
fn unknown_operation_name_is_an_error() {
    let msg = response_text(plan_named("query A { users { age } }", Some("C")));
    assert!(msg.contains("Unknown operation"));
    assert!(msg.contains("C"));
}

#[test]
fn several_operations_need_a_name() {
    let msg = response_text(plan_named(
        "query A { users { age } } query B { users { name } }",
        None,
    ));
    assert!(msg.contains("Operation name required"));
}

#[test]
fn a_name_never_selects_an_anonymous_operation() {
    let msg = response_text(plan_named("{ users { age } }", Some("A")));
    assert!(msg.contains("Unknown operation"));
}

#[test]
fn keyword_form_works_like_bare_form() {
    match plan_named("query { users { age name } }", None) {
        Plan::FetchUsers(fields) => {
            assert_eq!(fields, vec![UserFieldSel::Age, UserFieldSel::Name])
        },
        Plan::Respond(_) => panic!("the keyword form should plan a fetch"),
    }
}

#[test]
fn mutations_are_not_configured() {
    let msg = response_text(plan_named("mutation { users { age } }", None));
    assert!(msg.contains("not configured for mutations"));
}

#[test]
fn subscriptions_are_not_configured() {
    let msg = response_text(plan_named("subscription { users { age } }", None));
    assert!(msg.contains("not configured for subscriptions"));
}

#[test]
fn explorer_page_is_stable_and_not_the_endpoint() {
    let a = explorer_page();
    let b = explorer_page();
    assert_eq!(a, b);
    assert_ne!(a, "/");
    assert!(a.to_ascii_lowercase().contains("html"));
}

#[test]
fn pool_never_lends_beyond_its_maximum() {
    let mut pool = SessionPool::new(5);
    for _ in 0..5 {
        assert!(pool.try_acquire());
        assert!(pool.in_use <= pool.max_connections);
    }
    assert!(!pool.try_acquire());
    assert_eq!(pool.in_use, 5);
    pool.release();
    assert_eq!(pool.in_use, 4);
    assert!(pool.try_acquire());
    assert!(!pool.try_acquire());
}

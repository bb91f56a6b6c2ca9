//! The interactive explorer page served at `GET /`.

use vstd::prelude::*;

verus! {

/// The text of the explorer page pointed at the given endpoint.
pub uninterp spec fn playground_page_of(endpoint: Seq<char>) -> Seq<char>;

/// Relies on async_graphql::http::playground_source: the page it builds
/// is a pure function of its configuration, here the endpoint path alone.
#[verifier::external_body]
fn playground_source_at(endpoint: &str) -> (r: String)
    ensures
        r@ == playground_page_of(endpoint@),
{
    async_graphql::http::playground_source(async_graphql::http::GraphQLPlaygroundConfig::new(
        endpoint,
    ))
}

/// The explorer page, pointed at the service root.
pub fn explorer_page() -> (r: String)
    ensures
        r@ == playground_page_of("/"@),
{
    playground_source_at("/")
}

/// Law: the explorer page is character-identical across invocations.
pub proof fn lemma_explorer_page_identical(a: Seq<char>, b: Seq<char>)
    requires
        a == playground_page_of("/"@),
        b == playground_page_of("/"@),
    ensures
        a == b,
{
}

} // verus!

//! A verified core for a read-only GraphQL endpoint over a `users` table.
//!
//! The library holds the request pipeline: parsing a GraphQL document,
//! validating it against the schema `type Query { users: [User!]! }`,
//! `type User { age: Int! name: String! }`, mapping database rows to typed
//! values, assembling the response envelope, and rendering it as JSON.
//! The unverified binary around it only moves bytes: HTTP, the database
//! connection, and process startup.

pub mod execute;
pub mod explorer;
pub mod json;
pub mod parse;
pub mod pool;
pub mod respond;
pub mod rows;
pub mod schema;
pub mod text;

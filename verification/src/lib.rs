//! Reading records out of an in-memory object store.
//!
//! A store holds object types; each object type holds its field types and its records,
//! keyed by primary key. A read selects the records of one object type that satisfy a
//! list of filters: comparisons of scalar fields (booleans, dates, floats, integers,
//! strings), membership tests on relation fields, and nested `and` / `or` lists.
//!
//! - `text`: strings as character sequences: equality, order, substring tests.
//! - `strmap`: maps keyed by strings, kept in ascending key order.
//! - `float`: IEEE-754 comparison of 32-bit floats held by their bit patterns.
//! - `date`: dates read by chrono and compared as instants.
//! - `types`: records, field types, filters and errors.
//! - `read`: what a read returns, and the functions that compute it.
//! - `laws`: properties of reads over all records and filters.
//! - `json`: JSON text read and written by serde_json, and the objects of a GraphQL
//!   response.
//! - `graphql_text`: the GraphQL text that search tests send: selections, queries and
//!   mutations with their variables.
pub mod text;
pub mod strmap;
pub mod float;
pub mod types;
pub mod date;
pub mod read;
pub mod laws;
pub mod json;
pub mod graphql_text;

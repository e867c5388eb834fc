//! A small GraphQL backend core: an error taxonomy, entity models with
//! input-to-entity conversion, an entity store with CRUD semantics, a JSON
//! wire codec for the request envelope and the response values, and a
//! field-dispatching evaluator for the query and mutation root fields.

pub mod db;
pub mod endpoint;
pub mod envelope;
pub mod error;
pub mod gql;
pub mod graphql;
pub mod json;
pub mod lex;
pub mod models;
pub mod wire;

//! Static analysis of machine-readable API specification documents.
//!
//! The crate tokenizes a JSON-like serialization syntax, detects whether an
//! input text is an OpenAPI (REST) or WSDL (SOAP) specification, builds a
//! queryable document model from the text, and evaluates a battery of
//! structural and security-hygiene rules against that model, producing a
//! weighted report of findings.

pub mod json;
pub mod lexer;
pub mod openapi;
pub mod parser;

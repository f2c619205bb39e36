//! A greeting handler for a function-invocation runtime: it reads an optional
//! `firstName` from an event record and answers with a greeting message.
pub mod json;

pub mod greeting;

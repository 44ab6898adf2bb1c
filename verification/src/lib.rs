//! A compact textual type language for describing the column layout of a
//! table, in both directions: a tokenizer and a recursive-descent parser turn
//! a type expression such as `"id:string, tags:array<string>"` into an
//! ordered list of named, typed, nullable fields, and a renderer prints a
//! column's type tree back in the same language.

pub mod parser;
pub mod render;
pub mod round_trip;
pub mod text;
pub mod tokenizer;
pub mod types;

//! Style-resolution core of a web-rendering engine: an error-tolerant CSS
//! parser over a lexical token stream, a selector-matching engine over a DOM
//! arena, and a cascade/inheritance engine that builds a render tree of
//! computed style values.

pub mod token;
pub mod cssom;
pub mod parse_spec;
pub mod parser;
pub mod dom;
pub mod selector;
pub mod selector_matching;
pub mod values;
pub mod style_tree;
pub mod render_tree;
pub mod html_token;
pub mod formatting_list;
pub mod html_elements;

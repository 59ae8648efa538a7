mod default_parser;
mod grammar;
mod jtype;
mod number;
mod parser;
mod type_parser;

pub use default_parser::{DefaultJType, DefaultTypeParser, as_map, jt_eq, keys_unique,
    lemma_jt_eq_refl, lemma_object_eq_key_order};
pub use grammar::skip_ws;
pub use jtype::JType;
pub use number::JNumber;
pub use parser::{ParseFailure, Parser, SpecOutcome, SpecValue, lemma_leading_ws,
    lemma_primitive_dispatch};
pub use type_parser::JTypeParser;

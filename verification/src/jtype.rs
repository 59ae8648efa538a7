use vstd::prelude::*;

verus! {

/// The shape of a parsed JSON value: six mutually exclusive kinds, each
/// carrying one payload whose representation is chosen by a builder,
/// never by the grammar.
#[derive(Debug)]
pub enum JType<JO, JA, JS, JN, JB, JZ> {
    Object(JO),
    Array(JA),
    String(JS),
    Number(JN),
    Boolean(JB),
    Null(JZ),
}

} // verus!

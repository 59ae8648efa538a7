use vstd::prelude::*;
use crate::grammar::{
    spec_skip_ws, skip_ws, spec_quote_end, find_quote, spec_number_end, number_end, true_at,
    false_at, null_at, match_true, match_false, match_null, is_ws, lemma_skip_ws_absorbs,
    lemma_skip_ws_bounds,
};
use crate::jtype::JType;
use crate::type_parser::JTypeParser;

verus! {

/// The mathematical shape of a parsed JSON value: containers hold their
/// members in document order; strings and numbers hold the raw fragment
/// of text that was handed to the builder.
pub enum SpecValue {
    Object(Seq<(Seq<char>, SpecValue)>),
    Array(Seq<SpecValue>),
    String(Seq<char>),
    Number(Seq<char>),
    Boolean(bool),
    Null,
}

/// What a sub-parse does with the text: match up to `end` yielding a
/// fragment, fail to match (the caller may try another kind), or abort
/// the whole parse because a builder could not construct a number.
pub enum SpecOutcome<T> {
    Match { end: int, val: T },
    Mismatch,
    Fatal,
}

/// A failed parse: either an ordinary syntax mismatch, recoverable by
/// the caller, or a fatal construction failure from the builder. `pos`
/// is the position in the text (in characters) where the failure arose.
#[derive(Debug, Clone, Copy, PartialEq, Eq, Structural)]
pub enum ParseFailure {
    Syntax { pos: usize },
    Construction { pos: usize },
}

/// Grammar of a string literal: `"`, content up to the next bare `"`
/// (backslash escapes are not interpreted), `"`. Whitespace is skipped
/// on both sides.
pub open spec fn spec_parse_string(s: Seq<char>, pos: int) -> SpecOutcome<Seq<char>> {
    let i = spec_skip_ws(s, pos);
    if pos <= i && i < s.len() && s[i] == '"' {
        match spec_quote_end(s, i + 1) {
            Some(q) => SpecOutcome::Match { end: spec_skip_ws(s, q + 1), val: s.subrange(i + 1, q) },
            None => SpecOutcome::Mismatch,
        }
    } else {
        SpecOutcome::Mismatch
    }
}

/// Grammar of a numeric literal, with the builder's say on whether the
/// matched fragment can be constructed at all: a lexically valid literal
/// that the builder rejects is fatal, not a mismatch.
pub open spec fn spec_parse_number<P: JTypeParser>(p: &P, s: Seq<char>, pos: int) -> SpecOutcome<
    Seq<char>,
> {
    let i = spec_skip_ws(s, pos);
    if pos <= i <= s.len() {
        match spec_number_end(s, i) {
            Some(e) => {
                let lit = s.subrange(i, e);
                if p.number_ok(lit) {
                    SpecOutcome::Match { end: spec_skip_ws(s, e), val: lit }
                } else {
                    SpecOutcome::Fatal
                }
            },
            None => SpecOutcome::Mismatch,
        }
    } else {
        SpecOutcome::Mismatch
    }
}

/// Grammar of the literals `true` and `false`.
pub open spec fn spec_parse_boolean(s: Seq<char>, pos: int) -> SpecOutcome<bool> {
    let i = spec_skip_ws(s, pos);
    if true_at(s, i) {
        SpecOutcome::Match { end: spec_skip_ws(s, i + 4), val: true }
    } else if false_at(s, i) {
        SpecOutcome::Match { end: spec_skip_ws(s, i + 5), val: false }
    } else {
        SpecOutcome::Mismatch
    }
}

/// Grammar of the literal `null`.
pub open spec fn spec_parse_null(s: Seq<char>, pos: int) -> SpecOutcome<()> {
    let i = spec_skip_ws(s, pos);
    if null_at(s, i) {
        SpecOutcome::Match { end: spec_skip_ws(s, i + 4), val: () }
    } else {
        SpecOutcome::Mismatch
    }
}

/// Grammar of one `key : value` pair of an object.
///
/// The bounds tests against `pos` in this and the functions below always
/// hold of the sub-parses' results; they are spelled out so that each
/// recursion visibly moves forward in the text.
pub open spec fn spec_parse_pair<P: JTypeParser>(p: &P, s: Seq<char>, pos: int) -> SpecOutcome<
    (Seq<char>, SpecValue),
>
    decreases s.len() - pos, 3int,
{
    match spec_parse_string(s, pos) {
        SpecOutcome::Match { end: e1, val: key } => {
            let j = spec_skip_ws(s, e1);
            if pos < e1 <= s.len() && e1 <= j && j < s.len() && s[j] == ':' {
                match spec_parse_value(p, s, j + 1) {
                    SpecOutcome::Match { end: e2, val: v } => SpecOutcome::Match {
                        end: e2,
                        val: (key, v),
                    },
                    SpecOutcome::Mismatch => SpecOutcome::Mismatch,
                    SpecOutcome::Fatal => SpecOutcome::Fatal,
                }
            } else {
                SpecOutcome::Mismatch
            }
        },
        SpecOutcome::Mismatch => SpecOutcome::Mismatch,
        SpecOutcome::Fatal => SpecOutcome::Fatal,
    }
}

/// Zero or more comma-separated pairs; an immediate mismatch is an
/// empty list.
pub open spec fn spec_parse_members<P: JTypeParser>(p: &P, s: Seq<char>, pos: int) -> SpecOutcome<
    Seq<(Seq<char>, SpecValue)>,
>
    decreases s.len() - pos, 4int,
{
    match spec_parse_pair(p, s, pos) {
        SpecOutcome::Match { end: e, val: kv } => {
            if pos < e <= s.len() {
                spec_members_tail(p, s, e, seq![kv])
            } else {
                SpecOutcome::Mismatch
            }
        },
        SpecOutcome::Mismatch => SpecOutcome::Match { end: pos, val: Seq::empty() },
        SpecOutcome::Fatal => SpecOutcome::Fatal,
    }
}

/// After one pair: either a comma and, obligatorily, more pairs, or the
/// end of the list.
pub open spec fn spec_members_tail<P: JTypeParser>(
    p: &P,
    s: Seq<char>,
    e: int,
    acc: Seq<(Seq<char>, SpecValue)>,
) -> SpecOutcome<Seq<(Seq<char>, SpecValue)>>
    decreases s.len() - e, 5int,
{
    if 0 <= e <= s.len() {
        let j = spec_skip_ws(s, e);
        if e <= j && j < s.len() && s[j] == ',' {
            spec_parse_members_more(p, s, j + 1, acc)
        } else {
            SpecOutcome::Match { end: e, val: acc }
        }
    } else {
        SpecOutcome::Mismatch
    }
}

/// The pairs after a comma: at least one must follow.
pub open spec fn spec_parse_members_more<P: JTypeParser>(
    p: &P,
    s: Seq<char>,
    pos: int,
    acc: Seq<(Seq<char>, SpecValue)>,
) -> SpecOutcome<Seq<(Seq<char>, SpecValue)>>
    decreases s.len() - pos, 4int,
{
    match spec_parse_pair(p, s, pos) {
        SpecOutcome::Match { end: e, val: kv } => {
            if pos < e <= s.len() {
                spec_members_tail(p, s, e, acc.push(kv))
            } else {
                SpecOutcome::Mismatch
            }
        },
        SpecOutcome::Mismatch => SpecOutcome::Mismatch,
        SpecOutcome::Fatal => SpecOutcome::Fatal,
    }
}

/// Grammar of an object: `{`, zero or more comma-separated pairs, `}`.
/// No trailing comma. Whitespace is skipped around every token.
pub open spec fn spec_parse_object<P: JTypeParser>(p: &P, s: Seq<char>, pos: int) -> SpecOutcome<
    Seq<(Seq<char>, SpecValue)>,
>
    decreases s.len() - pos, 1int,
{
    let i = spec_skip_ws(s, pos);
    if pos <= i && i < s.len() && s[i] == '{' {
        match spec_parse_members(p, s, i + 1) {
            SpecOutcome::Match { end: e, val: pairs } => {
                if i < e <= s.len() {
                    let j = spec_skip_ws(s, e);
                    if e <= j && j < s.len() && s[j] == '}' {
                        SpecOutcome::Match { end: spec_skip_ws(s, j + 1), val: pairs }
                    } else {
                        SpecOutcome::Mismatch
                    }
                } else {
                    SpecOutcome::Mismatch
                }
            },
            SpecOutcome::Mismatch => SpecOutcome::Mismatch,
            SpecOutcome::Fatal => SpecOutcome::Fatal,
        }
    } else {
        SpecOutcome::Mismatch
    }
}

/// Zero or more comma-separated values; an immediate mismatch is an
/// empty list.
pub open spec fn spec_parse_elems<P: JTypeParser>(p: &P, s: Seq<char>, pos: int) -> SpecOutcome<
    Seq<SpecValue>,
>
    decreases s.len() - pos, 3int,
{
    match spec_parse_value(p, s, pos) {
        SpecOutcome::Match { end: e, val: v } => {
            if pos < e <= s.len() {
                spec_elems_tail(p, s, e, seq![v])
            } else {
                SpecOutcome::Mismatch
            }
        },
        SpecOutcome::Mismatch => SpecOutcome::Match { end: pos, val: Seq::empty() },
        SpecOutcome::Fatal => SpecOutcome::Fatal,
    }
}

/// After one element: either a comma and, obligatorily, more elements,
/// or the end of the list.
pub open spec fn spec_elems_tail<P: JTypeParser>(
    p: &P,
    s: Seq<char>,
    e: int,
    acc: Seq<SpecValue>,
) -> SpecOutcome<Seq<SpecValue>>
    decreases s.len() - e, 5int,
{
    if 0 <= e <= s.len() {
        let j = spec_skip_ws(s, e);
        if e <= j && j < s.len() && s[j] == ',' {
            spec_parse_elems_more(p, s, j + 1, acc)
        } else {
            SpecOutcome::Match { end: e, val: acc }
        }
    } else {
        SpecOutcome::Mismatch
    }
}

/// The elements after a comma: at least one must follow.
pub open spec fn spec_parse_elems_more<P: JTypeParser>(
    p: &P,
    s: Seq<char>,
    pos: int,
    acc: Seq<SpecValue>,
) -> SpecOutcome<Seq<SpecValue>>
    decreases s.len() - pos, 3int,
{
    match spec_parse_value(p, s, pos) {
        SpecOutcome::Match { end: e, val: v } => {
            if pos < e <= s.len() {
                spec_elems_tail(p, s, e, acc.push(v))
            } else {
                SpecOutcome::Mismatch
            }
        },
        SpecOutcome::Mismatch => SpecOutcome::Mismatch,
        SpecOutcome::Fatal => SpecOutcome::Fatal,
    }
}

/// Grammar of an array: `[`, zero or more comma-separated values, `]`.
/// No trailing comma. Whitespace is skipped around every token.
pub open spec fn spec_parse_array<P: JTypeParser>(p: &P, s: Seq<char>, pos: int) -> SpecOutcome<
    Seq<SpecValue>,
>
    decreases s.len() - pos, 1int,
{
    let i = spec_skip_ws(s, pos);
    if pos <= i && i < s.len() && s[i] == '[' {
        match spec_parse_elems(p, s, i + 1) {
            SpecOutcome::Match { end: e, val: elems } => {
                if i < e <= s.len() {
                    let j = spec_skip_ws(s, e);
                    if e <= j && j < s.len() && s[j] == ']' {
                        SpecOutcome::Match { end: spec_skip_ws(s, j + 1), val: elems }
                    } else {
                        SpecOutcome::Mismatch
                    }
                } else {
                    SpecOutcome::Mismatch
                }
            },
            SpecOutcome::Mismatch => SpecOutcome::Mismatch,
            SpecOutcome::Fatal => SpecOutcome::Fatal,
        }
    } else {
        SpecOutcome::Mismatch
    }
}

/// Dispatch over the six value kinds, tried in a fixed order; every kind
/// has a distinct leading token, so the first match decides. A fatal
/// outcome stops the trial at once.
pub open spec fn spec_parse_value<P: JTypeParser>(p: &P, s: Seq<char>, pos: int) -> SpecOutcome<
    SpecValue,
>
    decreases s.len() - pos, 2int,
{
    match spec_parse_object(p, s, pos) {
        SpecOutcome::Match { end, val } => SpecOutcome::Match { end, val: SpecValue::Object(val) },
        SpecOutcome::Fatal => SpecOutcome::Fatal,
        SpecOutcome::Mismatch => match spec_parse_array(p, s, pos) {
            SpecOutcome::Match { end, val } => SpecOutcome::Match {
                end,
                val: SpecValue::Array(val),
            },
            SpecOutcome::Fatal => SpecOutcome::Fatal,
            SpecOutcome::Mismatch => match spec_parse_string(s, pos) {
                SpecOutcome::Match { end, val } => SpecOutcome::Match {
                    end,
                    val: SpecValue::String(val),
                },
                SpecOutcome::Fatal => SpecOutcome::Fatal,
                SpecOutcome::Mismatch => match spec_parse_number(p, s, pos) {
                    SpecOutcome::Match { end, val } => SpecOutcome::Match {
                        end,
                        val: SpecValue::Number(val),
                    },
                    SpecOutcome::Fatal => SpecOutcome::Fatal,
                    SpecOutcome::Mismatch => match spec_parse_boolean(s, pos) {
                        SpecOutcome::Match { end, val } => SpecOutcome::Match {
                            end,
                            val: SpecValue::Boolean(val),
                        },
                        SpecOutcome::Fatal => SpecOutcome::Fatal,
                        SpecOutcome::Mismatch => match spec_parse_null(s, pos) {
                            SpecOutcome::Match { end, val } => SpecOutcome::Match {
                                end,
                                val: SpecValue::Null,
                            },
                            SpecOutcome::Fatal => SpecOutcome::Fatal,
                            SpecOutcome::Mismatch => SpecOutcome::Mismatch,
                        },
                    },
                },
            },
        },
    }
}

/// The key/value representations `kvs` are, pairwise, what the builder
/// makes of the raw fragments `frags`.
pub open spec fn builds_pairs<P: JTypeParser>(
    p: &P,
    frags: Seq<(Seq<char>, SpecValue)>,
    kvs: Seq<(P::JS, P::JT)>,
) -> bool
    decreases frags, 0int,
{
    &&& kvs.len() == frags.len()
    &&& forall|i: int|
        0 <= i < frags.len() ==> #[trigger] p.string_rel(frags[i].0, kvs[i].0) && builds_value(
            p,
            frags[i].1,
            kvs[i].1,
        )
}

/// `o` is an object representation the builder can make of the raw
/// pairs `frags`.
pub open spec fn builds_object<P: JTypeParser>(
    p: &P,
    frags: Seq<(Seq<char>, SpecValue)>,
    o: P::JO,
) -> bool
    decreases frags, 1int,
{
    exists|kvs: Seq<(P::JS, P::JT)>| #[trigger] p.object_rel(kvs, o) && builds_pairs(p, frags, kvs)
}

/// The element representations `vs` are, pointwise, what the builder
/// makes of the fragments `frags`.
pub open spec fn builds_elems<P: JTypeParser>(
    p: &P,
    frags: Seq<SpecValue>,
    vs: Seq<P::JT>,
) -> bool
    decreases frags, 0int,
{
    &&& vs.len() == frags.len()
    &&& forall|i: int| 0 <= i < frags.len() ==> builds_value(p, #[trigger] frags[i], vs[i])
}

/// `a` is an array representation the builder can make of the fragments
/// `frags`.
pub open spec fn builds_array<P: JTypeParser>(p: &P, frags: Seq<SpecValue>, a: P::JA) -> bool
    decreases frags, 1int,
{
    exists|vs: Seq<P::JT>| #[trigger] p.array_rel(vs, a) && builds_elems(p, frags, vs)
}

/// `v` is a unified value the builder can make of the parsed shape `sj`:
/// the payload is built from the fragment by the corresponding
/// construction operation, then wrapped by the unified-value operation.
pub open spec fn builds_value<P: JTypeParser>(p: &P, sj: SpecValue, v: P::JT) -> bool
    decreases sj, 2int,
{
    match sj {
        SpecValue::Object(frags) => exists|o: P::JO| #[trigger] p.value_rel(
            JType::Object(o),
            v,
        ) && builds_object(p, frags, o),
        SpecValue::Array(frags) => exists|a: P::JA| #[trigger] p.value_rel(
            JType::Array(a),
            v,
        ) && builds_array(p, frags, a),
        SpecValue::String(content) => exists|js: P::JS| #[trigger] p.value_rel(
            JType::String(js),
            v,
        ) && p.string_rel(content, js),
        SpecValue::Number(lit) => exists|n: P::JN| #[trigger] p.value_rel(
            JType::Number(n),
            v,
        ) && p.number_rel(lit, n),
        SpecValue::Boolean(b) => exists|jb: P::JB| #[trigger] p.value_rel(
            JType::Boolean(jb),
            v,
        ) && p.boolean_rel(b, jb),
        SpecValue::Null => exists|z: P::JZ| #[trigger] p.value_rel(JType::Null(z), v)
            && p.null_rel(z),
    }
}

} // verus!

verus! {

/// The grammar engine: one parsing operation per value kind plus the
/// dispatch operation, written once over any builder. Each operation
/// takes the text and a character position, skips whitespace on both
/// sides of what it matches, and returns the position just past what it
/// consumed together with the built representation.
///
/// Every operation's contract ties it exactly to the specification
/// grammar: it returns `Ok` if and only if the grammar matches, a
/// syntax failure if and only if it does not, and a construction
/// failure if and only if the builder aborted on a numeric literal.
pub trait Parser: JTypeParser {
    /// Parse a string literal.
    fn parse_jstring(&self, input: &str, pos: usize) -> (r: Result<
        (usize, Self::JS),
        ParseFailure,
    >)
        requires
            pos <= input@.len(),
        ensures
            match spec_parse_string(input@, pos as int) {
                SpecOutcome::Match { end, val } => r matches Ok(res) && res.0 as int == end
                    && self.string_rel(val, res.1) && pos < res.0 <= input@.len(),
                SpecOutcome::Mismatch => r matches Err(ParseFailure::Syntax { .. }),
                SpecOutcome::Fatal => r matches Err(ParseFailure::Construction { .. }),
            },
    {
        parse_string(self, input, pos)
    }


    /// Parse a numeric literal and hand it to the builder; a literal the
    /// builder cannot construct aborts with a construction failure.
    fn parse_jnumber(&self, input: &str, pos: usize) -> (r: Result<
        (usize, Self::JN),
        ParseFailure,
    >)
        requires
            pos <= input@.len(),
        ensures
            match spec_parse_number(self, input@, pos as int) {
                SpecOutcome::Match { end, val } => r matches Ok(res) && res.0 as int == end
                    && self.number_rel(val, res.1) && pos < res.0 <= input@.len(),
                SpecOutcome::Mismatch => r matches Err(ParseFailure::Syntax { .. }),
                SpecOutcome::Fatal => r matches Err(ParseFailure::Construction { .. }),
            },
    {
        parse_number_lit(self, input, pos)
    }


    /// Parse the literal `true` or `false`.
    fn parse_jboolean(&self, input: &str, pos: usize) -> (r: Result<
        (usize, Self::JB),
        ParseFailure,
    >)
        requires
            pos <= input@.len(),
        ensures
            match spec_parse_boolean(input@, pos as int) {
                SpecOutcome::Match { end, val } => r matches Ok(res) && res.0 as int == end
                    && self.boolean_rel(val, res.1) && pos < res.0 <= input@.len(),
                SpecOutcome::Mismatch => r matches Err(ParseFailure::Syntax { .. }),
                SpecOutcome::Fatal => r matches Err(ParseFailure::Construction { .. }),
            },
    {
        parse_boolean(self, input, pos)
    }


    /// Parse the literal `null`.
    fn parse_jnull(&self, input: &str, pos: usize) -> (r: Result<(usize, Self::JZ), ParseFailure>)
        requires
            pos <= input@.len(),
        ensures
            match spec_parse_null(input@, pos as int) {
                SpecOutcome::Match { end, val } => r matches Ok(res) && res.0 as int == end
                    && self.null_rel(res.1) && pos < res.0 <= input@.len(),
                SpecOutcome::Mismatch => r matches Err(ParseFailure::Syntax { .. }),
                SpecOutcome::Fatal => r matches Err(ParseFailure::Construction { .. }),
            },
    {
        parse_null(self, input, pos)
    }


    /// Parse one `key : value` pair of an object.
    fn parse_jpair(&self, input: &str, pos: usize) -> (r: Result<
        (usize, (Self::JS, Self::JT)),
        ParseFailure,
    >)
        requires
            pos <= input@.len(),
        ensures
            match spec_parse_pair(self, input@, pos as int) {
                SpecOutcome::Match { end, val } => r matches Ok(res) && res.0 as int == end
                    && self.string_rel(val.0, res.1.0) && builds_value(self, val.1, res.1.1) && pos
                    < res.0 <= input@.len(),
                SpecOutcome::Mismatch => r matches Err(ParseFailure::Syntax { .. }),
                SpecOutcome::Fatal => r matches Err(ParseFailure::Construction { .. }),
            },
    {
        parse_pair(self, input, pos)
    }

    /// Parse an object: `{`, zero or more comma-separated pairs, `}`.
    fn parse_jobject(&self, input: &str, pos: usize) -> (r: Result<
        (usize, Self::JO),
        ParseFailure,
    >)
        requires
            pos <= input@.len(),
        ensures
            match spec_parse_object(self, input@, pos as int) {
                SpecOutcome::Match { end, val } => r matches Ok(res) && res.0 as int == end
                    && builds_object(self, val, res.1) && pos < res.0 <= input@.len(),
                SpecOutcome::Mismatch => r matches Err(ParseFailure::Syntax { .. }),
                SpecOutcome::Fatal => r matches Err(ParseFailure::Construction { .. }),
            },
    {
        parse_object(self, input, pos)
    }

    /// Parse an array: `[`, zero or more comma-separated values, `]`.
    fn parse_jarray(&self, input: &str, pos: usize) -> (r: Result<
        (usize, Self::JA),
        ParseFailure,
    >)
        requires
            pos <= input@.len(),
        ensures
            match spec_parse_array(self, input@, pos as int) {
                SpecOutcome::Match { end, val } => r matches Ok(res) && res.0 as int == end
                    && builds_array(self, val, res.1) && pos < res.0 <= input@.len(),
                SpecOutcome::Mismatch => r matches Err(ParseFailure::Syntax { .. }),
                SpecOutcome::Fatal => r matches Err(ParseFailure::Construction { .. }),
            },
    {
        parse_array(self, input, pos)
    }

    /// Dispatch: try each value kind in the fixed order Object, Array,
    /// String, Number, Boolean, Null; wrap the first match into the
    /// unified value. A construction failure stops the trial at once
    /// instead of falling through to another kind.
    fn parse_jtype(&self, input: &str, pos: usize) -> (r: Result<(usize, Self::JT), ParseFailure>)
        requires
            pos <= input@.len(),
        ensures
            match spec_parse_value(self, input@, pos as int) {
                SpecOutcome::Match { end, val } => r matches Ok(res) && res.0 as int == end
                    && builds_value(self, val, res.1) && pos < res.0 <= input@.len(),
                SpecOutcome::Mismatch => r matches Err(ParseFailure::Syntax { .. }),
                SpecOutcome::Fatal => r matches Err(ParseFailure::Construction { .. }),
            },
    {
        parse_value(self, input, pos)
    }

    /// Parse one JSON value from the start of the text, returning the
    /// unified value together with the position of the first unconsumed
    /// character; whether trailing text is acceptable is the caller's
    /// concern.
    fn parse(&self, input: &str) -> (r: Result<(usize, Self::JT), ParseFailure>)
        ensures
            match spec_parse_value(self, input@, 0) {
                SpecOutcome::Match { end, val } => r matches Ok(res) && res.0 as int == end
                    && builds_value(self, val, res.1) && res.0 <= input@.len(),
                SpecOutcome::Mismatch => r matches Err(ParseFailure::Syntax { .. }),
                SpecOutcome::Fatal => r matches Err(ParseFailure::Construction { .. }),
            },
    {
        parse_value(self, input, 0)
    }
}

/// Parse a string literal.
pub fn parse_string<P: JTypeParser>(p: &P, input: &str, pos: usize) -> (r: Result<
    (usize, P::JS),
    ParseFailure,
>)
    requires
        pos <= input@.len(),
    ensures
        match spec_parse_string(input@, pos as int) {
            SpecOutcome::Match { end, val } => r matches Ok(res) && res.0 as int == end
                && p.string_rel(val, res.1) && pos < res.0 <= input@.len(),
            SpecOutcome::Mismatch => r matches Err(ParseFailure::Syntax { .. }),
            SpecOutcome::Fatal => r matches Err(ParseFailure::Construction { .. }),
        },
{
    let i = skip_ws(input, pos);
    let len = input.unicode_len();
    if i < len && input.get_char(i) == '"' {
        match find_quote(input, i + 1) {
            Some(q) => {
                let content = input.substring_char(i + 1, q);
                let js = p.get_string(content);
                let end = skip_ws(input, q + 1);
                Ok((end, js))
            },
            None => Err(ParseFailure::Syntax { pos: i }),
        }
    } else {
        Err(ParseFailure::Syntax { pos: i })
    }
}

/// builder cannot construct aborts with a construction failure.
pub fn parse_number_lit<P: JTypeParser>(p: &P, input: &str, pos: usize) -> (r: Result<
    (usize, P::JN),
    ParseFailure,
>)
    requires
        pos <= input@.len(),
    ensures
        match spec_parse_number(p, input@, pos as int) {
            SpecOutcome::Match { end, val } => r matches Ok(res) && res.0 as int == end
                && p.number_rel(val, res.1) && pos < res.0 <= input@.len(),
            SpecOutcome::Mismatch => r matches Err(ParseFailure::Syntax { .. }),
            SpecOutcome::Fatal => r matches Err(ParseFailure::Construction { .. }),
        },
{
    let i = skip_ws(input, pos);
    match number_end(input, i) {
        Some(e) => {
            let lit = input.substring_char(i, e);
            match p.get_number(lit) {
                Some(n) => Ok((skip_ws(input, e), n)),
                None => Err(ParseFailure::Construction { pos: i }),
            }
        },
        None => Err(ParseFailure::Syntax { pos: i }),
    }
}

/// Parse the literal `true` or `false`.
pub fn parse_boolean<P: JTypeParser>(p: &P, input: &str, pos: usize) -> (r: Result<
    (usize, P::JB),
    ParseFailure,
>)
    requires
        pos <= input@.len(),
    ensures
        match spec_parse_boolean(input@, pos as int) {
            SpecOutcome::Match { end, val } => r matches Ok(res) && res.0 as int == end
                && p.boolean_rel(val, res.1) && pos < res.0 <= input@.len(),
            SpecOutcome::Mismatch => r matches Err(ParseFailure::Syntax { .. }),
            SpecOutcome::Fatal => r matches Err(ParseFailure::Construction { .. }),
        },
{
    let i = skip_ws(input, pos);
    let _len = input.unicode_len();
    if match_true(input, i) {
        let jb = p.get_boolean(true);
        Ok((skip_ws(input, i + 4), jb))
    } else if match_false(input, i) {
        let jb = p.get_boolean(false);
        Ok((skip_ws(input, i + 5), jb))
    } else {
        Err(ParseFailure::Syntax { pos: i })
    }
}

/// Parse the literal `null`.
pub fn parse_null<P: JTypeParser>(p: &P, input: &str, pos: usize) -> (r: Result<(usize, P::JZ), ParseFailure>)
    requires
        pos <= input@.len(),
    ensures
        match spec_parse_null(input@, pos as int) {
            SpecOutcome::Match { end, val } => r matches Ok(res) && res.0 as int == end
                && p.null_rel(res.1) && pos < res.0 <= input@.len(),
            SpecOutcome::Mismatch => r matches Err(ParseFailure::Syntax { .. }),
            SpecOutcome::Fatal => r matches Err(ParseFailure::Construction { .. }),
        },
{
    let i = skip_ws(input, pos);
    let _len = input.unicode_len();
    if match_null(input, i) {
        let jz = p.get_null();
        Ok((skip_ws(input, i + 4), jz))
    } else {
        Err(ParseFailure::Syntax { pos: i })
    }
}

/// Parse one `key : value` pair of an object.
pub fn parse_pair<P: JTypeParser>(p: &P, input: &str, pos: usize) -> (r: Result<
    (usize, (P::JS, P::JT)),
    ParseFailure,
>)
    requires
        pos <= input@.len(),
    ensures
        match spec_parse_pair(p, input@, pos as int) {
            SpecOutcome::Match { end, val } => r matches Ok(res) && res.0 as int == end
                && p.string_rel(val.0, res.1.0) && builds_value(p, val.1, res.1.1) && pos
                < res.0 <= input@.len(),
            SpecOutcome::Mismatch => r matches Err(ParseFailure::Syntax { .. }),
            SpecOutcome::Fatal => r matches Err(ParseFailure::Construction { .. }),
        },
    decreases input@.len() - pos, 3int,
{
    match parse_string(p, input, pos) {
        Ok((e1, key)) => {
            let j = skip_ws(input, e1);
            let len = input.unicode_len();
            if j < len && input.get_char(j) == ':' {
                match parse_value(p, input, j + 1) {
                    Ok((e2, v)) => Ok((e2, (key, v))),
                    Err(f) => Err(f),
                }
            } else {
                Err(ParseFailure::Syntax { pos: j })
            }
        },
        Err(f) => Err(f),
    }
}

/// Parse an object: `{`, zero or more comma-separated pairs, `}`.
pub fn parse_object<P: JTypeParser>(p: &P, input: &str, pos: usize) -> (r: Result<
    (usize, P::JO),
    ParseFailure,
>)
    requires
        pos <= input@.len(),
    ensures
        match spec_parse_object(p, input@, pos as int) {
            SpecOutcome::Match { end, val } => r matches Ok(res) && res.0 as int == end
                && builds_object(p, val, res.1) && pos < res.0 <= input@.len(),
            SpecOutcome::Mismatch => r matches Err(ParseFailure::Syntax { .. }),
            SpecOutcome::Fatal => r matches Err(ParseFailure::Construction { .. }),
        },
    decreases input@.len() - pos, 1int,
{
    let ghost s = input@;
    let i = skip_ws(input, pos);
    let len = input.unicode_len();
    if !(i < len && input.get_char(i) == '{') {
        return Err(ParseFailure::Syntax { pos: i });
    }
    let m0 = i + 1;
    let mut kvs: Vec<(P::JS, P::JT)> = Vec::new();
    let ghost mut frags: Seq<(Seq<char>, SpecValue)> = Seq::empty();
    let mut cur: usize;
    match parse_pair(p, input, m0) {
        Err(ParseFailure::Construction { pos: cp }) => {
            proof {
                assert(spec_parse_pair(p, s, m0 as int) is Fatal);
                assert(spec_parse_members(p, s, m0 as int) is Fatal);
                assert(spec_parse_object(p, s, pos as int) is Fatal);
            }
            return Err(ParseFailure::Construction { pos: cp });
        },
        Err(ParseFailure::Syntax { .. }) => {
            cur = m0;
            assert(spec_parse_members(p, s, m0 as int) == (SpecOutcome::Match {
                end: m0 as int,
                val: frags,
            }));
            assert(builds_pairs(p, frags, kvs@));
        },
        Ok((e, kv)) => {
            kvs.push(kv);
            proof {
                frags = seq![spec_parse_pair(p, s, m0 as int)->Match_val];
            }
            cur = e;
            loop
                invariant
                    s == input@,
                    len == s.len(),
                    pos < m0 <= cur <= len,
                    i == spec_skip_ws(s, pos as int),
                    i < len && s[i as int] == '{' && m0 == i + 1,
                    spec_parse_members(p, s, m0 as int) == spec_members_tail(
                        p,
                        s,
                        cur as int,
                        frags,
                    ),
                    builds_pairs(p, frags, kvs@),
                ensures
                    m0 <= cur <= len,
                    spec_parse_members(p, s, m0 as int) == (SpecOutcome::Match {
                        end: cur as int,
                        val: frags,
                    }),
                    builds_pairs(p, frags, kvs@),
                decreases len - cur,
            {
                let j = skip_ws(input, cur);
                if j < len && input.get_char(j) == ',' {
                    proof {
                        assert(spec_members_tail(p, s, cur as int, frags)
                            == spec_parse_members_more(p, s, j + 1 as int, frags));
                    }
                    match parse_pair(p, input, j + 1) {
                        Ok((e2, kv2)) => {
                            kvs.push(kv2);
                            proof {
                                frags = frags.push(spec_parse_pair(p, s, (j + 1) as int)->Match_val);
                            }
                            cur = e2;
                        },
                        Err(ParseFailure::Construction { pos: cp }) => {
                            proof {
                                assert(spec_parse_members_more(p, s, j + 1 as int, frags) is Fatal);
                                assert(spec_parse_members(p, s, m0 as int) is Fatal);
                                assert(spec_parse_object(p, s, pos as int) is Fatal);
                            }
                            return Err(ParseFailure::Construction { pos: cp });
                        },
                        Err(ParseFailure::Syntax { .. }) => {
                            proof {
                                assert(spec_parse_members_more(p, s, j + 1 as int, frags)
                                    is Mismatch);
                                assert(spec_parse_members(p, s, m0 as int) is Mismatch);
                                assert(spec_parse_object(p, s, pos as int) is Mismatch);
                            }
                            return Err(ParseFailure::Syntax { pos: j + 1 });
                        },
                    }
                } else {
                    assert(spec_parse_members(p, s, m0 as int) == (SpecOutcome::Match {
                        end: cur as int,
                        val: frags,
                    }));
                    break ;
                }
            }
        },
    }
    let j = skip_ws(input, cur);
    if j < len && input.get_char(j) == '}' {
        let end = skip_ws(input, j + 1);
        let o = p.get_object(kvs);
        proof {
            assert(p.object_rel(kvs@, o));
            assert(builds_object(p, frags, o));
            assert(spec_parse_object(p, s, pos as int) == (SpecOutcome::Match {
                end: end as int,
                val: frags,
            }));
        }
        Ok((end, o))
    } else {
        proof {
            assert(spec_parse_object(p, s, pos as int) is Mismatch);
        }
        Err(ParseFailure::Syntax { pos: j })
    }
}

/// Parse an array: `[`, zero or more comma-separated values, `]`.
pub fn parse_array<P: JTypeParser>(p: &P, input: &str, pos: usize) -> (r: Result<
    (usize, P::JA),
    ParseFailure,
>)
    requires
        pos <= input@.len(),
    ensures
        match spec_parse_array(p, input@, pos as int) {
            SpecOutcome::Match { end, val } => r matches Ok(res) && res.0 as int == end
                && builds_array(p, val, res.1) && pos < res.0 <= input@.len(),
            SpecOutcome::Mismatch => r matches Err(ParseFailure::Syntax { .. }),
            SpecOutcome::Fatal => r matches Err(ParseFailure::Construction { .. }),
        },
    decreases input@.len() - pos, 1int,
{
    let ghost s = input@;
    let i = skip_ws(input, pos);
    let len = input.unicode_len();
    if !(i < len && input.get_char(i) == '[') {
        return Err(ParseFailure::Syntax { pos: i });
    }
    let m0 = i + 1;
    let mut vs: Vec<P::JT> = Vec::new();
    let ghost mut frags: Seq<SpecValue> = Seq::empty();
    let mut cur: usize;
    match parse_value(p, input, m0) {
        Err(ParseFailure::Construction { pos: cp }) => {
            proof {
                assert(spec_parse_value(p, s, m0 as int) is Fatal);
                assert(spec_parse_elems(p, s, m0 as int) is Fatal);
                assert(spec_parse_array(p, s, pos as int) is Fatal);
            }
            return Err(ParseFailure::Construction { pos: cp });
        },
        Err(ParseFailure::Syntax { .. }) => {
            cur = m0;
            assert(spec_parse_elems(p, s, m0 as int) == (SpecOutcome::Match {
                end: m0 as int,
                val: frags,
            }));
            assert(builds_elems(p, frags, vs@));
        },
        Ok((e, v)) => {
            vs.push(v);
            proof {
                frags = seq![spec_parse_value(p, s, m0 as int)->Match_val];
            }
            cur = e;
            loop
                invariant
                    s == input@,
                    len == s.len(),
                    pos < m0 <= cur <= len,
                    i == spec_skip_ws(s, pos as int),
                    i < len && s[i as int] == '[' && m0 == i + 1,
                    spec_parse_elems(p, s, m0 as int) == spec_elems_tail(
                        p,
                        s,
                        cur as int,
                        frags,
                    ),
                    builds_elems(p, frags, vs@),
                ensures
                    m0 <= cur <= len,
                    spec_parse_elems(p, s, m0 as int) == (SpecOutcome::Match {
                        end: cur as int,
                        val: frags,
                    }),
                    builds_elems(p, frags, vs@),
                decreases len - cur,
            {
                let j = skip_ws(input, cur);
                if j < len && input.get_char(j) == ',' {
                    proof {
                        assert(spec_elems_tail(p, s, cur as int, frags)
                            == spec_parse_elems_more(p, s, j + 1 as int, frags));
                    }
                    match parse_value(p, input, j + 1) {
                        Ok((e2, v2)) => {
                            vs.push(v2);
                            proof {
                                frags = frags.push(spec_parse_value(p, s, (j + 1) as int)->Match_val);
                            }
                            cur = e2;
                        },
                        Err(ParseFailure::Construction { pos: cp }) => {
                            proof {
                                assert(spec_parse_elems_more(p, s, j + 1 as int, frags) is Fatal);
                                assert(spec_parse_elems(p, s, m0 as int) is Fatal);
                                assert(spec_parse_array(p, s, pos as int) is Fatal);
                            }
                            return Err(ParseFailure::Construction { pos: cp });
                        },
                        Err(ParseFailure::Syntax { .. }) => {
                            proof {
                                assert(spec_parse_elems_more(p, s, j + 1 as int, frags)
                                    is Mismatch);
                                assert(spec_parse_elems(p, s, m0 as int) is Mismatch);
                                assert(spec_parse_array(p, s, pos as int) is Mismatch);
                            }
                            return Err(ParseFailure::Syntax { pos: j + 1 });
                        },
                    }
                } else {
                    assert(spec_parse_elems(p, s, m0 as int) == (SpecOutcome::Match {
                        end: cur as int,
                        val: frags,
                    }));
                    break ;
                }
            }
        },
    }
    let j = skip_ws(input, cur);
    if j < len && input.get_char(j) == ']' {
        let end = skip_ws(input, j + 1);
        let a = p.get_array(vs);
        proof {
            assert(p.array_rel(vs@, a));
            assert(builds_array(p, frags, a));
            assert(spec_parse_array(p, s, pos as int) == (SpecOutcome::Match {
                end: end as int,
                val: frags,
            }));
        }
        Ok((end, a))
    } else {
        proof {
            assert(spec_parse_array(p, s, pos as int) is Mismatch);
        }
        Err(ParseFailure::Syntax { pos: j })
    }
}

/// Dispatch: try each value kind in the fixed order Object, Array,
/// String, Number, Boolean, Null; wrap the first match into the
/// unified value. A construction failure stops the trial at once
/// instead of falling through to another kind.
pub fn parse_value<P: JTypeParser>(p: &P, input: &str, pos: usize) -> (r: Result<(usize, P::JT), ParseFailure>)
    requires
        pos <= input@.len(),
    ensures
        match spec_parse_value(p, input@, pos as int) {
            SpecOutcome::Match { end, val } => r matches Ok(res) && res.0 as int == end
                && builds_value(p, val, res.1) && pos < res.0 <= input@.len(),
            SpecOutcome::Mismatch => r matches Err(ParseFailure::Syntax { .. }),
            SpecOutcome::Fatal => r matches Err(ParseFailure::Construction { .. }),
        },
    decreases input@.len() - pos, 2int,
{
    match parse_object(p, input, pos) {
        Ok((end, o)) => {
            let v = p.get_jtype(JType::Object(o));
            return Ok((end, v));
        },
        Err(ParseFailure::Construction { pos: cp }) => {
            return Err(ParseFailure::Construction { pos: cp });
        },
        Err(ParseFailure::Syntax { .. }) => {},
    }
    match parse_array(p, input, pos) {
        Ok((end, a)) => {
            let v = p.get_jtype(JType::Array(a));
            return Ok((end, v));
        },
        Err(ParseFailure::Construction { pos: cp }) => {
            return Err(ParseFailure::Construction { pos: cp });
        },
        Err(ParseFailure::Syntax { .. }) => {},
    }
    match parse_string(p, input, pos) {
        Ok((end, js)) => {
            let v = p.get_jtype(JType::String(js));
            return Ok((end, v));
        },
        Err(ParseFailure::Construction { pos: cp }) => {
            return Err(ParseFailure::Construction { pos: cp });
        },
        Err(ParseFailure::Syntax { .. }) => {},
    }
    match parse_number_lit(p, input, pos) {
        Ok((end, n)) => {
            let v = p.get_jtype(JType::Number(n));
            return Ok((end, v));
        },
        Err(ParseFailure::Construction { pos: cp }) => {
            return Err(ParseFailure::Construction { pos: cp });
        },
        Err(ParseFailure::Syntax { .. }) => {},
    }
    match parse_boolean(p, input, pos) {
        Ok((end, b)) => {
            let v = p.get_jtype(JType::Boolean(b));
            return Ok((end, v));
        },
        Err(ParseFailure::Construction { pos: cp }) => {
            return Err(ParseFailure::Construction { pos: cp });
        },
        Err(ParseFailure::Syntax { .. }) => {},
    }
    match parse_null(p, input, pos) {
        Ok((end, z)) => {
            let v = p.get_jtype(JType::Null(z));
            Ok((end, v))
        },
        Err(f) => Err(f),
    }
}


/// Skipping leading whitespace lands every sub-parser at the same
/// place, so a run of insignificant whitespace in front of a value
/// changes nothing; every recursive sub-parse begins with the same
/// skip, so this holds at every nesting level.
pub proof fn lemma_leading_ws<P: JTypeParser>(p: &P, s: Seq<char>, pos: int, mid: int)
    requires
        0 <= pos <= mid <= s.len(),
        forall|k: int| pos <= k < mid ==> is_ws(s[k]),
    ensures
        spec_parse_value(p, s, pos) == spec_parse_value(p, s, mid),
{
    lemma_skip_ws_absorbs(s, pos, mid);
    lemma_skip_ws_bounds(s, mid);
    assert(spec_parse_object(p, s, pos) == spec_parse_object(p, s, mid));
    assert(spec_parse_array(p, s, pos) == spec_parse_array(p, s, mid));
    assert(spec_parse_string(s, pos) == spec_parse_string(s, mid));
    assert(spec_parse_number(p, s, pos) == spec_parse_number(p, s, mid));
    assert(spec_parse_boolean(s, pos) == spec_parse_boolean(s, mid));
    assert(spec_parse_null(s, pos) == spec_parse_null(s, mid));
}

/// Every value kind has its own leading token, so dispatch neither
/// distorts a primitive that matches nor lets a fatal numeric literal
/// fall through to the boolean or null alternatives: whatever the
/// string, number, boolean or null grammar does at a position, the
/// dispatch does the same there.
pub proof fn lemma_primitive_dispatch<P: JTypeParser>(p: &P, s: Seq<char>, pos: int)
    requires
        0 <= pos <= s.len(),
    ensures
        spec_parse_string(s, pos) matches SpecOutcome::Match { end, val }
            ==> spec_parse_value(p, s, pos) == (SpecOutcome::Match {
            end,
            val: SpecValue::String(val),
        }),
        spec_parse_number(p, s, pos) matches SpecOutcome::Match { end, val }
            ==> spec_parse_value(p, s, pos) == (SpecOutcome::Match {
            end,
            val: SpecValue::Number(val),
        }),
        spec_parse_number(p, s, pos) is Fatal ==> spec_parse_value(p, s, pos) is Fatal,
        spec_parse_boolean(s, pos) matches SpecOutcome::Match { end, val }
            ==> spec_parse_value(p, s, pos) == (SpecOutcome::Match {
            end,
            val: SpecValue::Boolean(val),
        }),
        spec_parse_null(s, pos) matches SpecOutcome::Match { end, val } ==> spec_parse_value(
            p,
            s,
            pos,
        ) == (SpecOutcome::Match { end, val: SpecValue::Null }),
{
    let i = spec_skip_ws(s, pos);
    lemma_skip_ws_bounds(s, pos);
    if i < s.len() && s[i] == '"' {
        assert(spec_number_end(s, i) is None);
    }
}


} // verus!

use vstd::prelude::*;

verus! {

/// Insignificant whitespace: space, tab, line feed, carriage return.
pub open spec fn is_ws(c: char) -> bool {
    c == ' ' || c == '\t' || c == '\n' || c == '\r'
}

/// Index of the first character at or after `pos` that is not whitespace
/// (or the end of the text).
pub open spec fn spec_skip_ws(s: Seq<char>, pos: int) -> int
    decreases s.len() - pos,
{
    if 0 <= pos < s.len() && is_ws(s[pos]) {
        spec_skip_ws(s, pos + 1)
    } else {
        pos
    }
}

pub proof fn lemma_skip_ws_bounds(s: Seq<char>, pos: int)
    requires
        0 <= pos <= s.len(),
    ensures
        pos <= spec_skip_ws(s, pos) <= s.len(),
        spec_skip_ws(s, pos) < s.len() ==> !is_ws(s[spec_skip_ws(s, pos)]),
    decreases s.len() - pos,
{
    if pos < s.len() && is_ws(s[pos]) {
        lemma_skip_ws_bounds(s, pos + 1);
    }
}

/// Skipping whitespace lands at the same place no matter how much of the
/// leading whitespace run has already been passed over.
pub proof fn lemma_skip_ws_absorbs(s: Seq<char>, pos: int, mid: int)
    requires
        0 <= pos <= mid <= s.len(),
        forall|i: int| pos <= i < mid ==> is_ws(s[i]),
    ensures
        spec_skip_ws(s, pos) == spec_skip_ws(s, mid),
    decreases mid - pos,
{
    if pos < mid {
        lemma_skip_ws_absorbs(s, pos + 1, mid);
    }
}

fn ws_char(c: char) -> (b: bool)
    ensures
        b == is_ws(c),
{
    c == ' ' || c == '\t' || c == '\n' || c == '\r'
}

/// Advance past a run of insignificant whitespace.
pub fn skip_ws(input: &str, pos: usize) -> (r: usize)
    requires
        pos <= input@.len(),
    ensures
        r == spec_skip_ws(input@, pos as int),
        pos <= r <= input@.len(),
        r < input@.len() ==> !is_ws(input@[r as int]),
{
    let len = input.unicode_len();
    let mut cur = pos;
    while cur < len && ws_char(input.get_char(cur))
        invariant
            pos <= cur <= len,
            len == input@.len(),
            spec_skip_ws(input@, pos as int) == spec_skip_ws(input@, cur as int),
        decreases len - cur,
    {
        cur = cur + 1;
    }
    cur
}

/// A decimal digit.
pub open spec fn is_digit(c: char) -> bool {
    48 <= c as u32 <= 57
}

fn digit_char(c: char) -> (b: bool)
    ensures
        b == is_digit(c),
{
    let u = c as u32;
    48 <= u && u <= 57
}

/// Index of the first character at or after `pos` that is not a digit.
pub open spec fn spec_digits_end(s: Seq<char>, pos: int) -> int
    decreases s.len() - pos,
{
    if 0 <= pos < s.len() && is_digit(s[pos]) {
        spec_digits_end(s, pos + 1)
    } else {
        pos
    }
}

pub proof fn lemma_digits_end_bounds(s: Seq<char>, pos: int)
    requires
        0 <= pos <= s.len(),
    ensures
        pos <= spec_digits_end(s, pos) <= s.len(),
    decreases s.len() - pos,
{
    if pos < s.len() && is_digit(s[pos]) {
        lemma_digits_end_bounds(s, pos + 1);
    }
}

fn digits_end(input: &str, pos: usize) -> (r: usize)
    requires
        pos <= input@.len(),
    ensures
        r == spec_digits_end(input@, pos as int),
        pos <= r <= input@.len(),
{
    let len = input.unicode_len();
    let mut cur = pos;
    while cur < len && digit_char(input.get_char(cur))
        invariant
            pos <= cur <= len,
            len == input@.len(),
            spec_digits_end(input@, pos as int) == spec_digits_end(input@, cur as int),
        decreases len - cur,
    {
        cur = cur + 1;
    }
    cur
}

/// Index of the first `"` at or after `pos`, if any.
pub open spec fn spec_quote_end(s: Seq<char>, pos: int) -> Option<int>
    decreases s.len() - pos,
{
    if 0 <= pos < s.len() {
        if s[pos] == '"' {
            Some(pos)
        } else {
            spec_quote_end(s, pos + 1)
        }
    } else {
        None
    }
}

/// Find the terminating `"` of a string literal's content.
pub fn find_quote(input: &str, pos: usize) -> (r: Option<usize>)
    requires
        pos <= input@.len(),
    ensures
        match r {
            Some(q) => spec_quote_end(input@, pos as int) == Some(q as int) && pos <= q
                < input@.len() && input@[q as int] == '"',
            None => spec_quote_end(input@, pos as int) is None,
        },
{
    let len = input.unicode_len();
    let mut cur = pos;
    while cur < len && input.get_char(cur) != '"'
        invariant
            pos <= cur <= len,
            len == input@.len(),
            spec_quote_end(input@, pos as int) == spec_quote_end(input@, cur as int),
        decreases len - cur,
    {
        cur = cur + 1;
    }
    if cur < len {
        Some(cur)
    } else {
        None
    }
}

/// End of the fractional part `.` digits, if one starts at `pos`;
/// otherwise `pos` itself.
pub open spec fn spec_frac_end(s: Seq<char>, pos: int) -> int {
    if pos < s.len() && s[pos] == '.' && pos + 1 < s.len() && is_digit(s[pos + 1]) {
        spec_digits_end(s, pos + 1)
    } else {
        pos
    }
}

/// End of the exponent part `e`/`E`, optional sign, digits, if one starts
/// at `pos`; otherwise `pos` itself.
pub open spec fn spec_exp_end(s: Seq<char>, pos: int) -> int {
    if pos < s.len() && (s[pos] == 'e' || s[pos] == 'E') {
        let q = if pos + 1 < s.len() && (s[pos + 1] == '+' || s[pos + 1] == '-') {
            pos + 2
        } else {
            pos + 1
        };
        if q < s.len() && is_digit(s[q]) {
            spec_digits_end(s, q)
        } else {
            pos
        }
    } else {
        pos
    }
}

/// End of the numeric literal starting at `pos`, if one starts there:
/// an optional `-`, then `0` or a nonzero digit followed by digits, then
/// an optional fraction and an optional exponent, matched greedily.
pub open spec fn spec_number_end(s: Seq<char>, pos: int) -> Option<int> {
    let p0 = if pos < s.len() && s[pos] == '-' {
        pos + 1
    } else {
        pos
    };
    if p0 < s.len() && is_digit(s[p0]) {
        let p1 = if s[p0] == '0' {
            p0 + 1
        } else {
            spec_digits_end(s, p0)
        };
        Some(spec_exp_end(s, spec_frac_end(s, p1)))
    } else {
        None
    }
}

pub proof fn lemma_number_end_bounds(s: Seq<char>, pos: int)
    requires
        0 <= pos <= s.len(),
    ensures
        match spec_number_end(s, pos) {
            Some(e) => pos < e <= s.len(),
            None => true,
        },
{
    let p0 = if pos < s.len() && s[pos] == '-' {
        pos + 1
    } else {
        pos
    };
    if p0 < s.len() && is_digit(s[p0]) {
        let p1 = if s[p0] == '0' {
            p0 + 1
        } else {
            spec_digits_end(s, p0)
        };
        assert(spec_digits_end(s, p0) == spec_digits_end(s, p0 + 1));
        lemma_digits_end_bounds(s, p0 + 1);
        assert(p0 < p1 <= s.len());
        let p2 = spec_frac_end(s, p1);
        if p1 < s.len() && s[p1] == '.' && p1 + 1 < s.len() && is_digit(s[p1 + 1]) {
            lemma_digits_end_bounds(s, p1 + 1);
        }
        assert(p1 <= p2 <= s.len());
        let p3 = spec_exp_end(s, p2);
        if p2 < s.len() && (s[p2] == 'e' || s[p2] == 'E') {
            let q = if p2 + 1 < s.len() && (s[p2 + 1] == '+' || s[p2 + 1] == '-') {
                p2 + 2
            } else {
                p2 + 1
            };
            if q < s.len() && is_digit(s[q]) {
                lemma_digits_end_bounds(s, q);
            }
        }
        assert(p2 <= p3 <= s.len());
    }
}

/// Scan the numeric literal starting at `pos`, if any.
pub fn number_end(input: &str, pos: usize) -> (r: Option<usize>)
    requires
        pos <= input@.len(),
    ensures
        match r {
            Some(e) => spec_number_end(input@, pos as int) == Some(e as int) && pos < e
                <= input@.len(),
            None => spec_number_end(input@, pos as int) is None,
        },
{
    let len = input.unicode_len();
    let p0 = if pos < len && input.get_char(pos) == '-' {
        pos + 1
    } else {
        pos
    };
    if p0 < len && digit_char(input.get_char(p0)) {
        proof {
            lemma_number_end_bounds(input@, pos as int);
        }
        let p1 = if input.get_char(p0) == '0' {
            p0 + 1
        } else {
            digits_end(input, p0)
        };
        let p2 = if p1 < len && input.get_char(p1) == '.' && p1 + 1 < len && digit_char(
            input.get_char(p1 + 1),
        ) {
            digits_end(input, p1 + 1)
        } else {
            p1
        };
        let p3 = if p2 < len && (input.get_char(p2) == 'e' || input.get_char(p2) == 'E') {
            let q = if p2 + 1 < len && (input.get_char(p2 + 1) == '+' || input.get_char(p2 + 1)
                == '-') {
                p2 + 2
            } else {
                p2 + 1
            };
            if q < len && digit_char(input.get_char(q)) {
                digits_end(input, q)
            } else {
                p2
            }
        } else {
            p2
        };
        Some(p3)
    } else {
        None
    }
}

/// The literal `true` stands at `pos`.
pub open spec fn true_at(s: Seq<char>, pos: int) -> bool {
    pos + 4 <= s.len() && s[pos] == 't' && s[pos + 1] == 'r' && s[pos + 2] == 'u' && s[pos + 3]
        == 'e'
}

/// The literal `false` stands at `pos`.
pub open spec fn false_at(s: Seq<char>, pos: int) -> bool {
    pos + 5 <= s.len() && s[pos] == 'f' && s[pos + 1] == 'a' && s[pos + 2] == 'l' && s[pos + 3]
        == 's' && s[pos + 4] == 'e'
}

/// The literal `null` stands at `pos`.
pub open spec fn null_at(s: Seq<char>, pos: int) -> bool {
    pos + 4 <= s.len() && s[pos] == 'n' && s[pos + 1] == 'u' && s[pos + 2] == 'l' && s[pos + 3]
        == 'l'
}

pub fn match_true(input: &str, pos: usize) -> (b: bool)
    requires
        pos <= input@.len(),
    ensures
        b == true_at(input@, pos as int),
{
    let len = input.unicode_len();
    len - pos >= 4 && input.get_char(pos) == 't' && input.get_char(pos + 1) == 'r'
        && input.get_char(pos + 2) == 'u' && input.get_char(pos + 3) == 'e'
}

pub fn match_false(input: &str, pos: usize) -> (b: bool)
    requires
        pos <= input@.len(),
    ensures
        b == false_at(input@, pos as int),
{
    let len = input.unicode_len();
    len - pos >= 5 && input.get_char(pos) == 'f' && input.get_char(pos + 1) == 'a'
        && input.get_char(pos + 2) == 'l' && input.get_char(pos + 3) == 's' && input.get_char(
        pos + 4,
    ) == 'e'
}

pub fn match_null(input: &str, pos: usize) -> (b: bool)
    requires
        pos <= input@.len(),
    ensures
        b == null_at(input@, pos as int),
{
    let len = input.unicode_len();
    len - pos >= 4 && input.get_char(pos) == 'n' && input.get_char(pos + 1) == 'u'
        && input.get_char(pos + 2) == 'l' && input.get_char(pos + 3) == 'l'
}

} // verus!

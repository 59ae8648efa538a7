use vstd::prelude::*;
use crate::jtype::JType;
use crate::number::{JNumber, decimal_exact_of, decimal_sci_of, decimal_from_str_exact,
    decimal_from_scientific};
use crate::type_parser::JTypeParser;
use crate::parser::Parser;

verus! {

broadcast use vstd::std_specs::vec::group_vec_axioms;

/// The reference builder: objects become pair lists with unique keys
/// (an order-irrelevant mapping), arrays become vectors, strings stay
/// text, numbers become exact decimals, booleans stay primitive, and
/// null is the unit value.
pub struct DefaultTypeParser {}

impl DefaultTypeParser {
    pub fn create() -> (r: Self)
        ensures
            r == (DefaultTypeParser {  }),
    {
        Self {  }
    }
}

/// The unified value of the reference builder.
#[derive(Debug)]
pub struct DefaultJType {
    pub t: JType<Vec<(String, DefaultJType)>, Vec<DefaultJType>, String, JNumber, bool, ()>,
}

/// No two pairs carry the same key.
pub open spec fn keys_unique(ps: Seq<(String, DefaultJType)>) -> bool {
    forall|i: int, j: int| 0 <= i < j < ps.len() ==> (#[trigger] ps[i]).0@ != (#[trigger] ps[j]).0@
}

/// The mapping a pair list stands for; a later pair with the same key
/// wins, as it would when filling a map in order.
pub open spec fn as_map(ps: Seq<(String, DefaultJType)>) -> Map<Seq<char>, DefaultJType>
    decreases ps.len(),
{
    if ps.len() == 0 {
        Map::empty()
    } else {
        as_map(ps.drop_last()).insert(ps.last().0@, ps.last().1)
    }
}

/// Some pair of `o2` has `kv`'s key and a value that `kv`'s value
/// equals (`kv`'s value on the left).
pub open spec fn has_counterpart(kv: (String, DefaultJType), o2: Seq<(String, DefaultJType)>) -> bool
    decreases kv, 0int, 0int,
{
    exists|j: int| 0 <= j < o2.len() && ((#[trigger] o2[j]).0)@ == kv.0@ && jt_eq(kv.1, o2[j].1)
}

/// Some pair of `o1` has `kv`'s key and a value that equals `kv`'s
/// value (`o1`'s value on the left).
pub open spec fn has_match_in(o1: Seq<(String, DefaultJType)>, kv: (String, DefaultJType)) -> bool
    decreases o1, 0int, 0int,
{
    exists|i: int| 0 <= i < o1.len() && ((#[trigger] o1[i]).0)@ == kv.0@ && jt_eq(o1[i].1, kv.1)
}

/// Each of the first `n` pairs of `o1` has a counterpart in `o2`.
pub open spec fn obj_covers_left(
    o1: Seq<(String, DefaultJType)>,
    o2: Seq<(String, DefaultJType)>,
    n: int,
) -> bool
    decreases o1, 1int, n,
{
    if n <= 0 {
        true
    } else {
        obj_covers_left(o1, o2, n - 1) && (n <= o1.len() ==> has_counterpart(o1[n - 1], o2))
    }
}

/// Each of the first `n` pairs of `o2` is matched by a pair of `o1`.
pub open spec fn obj_covers_right(
    o1: Seq<(String, DefaultJType)>,
    o2: Seq<(String, DefaultJType)>,
    n: int,
) -> bool
    decreases o1, 1int, n,
{
    if n <= 0 {
        true
    } else {
        obj_covers_right(o1, o2, n - 1) && (n <= o2.len() ==> has_match_in(o1, o2[n - 1]))
    }
}

/// A pair of `o1` without counterpart refutes the left coverage.
proof fn lemma_not_covers_left(
    o1: Seq<(String, DefaultJType)>,
    o2: Seq<(String, DefaultJType)>,
    i: int,
    n: int,
)
    requires
        0 <= i < n,
        i < o1.len(),
        !has_counterpart(o1[i], o2),
    ensures
        !obj_covers_left(o1, o2, n),
    decreases n,
{
    if i < n - 1 {
        lemma_not_covers_left(o1, o2, i, n - 1);
    }
}

/// A pair of `o2` that nothing matches refutes the right coverage.
proof fn lemma_not_covers_right(
    o1: Seq<(String, DefaultJType)>,
    o2: Seq<(String, DefaultJType)>,
    j: int,
    n: int,
)
    requires
        0 <= j < n,
        j < o2.len(),
        !has_match_in(o1, o2[j]),
    ensures
        !obj_covers_right(o1, o2, n),
    decreases n,
{
    if j < n - 1 {
        lemma_not_covers_right(o1, o2, j, n - 1);
    }
}

/// Two reference-builder values stand for the same JSON value: arrays
/// element by element in order, objects as mappings regardless of pair
/// order, numbers by their exact numeric value, strings by content.
pub open spec fn jt_eq(a: DefaultJType, b: DefaultJType) -> bool
    decreases a, 0int, 0int,
{
    match (a.t, b.t) {
        (JType::Object(o1), JType::Object(o2)) => {
            &&& obj_covers_left(o1@, o2@, o1@.len() as int)
            &&& obj_covers_right(o1@, o2@, o2@.len() as int)
        },
        (JType::Array(a1), JType::Array(a2)) => {
            &&& a1@.len() == a2@.len()
            &&& forall|i: int| 0 <= i < a1@.len() ==> jt_eq(#[trigger] a1@[i], a2@[i])
        },
        (JType::String(s1), JType::String(s2)) => s1@ == s2@,
        (JType::Number(n1), JType::Number(n2)) => n1.same_value(n2),
        (JType::Boolean(b1), JType::Boolean(b2)) => b1 == b2,
        (JType::Null(_), JType::Null(_)) => true,
        _ => false,
    }
}

impl DefaultJType {
    /// Deep equality under the reference builder's semantics: objects
    /// compare as mappings, insensitive to the order of their pairs;
    /// numbers compare by numeric value.
    #[verifier::loop_isolation(false)]
    pub fn eq_value(&self, other: &DefaultJType) -> (b: bool)
        ensures
            b == jt_eq(*self, *other),
        decreases *self, 1int,
    {
        match &self.t {
            JType::Object(o1) => match &other.t {
                JType::Object(o2) => {
                    let mut i: usize = 0;
                    while i < o1.len()
                        invariant
                            0 <= i <= o1@.len(),
                            obj_covers_left(o1@, o2@, i as int),
                        decreases o1@.len() - i,
                    {
                        let kv = &o1[i];
                        proof {
                            assert(decreases_to!(self.t => *o1));
                            assert(decreases_to!(*o1 => o1@));
                            assert(decreases_to!(o1@ => o1@[i as int]));
                        }
                        if !pairs_contain_left(kv, o2) {
                            proof {
                                assert(*kv == o1@[i as int]);
                                lemma_not_covers_left(o1@, o2@, i as int, o1@.len() as int);
                                assert(!jt_eq(*self, *other));
                            }
                            return false;
                        }
                        i = i + 1;
                    }
                    let mut j: usize = 0;
                    while j < o2.len()
                        invariant
                            0 <= j <= o2@.len(),
                            obj_covers_right(o1@, o2@, j as int),
                        decreases o2@.len() - j,
                    {
                        let kv = &o2[j];
                        proof {
                            assert(decreases_to!(self.t => *o1));
                        }
                        if !pairs_contain_right(o1, kv) {
                            proof {
                                assert(*kv == o2@[j as int]);
                                lemma_not_covers_right(o1@, o2@, j as int, o2@.len() as int);
                                assert(!jt_eq(*self, *other));
                            }
                            return false;
                        }
                        j = j + 1;
                    }
                    proof {
                        assert(obj_covers_left(o1@, o2@, o1@.len() as int));
                        assert(obj_covers_right(o1@, o2@, o2@.len() as int));
                        assert(jt_eq(*self, *other));
                    }
                    true
                },
                _ => false,
            },
            JType::Array(a1) => match &other.t {
                JType::Array(a2) => {
                    if a1.len() != a2.len() {
                        return false;
                    }
                    let mut i: usize = 0;
                    while i < a1.len()
                        invariant
                            0 <= i <= a1@.len(),
                            a1@.len() == a2@.len(),
                            forall|i2: int| 0 <= i2 < i ==> jt_eq(#[trigger] a1@[i2], a2@[i2]),
                        decreases a1@.len() - i,
                    {
                        proof {
                            assert(decreases_to!(self.t => *a1));
                            assert(decreases_to!(*a1 => a1@));
                            assert(decreases_to!(a1@ => a1@[i as int]));
                        }
                        if !a1[i].eq_value(&a2[i]) {
                            proof {
                                assert(!jt_eq(*self, *other));
                            }
                            return false;
                        }
                        i = i + 1;
                    }
                    proof {
                        assert(jt_eq(*self, *other));
                    }
                    true
                },
                _ => false,
            },
            JType::String(s1) => match &other.t {
                JType::String(s2) => *s1 == *s2,
                _ => false,
            },
            JType::Number(n1) => match &other.t {
                JType::Number(n2) => n1.num_eq(n2),
                _ => false,
            },
            JType::Boolean(b1) => match &other.t {
                JType::Boolean(b2) => *b1 == *b2,
                _ => false,
            },
            JType::Null(_) => match &other.t {
                JType::Null(_) => true,
                _ => false,
            },
        }
    }
}

/// Whether `pairs` holds a counterpart of the pair `kv`.
#[verifier::loop_isolation(false)]
fn pairs_contain_left(kv: &(String, DefaultJType), pairs: &Vec<(String, DefaultJType)>) -> (b:
    bool)
    ensures
        b == has_counterpart(*kv, pairs@),
    decreases *kv, 2int,
{
    let mut j: usize = 0;
    while j < pairs.len()
        invariant
            0 <= j <= pairs@.len(),
            forall|j2: int|
                0 <= j2 < j ==> !(((#[trigger] pairs@[j2]).0)@ == kv.0@ && jt_eq(kv.1, pairs@[j2].1)),
        decreases pairs@.len() - j,
    {
        let pj = &pairs[j];
        if pj.0 == kv.0 && kv.1.eq_value(&pj.1) {
            return true;
        }
        j = j + 1;
    }
    false
}

/// Whether some pair of `pairs` matches the pair `kv`.
#[verifier::loop_isolation(false)]
fn pairs_contain_right(pairs: &Vec<(String, DefaultJType)>, kv: &(String, DefaultJType)) -> (b:
    bool)
    ensures
        b == has_match_in(pairs@, *kv),
    decreases *pairs, 0int,
{
    let mut i: usize = 0;
    while i < pairs.len()
        invariant
            0 <= i <= pairs@.len(),
            forall|i2: int|
                0 <= i2 < i ==> !(((#[trigger] pairs@[i2]).0)@ == kv.0@ && jt_eq(pairs@[i2].1, kv.1)),
        decreases pairs@.len() - i,
    {
        let pi = &pairs[i];
        proof {
            assert(decreases_to!(*pairs => pairs@));
            assert(decreases_to!(pairs@ => pairs@[i as int]));
        }
        if pi.0 == kv.0 && pi.1.eq_value(&kv.1) {
            return true;
        }
        i = i + 1;
    }
    false
}

/// Index of the pair carrying `key`, if any.
fn find_key(pairs: &Vec<(String, DefaultJType)>, key: &String) -> (r: Option<usize>)
    ensures
        match r {
            Some(j) => j < pairs@.len() && (pairs@[j as int].0)@ == key@,
            None => forall|j: int| 0 <= j < pairs@.len() ==> ((#[trigger] pairs@[j]).0)@ != key@,
        },
{
    let mut j: usize = 0;
    while j < pairs.len()
        invariant
            0 <= j <= pairs@.len(),
            forall|j2: int| 0 <= j2 < j ==> ((#[trigger] pairs@[j2]).0)@ != key@,
        decreases pairs@.len() - j,
    {
        if pairs[j].0 == *key {
            return Some(j);
        }
        j = j + 1;
    }
    None
}

/// Updating the pair that holds a key is, as a mapping, inserting at
/// that key.
proof fn lemma_as_map_update(ps: Seq<(String, DefaultJType)>, j: int, k: String, v: DefaultJType)
    requires
        keys_unique(ps),
        0 <= j < ps.len(),
        (ps[j].0)@ == k@,
    ensures
        as_map(ps.update(j, (k, v))) == as_map(ps).insert(k@, v),
    decreases ps.len(),
{
    let upd = ps.update(j, (k, v));
    if j == ps.len() - 1 {
        assert(upd.drop_last() =~= ps.drop_last());
        assert(as_map(upd) == as_map(ps.drop_last()).insert(k@, v));
        assert(as_map(ps).insert(k@, v) =~= as_map(ps.drop_last()).insert(k@, v));
    } else {
        assert(upd.drop_last() =~= ps.drop_last().update(j, (k, v)));
        lemma_as_map_update(ps.drop_last(), j, k, v);
        assert(upd.last() == ps.last());
        assert((ps.last().0)@ != k@);
        assert(as_map(upd) == as_map(ps.drop_last()).insert(k@, v).insert(
            ps.last().0@,
            ps.last().1,
        ));
        assert(as_map(ps.drop_last()).insert(k@, v).insert(ps.last().0@, ps.last().1)
            =~= as_map(ps.drop_last()).insert(ps.last().0@, ps.last().1).insert(k@, v));
    }
}


/// Coverage of an object by itself, pair for pair.
proof fn lemma_covers_self(o: Seq<(String, DefaultJType)>, n: int)
    requires
        0 <= n <= o.len(),
    ensures
        obj_covers_left(o, o, n),
        obj_covers_right(o, o, n),
    decreases o, n,
{
    if n > 0 {
        lemma_covers_self(o, n - 1);
        lemma_jt_eq_refl(o[n - 1].1);
        assert(0 <= n - 1 < o.len() && ((#[trigger] o[n - 1]).0)@ == (o[n - 1].0)@ && jt_eq(
            o[n - 1].1,
            o[n - 1].1,
        ));
        assert(has_counterpart(o[n - 1], o));
        assert(has_match_in(o, o[n - 1]));
    }
}

/// Every value equals itself under the reference builder's equality.
pub proof fn lemma_jt_eq_refl(a: DefaultJType)
    ensures
        jt_eq(a, a),
    decreases a, 0int,
{
    match a.t {
        JType::Object(o) => {
            lemma_covers_self(o@, o@.len() as int);
        },
        JType::Array(arr) => {
            assert forall|i: int| 0 <= i < arr@.len() implies jt_eq(
                #[trigger] arr@[i],
                arr@[i],
            ) by {
                lemma_jt_eq_refl(arr@[i]);
            }
        },
        _ => {},
    }
}

proof fn lemma_covers_left_from_same_pairs(
    o1: Seq<(String, DefaultJType)>,
    o2: Seq<(String, DefaultJType)>,
    n: int,
)
    requires
        0 <= n <= o1.len(),
        forall|k: int| 0 <= k < o1.len() ==> o2.contains(#[trigger] o1[k]),
    ensures
        obj_covers_left(o1, o2, n),
    decreases n,
{
    if n > 0 {
        lemma_covers_left_from_same_pairs(o1, o2, n - 1);
        let kv = o1[n - 1];
        assert(o2.contains(kv));
        let j = choose|j: int| 0 <= j < o2.len() && o2[j] == kv;
        lemma_jt_eq_refl(kv.1);
        assert(((#[trigger] o2[j]).0)@ == kv.0@ && jt_eq(kv.1, o2[j].1));
        assert(has_counterpart(kv, o2));
    }
}

proof fn lemma_covers_right_from_same_pairs(
    o1: Seq<(String, DefaultJType)>,
    o2: Seq<(String, DefaultJType)>,
    n: int,
)
    requires
        0 <= n <= o2.len(),
        forall|k: int| 0 <= k < o2.len() ==> o1.contains(#[trigger] o2[k]),
    ensures
        obj_covers_right(o1, o2, n),
    decreases n,
{
    if n > 0 {
        lemma_covers_right_from_same_pairs(o1, o2, n - 1);
        let kv = o2[n - 1];
        assert(o1.contains(kv));
        let i = choose|i: int| 0 <= i < o1.len() && o1[i] == kv;
        lemma_jt_eq_refl(kv.1);
        assert(((#[trigger] o1[i]).0)@ == kv.0@ && jt_eq(o1[i].1, kv.1));
        assert(has_match_in(o1, kv));
    }
}

/// Two objects that hold the same pairs, in whatever order, are equal:
/// the reference builder's equality is insensitive to the order in
/// which an object's keys were written.
pub proof fn lemma_object_eq_key_order(a: DefaultJType, b: DefaultJType)
    requires
        a.t is Object,
        b.t is Object,
        forall|kv: (String, DefaultJType)|
            a.t->Object_0@.contains(kv) <==> b.t->Object_0@.contains(kv),
    ensures
        jt_eq(a, b),
{
    let o1 = a.t->Object_0@;
    let o2 = b.t->Object_0@;
    assert forall|k: int| 0 <= k < o1.len() implies o2.contains(#[trigger] o1[k]) by {
        assert(o1.contains(o1[k]));
    }
    assert forall|k: int| 0 <= k < o2.len() implies o1.contains(#[trigger] o2[k]) by {
        assert(o2.contains(o2[k]));
    }
    lemma_covers_left_from_same_pairs(o1, o2, o1.len() as int);
    lemma_covers_right_from_same_pairs(o1, o2, o2.len() as int);
}


impl JTypeParser for DefaultTypeParser {
    type JO = Vec<(String, DefaultJType)>;

    type JA = Vec<DefaultJType>;

    type JS = String;

    type JN = JNumber;

    type JB = bool;

    type JZ = ();

    type JT = DefaultJType;

    /// The object is the mapping the parsed pairs stand for, with no key
    /// repeated; which pair order it keeps is not part of the contract.
    open spec fn object_rel(
        &self,
        pairs: Seq<(String, DefaultJType)>,
        r: Vec<(String, DefaultJType)>,
    ) -> bool {
        keys_unique(r@) && as_map(r@) == as_map(pairs)
    }

    open spec fn array_rel(&self, elems: Seq<DefaultJType>, r: Vec<DefaultJType>) -> bool {
        r@ == elems
    }

    open spec fn string_rel(&self, content: Seq<char>, r: String) -> bool {
        r@ == content
    }

    /// A literal can be built when either the exact or the scientific
    /// conversion accepts it.
    open spec fn number_ok(&self, literal: Seq<char>) -> bool {
        decimal_exact_of(literal) is Some || decimal_sci_of(literal) is Some
    }

    /// The exact conversion is tried first; the scientific one is the
    /// fallback.
    open spec fn number_rel(&self, literal: Seq<char>, r: JNumber) -> bool {
        match decimal_exact_of(literal) {
            Some(ms) => r == (JNumber { mantissa: ms.0, scale: ms.1 }),
            None => match decimal_sci_of(literal) {
                Some(ms) => r == (JNumber { mantissa: ms.0, scale: ms.1 }),
                None => false,
            },
        }
    }

    open spec fn boolean_rel(&self, b: bool, r: bool) -> bool {
        r == b
    }

    open spec fn null_rel(&self, r: ()) -> bool {
        true
    }

    open spec fn value_rel(
        &self,
        shape: JType<Vec<(String, DefaultJType)>, Vec<DefaultJType>, String, JNumber, bool, ()>,
        r: DefaultJType,
    ) -> bool {
        r.t == shape
    }

    /// Fold the parsed pairs into a mapping: a later pair with a key
    /// already present replaces that key's value.
    fn get_object(&self, obj: Vec<(String, DefaultJType)>) -> (r: Vec<(String, DefaultJType)>) {
        let ghost orig = obj@;
        let mut rest = obj;
        let mut out: Vec<(String, DefaultJType)> = Vec::new();
        let ghost mut i: int = 0;
        proof {
            assert(rest@ =~= orig.skip(0));
            assert(orig.take(0) =~= Seq::<(String, DefaultJType)>::empty());
        }
        while rest.len() > 0
            invariant
                0 <= i <= orig.len(),
                rest@ == orig.skip(i),
                keys_unique(out@),
                as_map(out@) == as_map(orig.take(i)),
            decreases rest@.len(),
        {
            let kv = rest.remove(0);
            proof {
                assert(kv == orig[i]);
                assert(rest@ =~= orig.skip(i + 1));
            }
            let ghost before = out@;
            match find_key(&out, &kv.0) {
                Some(j) => {
                    proof {
                        lemma_as_map_update(before, j as int, kv.0, kv.1);
                    }
                    out.set(j, kv);
                },
                None => {
                    out.push(kv);
                    proof {
                        assert(out@.drop_last() =~= before);
                    }
                },
            }
            proof {
                assert(orig.take(i + 1).drop_last() =~= orig.take(i));
                assert(orig.take(i + 1).last() == orig[i]);
                assert(as_map(out@) == as_map(orig.take(i + 1)));
                i = i + 1;
            }
        }
        proof {
            assert(orig.take(orig.len() as int) =~= orig);
        }
        out
    }

    fn get_array(&self, arr: Vec<DefaultJType>) -> (r: Vec<DefaultJType>) {
        arr
    }

    fn get_string(&self, s: &str) -> (r: String) {
        s.to_owned()
    }

    /// The exact-literal conversion first, the scientific-notation one
    /// as fallback; a literal neither accepts cannot be represented and
    /// aborts the parse.
    fn get_number(&self, num: &str) -> (r: Option<JNumber>) {
        match decimal_from_str_exact(num) {
            Some(n) => Some(n),
            None => match decimal_from_scientific(num) {
                Some(n) => Some(n),
                None => None,
            },
        }
    }

    fn get_boolean(&self, boo: bool) -> (r: bool) {
        boo
    }

    fn get_null(&self) -> (r: ()) {
    }

    fn get_jtype(
        &self,
        jt: JType<Vec<(String, DefaultJType)>, Vec<DefaultJType>, String, JNumber, bool, ()>,
    ) -> (r: DefaultJType) {
        DefaultJType { t: jt }
    }
}

impl Parser for DefaultTypeParser {

}

} // verus!

use vstd::prelude::*;
use crate::jtype::JType;

verus! {

/// The builder capability: a consumer of the grammar chooses one
/// representation type per value kind, plus a unified value type, and
/// supplies the seven construction operations that turn raw parsed
/// fragments into those representations.
///
/// Each construction operation is specified by a relation declared here
/// and given meaning by the implementer, so the grammar engine's
/// contracts speak of every builder uniformly without inspecting any
/// payload.
pub trait JTypeParser: Sized {
    /// Representation of an object.
    type JO;

    /// Representation of an array.
    type JA;

    /// Representation of a string.
    type JS;

    /// Representation of a number.
    type JN;

    /// Representation of a boolean.
    type JB;

    /// Representation of null.
    type JZ;

    /// The unified value type the parser ultimately returns.
    type JT;

    /// What the object representation built from these key/value pairs is.
    spec fn object_rel(&self, pairs: Seq<(Self::JS, Self::JT)>, r: Self::JO) -> bool;

    /// What the array representation built from these elements is.
    spec fn array_rel(&self, elems: Seq<Self::JT>, r: Self::JA) -> bool;

    /// What the string representation built from this raw content is.
    spec fn string_rel(&self, content: Seq<char>, r: Self::JS) -> bool;

    /// Whether a number representation can be constructed from this raw
    /// numeric literal at all; when it cannot, the whole parse aborts.
    spec fn number_ok(&self, literal: Seq<char>) -> bool;

    /// What the number representation built from this raw literal is.
    spec fn number_rel(&self, literal: Seq<char>, r: Self::JN) -> bool;

    /// What the boolean representation built from this primitive is.
    spec fn boolean_rel(&self, b: bool, r: Self::JB) -> bool;

    /// What the null representation is.
    spec fn null_rel(&self, r: Self::JZ) -> bool;

    /// What the unified value wrapping this fully built shape is.
    spec fn value_rel(
        &self,
        shape: JType<Self::JO, Self::JA, Self::JS, Self::JN, Self::JB, Self::JZ>,
        r: Self::JT,
    ) -> bool;

    fn get_object(&self, obj: Vec<(Self::JS, Self::JT)>) -> (r: Self::JO)
        ensures
            self.object_rel(obj@, r),
    ;

    fn get_array(&self, arr: Vec<Self::JT>) -> (r: Self::JA)
        ensures
            self.array_rel(arr@, r),
    ;

    fn get_string(&self, s: &str) -> (r: Self::JS)
        ensures
            self.string_rel(s@, r),
    ;

    /// Turn a raw numeric literal into a number representation.
    /// `None` reports a construction failure, the fatal condition that
    /// aborts a parse; it must come exactly on the literals that no
    /// representation exists for.
    fn get_number(&self, num: &str) -> (r: Option<Self::JN>)
        ensures
            match r {
                Some(n) => self.number_ok(num@) && self.number_rel(num@, n),
                None => !self.number_ok(num@),
            },
    ;

    fn get_boolean(&self, boo: bool) -> (r: Self::JB)
        ensures
            self.boolean_rel(boo, r),
    ;

    fn get_null(&self) -> (r: Self::JZ)
        ensures
            self.null_rel(r),
    ;

    fn get_jtype(
        &self,
        jt: JType<Self::JO, Self::JA, Self::JS, Self::JN, Self::JB, Self::JZ>,
    ) -> (r: Self::JT)
        ensures
            self.value_rel(jt, r),
    ;
}

} // verus!

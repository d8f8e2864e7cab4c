//! Values that name ACL resources and trustees in the grant registry: each has
//! a mathematical model, an executable equality and a strict total order on
//! the models (the order `Ord` gives the original types).

use vstd::prelude::*;

use crate::text::chars_of;

verus! {

/// Lexicographic order on integer sequences: a proper prefix comes first,
/// otherwise the first differing element decides.
pub open spec fn lex_lt(a: Seq<int>, b: Seq<int>) -> bool
    decreases a.len(),
{
    if b.len() == 0 {
        false
    } else if a.len() == 0 {
        true
    } else if a[0] != b[0] {
        a[0] < b[0]
    } else {
        lex_lt(a.drop_first(), b.drop_first())
    }
}

/// `lex_lt` is a strict total order.
pub proof fn lemma_lex_order(a: Seq<int>, b: Seq<int>, c: Seq<int>)
    ensures
        !lex_lt(a, a),
        lex_lt(a, b) && lex_lt(b, c) ==> lex_lt(a, c),
        a != b ==> lex_lt(a, b) || lex_lt(b, a),
    decreases a.len(),
{
    if a.len() > 0 {
        lemma_lex_order(a.drop_first(), b.drop_first(), c.drop_first());
        if b.len() > 0 && a[0] == b[0] && a != b {
            assert(a =~= seq![a[0]] + a.drop_first());
            assert(b =~= seq![b[0]] + b.drop_first());
        }
    } else {
        if b.len() == 0 {
            assert(a =~= b);
        }
    }
}

/// Code points of a character sequence.
pub open spec fn char_codes(s: Seq<char>) -> Seq<int> {
    s.map_values(|c: char| c as int)
}

/// Values of a byte sequence.
pub open spec fn byte_codes(s: Seq<u8>) -> Seq<int> {
    s.map_values(|b: u8| b as int)
}

proof fn lemma_char_codes_injective(a: Seq<char>, b: Seq<char>)
    ensures
        char_codes(a) == char_codes(b) ==> a == b,
{
    if char_codes(a) == char_codes(b) {
        assert(a.len() == char_codes(a).len());
        assert forall|i: int| 0 <= i < a.len() implies a[i] == b[i] by {
            assert(char_codes(a)[i] == char_codes(b)[i]);
        }
        assert(a =~= b);
    }
}

proof fn lemma_byte_codes_injective(a: Seq<u8>, b: Seq<u8>)
    ensures
        byte_codes(a) == byte_codes(b) ==> a == b,
{
    if byte_codes(a) == byte_codes(b) {
        assert(a.len() == byte_codes(a).len());
        assert forall|i: int| 0 <= i < a.len() implies a[i] == b[i] by {
            assert(byte_codes(a)[i] == byte_codes(b)[i]);
        }
        assert(a =~= b);
    }
}

/// Whether two character sequences are equal.
pub(crate) fn chars_same(a: &Vec<char>, b: &Vec<char>) -> (r: bool)
    ensures
        r == (a@ == b@),
{
    if a.len() != b.len() {
        return false;
    }
    let mut i: usize = 0;
    while i < a.len()
        invariant
            i <= a.len(),
            a.len() == b.len(),
            a@.take(i as int) == b@.take(i as int),
        decreases a.len() - i,
    {
        if a[i] != b[i] {
            assert(a@.take(i + 1)[i as int] != b@.take(i + 1)[i as int]);
            return false;
        }
        assert(a@.take(i + 1) =~= a@.take(i as int).push(a@[i as int]));
        assert(b@.take(i + 1) =~= b@.take(i as int).push(b@[i as int]));
        i = i + 1;
    }
    assert(a@ =~= a@.take(a.len() as int));
    assert(b@ =~= b@.take(b.len() as int));
    true
}

/// `lex_lt` on sequences that agree up to `i` is decided by what follows.
proof fn lemma_lex_skip(a: Seq<int>, b: Seq<int>, i: int)
    requires
        0 <= i <= a.len(),
        i <= b.len(),
        a.take(i) == b.take(i),
    ensures
        lex_lt(a, b) == lex_lt(a.skip(i), b.skip(i)),
    decreases i,
{
    if i > 0 {
        assert(a[0] == a.take(i)[0]);
        assert(b[0] == b.take(i)[0]);
        assert(a.drop_first().take(i - 1) =~= a.take(i).drop_first());
        assert(b.drop_first().take(i - 1) =~= b.take(i).drop_first());
        lemma_lex_skip(a.drop_first(), b.drop_first(), i - 1);
        assert(a.drop_first().skip(i - 1) =~= a.skip(i));
        assert(b.drop_first().skip(i - 1) =~= b.skip(i));
    } else {
        assert(a.skip(0) =~= a);
        assert(b.skip(0) =~= b);
    }
}

/// Whether `a` comes before `b` in the order of their code points.
pub(crate) fn chars_before(a: &Vec<char>, b: &Vec<char>) -> (r: bool)
    ensures
        r == lex_lt(char_codes(a@), char_codes(b@)),
{
    let ghost ca = char_codes(a@);
    let ghost cb = char_codes(b@);
    let mut i: usize = 0;
    while i < a.len() && i < b.len()
        invariant
            i <= a.len(),
            i <= b.len(),
            ca == char_codes(a@),
            cb == char_codes(b@),
            ca.take(i as int) == cb.take(i as int),
        decreases a.len() - i,
    {
        if a[i] != b[i] {
            proof {
                lemma_lex_skip(ca, cb, i as int);
                assert(ca.skip(i as int)[0] == a@[i as int] as int);
                assert(cb.skip(i as int)[0] == b@[i as int] as int);
            }
            return a[i] < b[i];
        }
        assert(ca.take(i + 1) =~= ca.take(i as int).push(ca[i as int]));
        assert(cb.take(i + 1) =~= cb.take(i as int).push(cb[i as int]));
        i = i + 1;
    }
    proof {
        lemma_lex_skip(ca, cb, i as int);
    }
    i == a.len() && i < b.len()
}

/// Whether `a` comes before `b` byte by byte.
fn bytes_before(a: &Vec<u8>, b: &Vec<u8>) -> (r: bool)
    ensures
        r == lex_lt(byte_codes(a@), byte_codes(b@)),
{
    let ghost ca = byte_codes(a@);
    let ghost cb = byte_codes(b@);
    let mut i: usize = 0;
    while i < a.len() && i < b.len()
        invariant
            i <= a.len(),
            i <= b.len(),
            ca == byte_codes(a@),
            cb == byte_codes(b@),
            ca.take(i as int) == cb.take(i as int),
        decreases a.len() - i,
    {
        if a[i] != b[i] {
            proof {
                lemma_lex_skip(ca, cb, i as int);
            }
            return a[i] < b[i];
        }
        assert(ca.take(i + 1) =~= ca.take(i as int).push(ca[i as int]));
        assert(cb.take(i + 1) =~= cb.take(i as int).push(cb[i as int]));
        i = i + 1;
    }
    proof {
        lemma_lex_skip(ca, cb, i as int);
    }
    i == a.len() && i < b.len()
}

/// Whether two byte sequences are equal.
fn bytes_same(a: &Vec<u8>, b: &Vec<u8>) -> (r: bool)
    ensures
        r == (a@ == b@),
{
    if a.len() != b.len() {
        return false;
    }
    let mut i: usize = 0;
    while i < a.len()
        invariant
            i <= a.len(),
            a.len() == b.len(),
            a@.take(i as int) == b@.take(i as int),
        decreases a.len() - i,
    {
        if a[i] != b[i] {
            assert(a@.take(i + 1)[i as int] != b@.take(i + 1)[i as int]);
            return false;
        }
        assert(a@.take(i + 1) =~= a@.take(i as int).push(a@[i as int]));
        assert(b@.take(i + 1) =~= b@.take(i as int).push(b@[i as int]));
        i = i + 1;
    }
    assert(a@ =~= a@.take(a.len() as int));
    assert(b@ =~= b@.take(b.len() as int));
    true
}

/// A value that names a resource or a trustee in the ACL grant registry.
pub trait RegistryToken: Sized {
    type Model;

    /// The value as mathematics.
    spec fn model(&self) -> Self::Model;

    /// The order of models, as `Ord` orders the values.
    spec fn model_lt(a: Self::Model, b: Self::Model) -> bool;

    /// `model_lt` is a strict total order.
    proof fn lemma_model_order(a: Self::Model, b: Self::Model, c: Self::Model)
        ensures
            !Self::model_lt(a, a),
            Self::model_lt(a, b) && Self::model_lt(b, c) ==> Self::model_lt(a, c),
            a != b ==> Self::model_lt(a, b) || Self::model_lt(b, a),
    ;

    fn same(&self, other: &Self) -> (r: bool)
        ensures
            r == (self.model() == other.model()),
    ;

    fn before(&self, other: &Self) -> (r: bool)
        ensures
            r == Self::model_lt(self.model(), other.model()),
    ;

    fn duplicate(&self) -> (r: Self)
        ensures
            r.model() == self.model(),
    ;
}

impl<'a> RegistryToken for &'a str {
    type Model = Seq<char>;

    open spec fn model(&self) -> Seq<char> {
        (*self)@
    }

    open spec fn model_lt(a: Seq<char>, b: Seq<char>) -> bool {
        lex_lt(char_codes(a), char_codes(b))
    }

    proof fn lemma_model_order(a: Seq<char>, b: Seq<char>, c: Seq<char>) {
        lemma_lex_order(char_codes(a), char_codes(b), char_codes(c));
        lemma_char_codes_injective(a, b);
    }

    fn same(&self, other: &Self) -> (r: bool) {
        chars_same(&chars_of(*self), &chars_of(*other))
    }

    fn before(&self, other: &Self) -> (r: bool) {
        chars_before(&chars_of(*self), &chars_of(*other))
    }

    fn duplicate(&self) -> (r: Self) {
        *self
    }
}

impl RegistryToken for String {
    type Model = Seq<char>;

    open spec fn model(&self) -> Seq<char> {
        self@
    }

    open spec fn model_lt(a: Seq<char>, b: Seq<char>) -> bool {
        lex_lt(char_codes(a), char_codes(b))
    }

    proof fn lemma_model_order(a: Seq<char>, b: Seq<char>, c: Seq<char>) {
        lemma_lex_order(char_codes(a), char_codes(b), char_codes(c));
        lemma_char_codes_injective(a, b);
    }

    fn same(&self, other: &Self) -> (r: bool) {
        chars_same(&chars_of(self.as_str()), &chars_of(other.as_str()))
    }

    fn before(&self, other: &Self) -> (r: bool) {
        chars_before(&chars_of(self.as_str()), &chars_of(other.as_str()))
    }

    fn duplicate(&self) -> (r: Self) {
        String::from_str(self.as_str())
    }
}

impl RegistryToken for Vec<u8> {
    type Model = Seq<u8>;

    open spec fn model(&self) -> Seq<u8> {
        self@
    }

    open spec fn model_lt(a: Seq<u8>, b: Seq<u8>) -> bool {
        lex_lt(byte_codes(a), byte_codes(b))
    }

    proof fn lemma_model_order(a: Seq<u8>, b: Seq<u8>, c: Seq<u8>) {
        lemma_lex_order(byte_codes(a), byte_codes(b), byte_codes(c));
        lemma_byte_codes_injective(a, b);
    }

    fn same(&self, other: &Self) -> (r: bool) {
        bytes_same(self, other)
    }

    fn before(&self, other: &Self) -> (r: bool) {
        bytes_before(self, other)
    }

    fn duplicate(&self) -> (r: Self) {
        let mut out: Vec<u8> = Vec::new();
        let mut i: usize = 0;
        while i < self.len()
            invariant
                i <= self.len(),
                out@ == self@.take(i as int),
            decreases self.len() - i,
        {
            out.push(self[i]);
            i = i + 1;
        }
        assert(out@ =~= self@);
        out
    }
}

impl RegistryToken for u32 {
    type Model = u32;

    open spec fn model(&self) -> u32 {
        *self
    }

    open spec fn model_lt(a: u32, b: u32) -> bool {
        a < b
    }

    proof fn lemma_model_order(a: u32, b: u32, c: u32) {
    }

    fn same(&self, other: &Self) -> (r: bool) {
        *self == *other
    }

    fn before(&self, other: &Self) -> (r: bool) {
        *self < *other
    }

    fn duplicate(&self) -> (r: Self) {
        *self
    }
}

impl<A: RegistryToken, B: RegistryToken> RegistryToken for (A, B) {
    type Model = (A::Model, B::Model);

    open spec fn model(&self) -> (A::Model, B::Model) {
        (self.0.model(), self.1.model())
    }

    open spec fn model_lt(a: (A::Model, B::Model), b: (A::Model, B::Model)) -> bool {
        A::model_lt(a.0, b.0) || (a.0 == b.0 && B::model_lt(a.1, b.1))
    }

    proof fn lemma_model_order(
        a: (A::Model, B::Model),
        b: (A::Model, B::Model),
        c: (A::Model, B::Model),
    ) {
        A::lemma_model_order(a.0, b.0, c.0);
        A::lemma_model_order(a.0, a.0, a.0);
        A::lemma_model_order(b.0, a.0, c.0);
        B::lemma_model_order(a.1, b.1, c.1);
    }

    fn same(&self, other: &Self) -> (r: bool) {
        self.0.same(&other.0) && self.1.same(&other.1)
    }

    fn before(&self, other: &Self) -> (r: bool) {
        self.0.before(&other.0) || (self.0.same(&other.0) && self.1.before(&other.1))
    }

    fn duplicate(&self) -> (r: Self) {
        (self.0.duplicate(), self.1.duplicate())
    }
}

} // verus!

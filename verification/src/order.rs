//! Lexicographic order on sequences, and the three-way result of a
//! comparison.

use vstd::prelude::*;
use vstd::utf8::*;

verus! {

/// How the left operand of a comparison stands to the right one.
#[derive(Clone, Copy, Debug, PartialEq, Eq, Structural)]
pub enum Comparison {
    Less,
    Equal,
    Greater,
}

/// `a` and `b` agree on their first `k` items and `a` comes first at
/// position `k`: either `a` ends there and `b` goes on, or `a` holds the
/// smaller item.
pub open spec fn lex_lt_at<T>(a: Seq<T>, b: Seq<T>, lt: spec_fn(T, T) -> bool, k: int) -> bool {
    &&& 0 <= k <= a.len()
    &&& k <= b.len()
    &&& a.take(k) == b.take(k)
    &&& k < b.len()
    &&& k < a.len() ==> lt(a[k], b[k])
}

/// Strict lexicographic order on sequences whose items are ordered by `lt`.
pub open spec fn lex_lt<T>(a: Seq<T>, b: Seq<T>, lt: spec_fn(T, T) -> bool) -> bool {
    exists|k: int| #[trigger] lex_lt_at(a, b, lt, k)
}

/// No item comes before itself.
pub open spec fn irreflexive<T>(lt: spec_fn(T, T) -> bool) -> bool {
    forall|x: T| !#[trigger] lt(x, x)
}

/// What comes before an item comes before all that the item comes before.
pub open spec fn transitive<T>(lt: spec_fn(T, T) -> bool) -> bool {
    forall|x: T, y: T, z: T| #[trigger] lt(x, y) && #[trigger] lt(y, z) ==> lt(x, z)
}

/// A sequence in which every item comes before all later ones.
pub open spec fn strictly_increasing<T>(s: Seq<T>, lt: spec_fn(T, T) -> bool) -> bool {
    forall|i: int, j: int| 0 <= i < j < s.len() ==> #[trigger] lt(s[i], s[j])
}

/// What is left of a strictly increasing sequence without its last item is
/// strictly increasing.
pub proof fn lemma_strictly_increasing_drop_last<T>(s: Seq<T>, lt: spec_fn(T, T) -> bool)
    requires
        strictly_increasing(s, lt),
        s.len() > 0,
    ensures
        strictly_increasing(s.drop_last(), lt),
{
    let rest = s.drop_last();
    assert forall|i: int, j: int| 0 <= i < j < rest.len() implies #[trigger] lt(
        rest[i],
        rest[j],
    ) by {
        assert(lt(s[i], s[j]));
    }
}

/// The lexicographic order is irreflexive where the order on items is.
pub proof fn lemma_lex_lt_irreflexive<T>(a: Seq<T>, lt: spec_fn(T, T) -> bool)
    requires
        irreflexive(lt),
    ensures
        !lex_lt(a, a, lt),
{
    assert forall|k: int| !#[trigger] lex_lt_at(a, a, lt, k) by {
        if 0 <= k < a.len() {
            assert(!lt(a[k], a[k]));
        }
    }
}

/// The lexicographic order is transitive where the order on items is.
pub proof fn lemma_lex_lt_transitive<T>(a: Seq<T>, b: Seq<T>, c: Seq<T>, lt: spec_fn(T, T) -> bool)
    requires
        transitive(lt),
        lex_lt(a, b, lt),
        lex_lt(b, c, lt),
    ensures
        lex_lt(a, c, lt),
{
    let k1 = choose|k: int| #[trigger] lex_lt_at(a, b, lt, k);
    let k2 = choose|k: int| #[trigger] lex_lt_at(b, c, lt, k);
    let k = if k1 <= k2 { k1 } else { k2 };
    assert(a.take(k) =~= c.take(k)) by {
        assert forall|i: int| 0 <= i < k implies a[i] == c[i] by {
            assert(a.take(k1)[i] == b.take(k1)[i]);
            assert(b.take(k2)[i] == c.take(k2)[i]);
        }
    }
    if k1 < k2 {
        assert(b.take(k2)[k1] == c.take(k2)[k1]);
    } else if k2 < k1 {
        assert(a.take(k1)[k2] == b.take(k1)[k2]);
    } else {
        if k < a.len() {
            assert(lt(a[k], b[k]) && lt(b[k], c[k]));
        }
    }
    assert(lex_lt_at(a, c, lt, k));
}

/// Of two different sequences one comes before the other, where of two
/// different items one comes before the other.
pub proof fn lemma_lex_lt_total<T>(a: Seq<T>, b: Seq<T>, lt: spec_fn(T, T) -> bool)
    requires
        forall|x: T, y: T| x != y ==> #[trigger] lt(x, y) || lt(y, x),
        a != b,
    ensures
        lex_lt(a, b, lt) || lex_lt(b, a, lt),
{
    let k = first_difference(a, b, 0);
    assert(a.take(0) =~= b.take(0));
    lemma_first_difference(a, b, 0);
    if k < a.len() && k < b.len() {
        if lt(a[k], b[k]) {
            assert(lex_lt_at(a, b, lt, k));
        } else {
            assert(lt(b[k], a[k]));
            assert(b.take(k) == a.take(k));
            assert(lex_lt_at(b, a, lt, k));
        }
    } else if k < b.len() {
        assert(lex_lt_at(a, b, lt, k));
    } else if k < a.len() {
        assert(b.take(k) == a.take(k));
        assert(lex_lt_at(b, a, lt, k));
    } else {
        assert(a =~= a.take(k));
        assert(b =~= b.take(k));
    }
}

/// The first position at or after `from` where `a` and `b` differ or one of
/// them ends.
pub open spec fn first_difference<T>(a: Seq<T>, b: Seq<T>, from: int) -> int
    decreases a.len() - from,
{
    if 0 <= from < a.len() && from < b.len() && a[from] == b[from] {
        first_difference(a, b, from + 1)
    } else {
        from
    }
}

proof fn lemma_first_difference<T>(a: Seq<T>, b: Seq<T>, from: int)
    requires
        0 <= from <= a.len(),
        from <= b.len(),
        a.take(from) == b.take(from),
    ensures
        from <= first_difference(a, b, from) <= a.len(),
        first_difference(a, b, from) <= b.len(),
        a.take(first_difference(a, b, from)) == b.take(first_difference(a, b, from)),
        first_difference(a, b, from) < a.len() && first_difference(a, b, from) < b.len()
            ==> a[first_difference(a, b, from)] != b[first_difference(a, b, from)],
    decreases a.len() - from,
{
    if from < a.len() && from < b.len() && a[from] == b[from] {
        assert(a.take(from + 1) =~= a.take(from).push(a[from]));
        assert(b.take(from + 1) =~= b.take(from).push(b[from]));
        lemma_first_difference(a, b, from + 1);
    }
}

/// The order on bytes by their value.
pub open spec fn byte_lt() -> spec_fn(u8, u8) -> bool {
    |x: u8, y: u8| x < y
}

/// The order on strings: lexicographic by the bytes of their UTF-8 form.
pub open spec fn text_lt(a: Seq<char>, b: Seq<char>) -> bool {
    lex_lt(encode_utf8(a), encode_utf8(b), byte_lt())
}

/// No string comes before itself.
pub proof fn lemma_text_lt_irreflexive(a: Seq<char>)
    ensures
        !text_lt(a, a),
{
    lemma_lex_lt_irreflexive(encode_utf8(a), byte_lt());
}

/// The order on strings is transitive.
pub proof fn lemma_text_lt_transitive(a: Seq<char>, b: Seq<char>, c: Seq<char>)
    requires
        text_lt(a, b),
        text_lt(b, c),
    ensures
        text_lt(a, c),
{
    lemma_lex_lt_transitive(encode_utf8(a), encode_utf8(b), encode_utf8(c), byte_lt());
}

/// Of two different strings one comes before the other.
pub proof fn lemma_text_lt_total(a: Seq<char>, b: Seq<char>)
    requires
        a != b,
    ensures
        text_lt(a, b) || text_lt(b, a),
{
    lemma_utf8_injective(a, b);
    lemma_lex_lt_total(encode_utf8(a), encode_utf8(b), byte_lt());
}

/// Strings with the same UTF-8 bytes are the same string.
pub proof fn lemma_utf8_injective(a: Seq<char>, b: Seq<char>)
    ensures
        encode_utf8(a) == encode_utf8(b) ==> a == b,
{
    encode_utf8_decode_utf8(a);
    encode_utf8_decode_utf8(b);
}

/// Compares two strings as Rust orders them, byte by byte.
pub fn compare_text(a: &str, b: &str) -> (c: Comparison)
    ensures
        match c {
            Comparison::Less => text_lt(a@, b@),
            Comparison::Equal => a@ == b@,
            Comparison::Greater => text_lt(b@, a@),
        },
{
    let x = a.as_bytes();
    let y = b.as_bytes();
    let mut i: usize = 0;
    while i < x.len() && i < y.len()
        invariant
            i <= x@.len(),
            i <= y@.len(),
            x@.take(i as int) == y@.take(i as int),
            x@ == encode_utf8(a@),
            y@ == encode_utf8(b@),
        decreases x@.len() - i,
    {
        if x[i] < y[i] {
            assert(lex_lt_at(x@, y@, byte_lt(), i as int));
            return Comparison::Less;
        }
        if x[i] > y[i] {
            assert(lex_lt_at(y@, x@, byte_lt(), i as int));
            return Comparison::Greater;
        }
        i = i + 1;
    }
    if i < y.len() {
        assert(lex_lt_at(x@, y@, byte_lt(), i as int));
        Comparison::Less
    } else if i < x.len() {
        assert(lex_lt_at(y@, x@, byte_lt(), i as int));
        Comparison::Greater
    } else {
        proof {
            assert(x@ =~= x@.take(i as int));
            assert(y@ =~= y@.take(i as int));
            lemma_utf8_injective(a@, b@);
        }
        Comparison::Equal
    }
}

/// Whether two strings hold the same text.
pub fn text_equal(a: &str, b: &str) -> (equal: bool)
    ensures
        equal == (a@ == b@),
{
    proof {
        lemma_text_lt_irreflexive(a@);
    }
    match compare_text(a, b) {
        Comparison::Equal => true,
        _ => false,
    }
}

} // verus!

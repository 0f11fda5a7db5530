//! The order in which byte strings and texts are compared.
use vstd::prelude::*;
use vstd::utf8::*;

verus! {

/// Lexicographic order: `a` comes strictly before `b`.
pub open spec fn bytes_less(a: Seq<u8>, b: Seq<u8>) -> bool
    decreases b.len(),
{
    b.len() > 0 && (a.len() == 0 || a[0] < b[0] || (a[0] == b[0] && bytes_less(
        a.drop_first(),
        b.drop_first(),
    )))
}

/// Texts are ordered by their UTF-8 encodings.
pub open spec fn text_less(a: Seq<char>, b: Seq<char>) -> bool {
    bytes_less(encode_utf8(a), encode_utf8(b))
}

/// No byte string comes before itself.
pub proof fn bytes_less_irreflexive(a: Seq<u8>)
    ensures
        !bytes_less(a, a),
    decreases a.len(),
{
    if a.len() > 0 {
        bytes_less_irreflexive(a.drop_first());
    }
}

/// The order of byte strings is transitive.
pub proof fn bytes_less_transitive(a: Seq<u8>, b: Seq<u8>, c: Seq<u8>)
    requires
        bytes_less(a, b),
        bytes_less(b, c),
    ensures
        bytes_less(a, c),
    decreases a.len(),
{
    if a.len() > 0 && a[0] == b[0] && b[0] == c[0] {
        bytes_less_transitive(a.drop_first(), b.drop_first(), c.drop_first());
    }
}

/// Two different byte strings always come one before the other.
pub proof fn bytes_less_total(a: Seq<u8>, b: Seq<u8>)
    ensures
        bytes_less(a, b) || bytes_less(b, a) || a == b,
    decreases a.len(),
{
    if a.len() == 0 {
        assert(b.len() == 0 ==> a =~= b);
    } else if b.len() > 0 && a[0] == b[0] {
        bytes_less_total(a.drop_first(), b.drop_first());
        if a.drop_first() == b.drop_first() {
            assert(a =~= seq![a[0]] + a.drop_first());
            assert(b =~= seq![b[0]] + b.drop_first());
        }
    }
}

/// Of two equally long byte strings that each get one more byte, the first difference decides.
pub proof fn bytes_less_push(a: Seq<u8>, b: Seq<u8>, x: u8, y: u8)
    requires
        a.len() == b.len(),
    ensures
        bytes_less(a.push(x), b.push(y)) <==> bytes_less(a, b) || (a == b && x < y),
    decreases a.len(),
{
    let (p, q) = (a.push(x), b.push(y));
    if a.len() == 0 {
        assert(a =~= b);
        assert(!bytes_less(p.drop_first(), q.drop_first()));
        assert(p[0] == x && q[0] == y);
    } else {
        bytes_less_push(a.drop_first(), b.drop_first(), x, y);
        assert(p[0] == a[0] && q[0] == b[0]);
        assert(p.drop_first() =~= a.drop_first().push(x));
        assert(q.drop_first() =~= b.drop_first().push(y));
        assert(a[0] == b[0] && a.drop_first() == b.drop_first() ==> a == b) by {
            assert(a =~= seq![a[0]] + a.drop_first());
            assert(b =~= seq![b[0]] + b.drop_first());
        }
    }
}

/// A common beginning does not count.
pub proof fn bytes_less_common(prefix: Seq<u8>, a: Seq<u8>, b: Seq<u8>)
    ensures
        bytes_less(prefix + a, prefix + b) <==> bytes_less(a, b),
    decreases prefix.len(),
{
    if prefix.len() == 0 {
        assert(prefix + a =~= a);
        assert(prefix + b =~= b);
    } else {
        let rest = prefix.drop_first();
        bytes_less_common(rest, a, b);
        assert((prefix + a).drop_first() =~= rest + a);
        assert((prefix + b).drop_first() =~= rest + b);
    }
}

/// Where equally long beginnings differ, they decide.
pub proof fn bytes_less_extend(a: Seq<u8>, b: Seq<u8>, x: Seq<u8>, y: Seq<u8>)
    requires
        a.len() == b.len(),
        bytes_less(a, b),
    ensures
        bytes_less(a + x, b + y),
    decreases a.len(),
{
    assert((a + x)[0] == a[0] && (b + y)[0] == b[0]);
    if a[0] == b[0] {
        bytes_less_extend(a.drop_first(), b.drop_first(), x, y);
        assert((a + x).drop_first() =~= a.drop_first() + x);
        assert((b + y).drop_first() =~= b.drop_first() + y);
    }
}

/// Whether `a` comes strictly before `b`.
pub fn bytes_before(a: &[u8], b: &[u8]) -> (before: bool)
    ensures
        before == bytes_less(a@, b@),
{
    let mut i: usize = 0;
    assert(a@.skip(0) =~= a@);
    assert(b@.skip(0) =~= b@);
    while i < a.len() && i < b.len() && a[i] == b[i]
        invariant
            i <= a@.len(),
            i <= b@.len(),
            bytes_less(a@, b@) == bytes_less(a@.skip(i as int), b@.skip(i as int)),
        decreases a@.len() - i,
    {
        proof {
            assert(a@.skip(i as int).drop_first() =~= a@.skip(i + 1));
            assert(b@.skip(i as int).drop_first() =~= b@.skip(i + 1));
        }
        i = i + 1;
    }
    i < b.len() && (i == a.len() || a[i] < b[i])
}

/// Whether two byte strings first differ at a place: before it they agree, and there the first
/// has ended or holds the smaller byte.
pub open spec fn comes_first_at(a: Seq<u8>, b: Seq<u8>, i: int) -> bool {
    &&& 0 <= i <= a.len()
    &&& i < b.len()
    &&& a.take(i) == b.take(i)
    &&& i == a.len() || a[i] < b[i]
}

/// The first difference decides: one byte string comes before another exactly where it holds the
/// smaller byte at the first place where they differ, or ends there.
pub proof fn first_difference_decides(a: Seq<u8>, b: Seq<u8>)
    ensures
        bytes_less(a, b) <==> exists|i: int| comes_first_at(a, b, i),
    decreases b.len(),
{
    if b.len() > 0 && a.len() > 0 {
        let (p, q) = (a.drop_first(), b.drop_first());
        first_difference_decides(p, q);
        if bytes_less(a, b) {
            if a[0] < b[0] {
                assert(a.take(0) =~= b.take(0));
                assert(comes_first_at(a, b, 0));
            } else {
                let i = choose|i: int| comes_first_at(p, q, i);
                assert(a.take(i + 1) =~= seq![a[0]] + p.take(i));
                assert(b.take(i + 1) =~= seq![b[0]] + q.take(i));
                assert(comes_first_at(a, b, i + 1));
            }
        }
        if exists|i: int| comes_first_at(a, b, i) {
            let i = choose|i: int| comes_first_at(a, b, i);
            if i > 0 {
                assert(a.take(i)[0] == b.take(i)[0]);
                assert(p.take(i - 1) =~= a.take(i).drop_first());
                assert(q.take(i - 1) =~= b.take(i).drop_first());
                assert(comes_first_at(p, q, i - 1));
            }
        }
    } else if b.len() > 0 {
        assert(a.take(0) =~= b.take(0));
        assert(comes_first_at(a, b, 0));
    }
}

/// Texts of ASCII characters are ordered by the first character in which they differ.
pub proof fn ascii_texts_are_ordered_by_character(a: Seq<char>, b: Seq<char>, i: int)
    requires
        is_ascii_chars(a),
        is_ascii_chars(b),
        0 <= i < a.len(),
        i < b.len(),
        a.take(i) == b.take(i),
        (a[i] as u32) < (b[i] as u32),
    ensures
        text_less(a, b),
        !text_less(b, a),
{
    let (x, y) = (encode_utf8(a), encode_utf8(b));
    is_ascii_chars_encode_utf8(a);
    is_ascii_chars_encode_utf8(b);
    assert forall|k: int| 0 <= k < i implies x[k] == y[k] by {
        assert(a.take(i)[k] == a[k]);
        assert(b.take(i)[k] == b[k]);
        assert(x[k] == a[k] as u8);
        assert(y[k] == b[k] as u8);
    }
    assert(x.take(i) =~= y.take(i));
    assert(x[i] == a[i] as u8);
    assert(y[i] == b[i] as u8);
    first_difference_decides(x, y);
    assert(comes_first_at(x, y, i));
    if bytes_less(y, x) {
        bytes_less_transitive(x, y, x);
        bytes_less_irreflexive(x);
    }
}

} // verus!

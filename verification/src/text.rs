//! Byte-level views of text: prefix tests and the lexicographic order that
//! Rust's `str` comparison uses.

use vstd::prelude::*;

verus! {

/// The UTF-8 bytes of a text.
pub open spec fn text_bytes(s: Seq<char>) -> Seq<u8> {
    vstd::utf8::encode_utf8(s)
}

/// Three-way comparison of two integers: -1, 0 or 1.
pub open spec fn int_order(a: int, b: int) -> int {
    if a < b { -1 } else if a > b { 1 } else { 0 }
}

/// Lexicographic three-way comparison of byte strings, a proper prefix
/// ordering before the longer string.
pub open spec fn lex_order(a: Seq<u8>, b: Seq<u8>) -> int
    decreases a.len(),
{
    if a.len() == 0 && b.len() == 0 {
        0
    } else if a.len() == 0 {
        -1
    } else if b.len() == 0 {
        1
    } else if a[0] < b[0] {
        -1
    } else if a[0] > b[0] {
        1
    } else {
        lex_order(a.drop_first(), b.drop_first())
    }
}

/// `lex_order` yields -1, 0 or 1, and swapping the arguments negates it.
pub proof fn lemma_lex_order_antisym(a: Seq<u8>, b: Seq<u8>)
    ensures
        lex_order(a, b) == -lex_order(b, a),
        -1 <= lex_order(a, b) <= 1,
    decreases a.len(),
{
    if a.len() > 0 && b.len() > 0 && a[0] == b[0] {
        lemma_lex_order_antisym(a.drop_first(), b.drop_first());
    }
}

/// `lex_order` is 0 exactly on equal strings.
pub proof fn lemma_lex_order_zero(a: Seq<u8>, b: Seq<u8>)
    ensures
        (lex_order(a, b) == 0) == (a == b),
    decreases a.len(),
{
    if a.len() > 0 && b.len() > 0 && a[0] == b[0] {
        lemma_lex_order_zero(a.drop_first(), b.drop_first());
        if a.drop_first() == b.drop_first() {
            assert(a =~= seq![a[0]] + a.drop_first());
            assert(b =~= seq![b[0]] + b.drop_first());
        }
    }
    if a.len() == 0 && b.len() == 0 {
        assert(a =~= b);
    }
    if a.len() > 0 && b.len() > 0 && a[0] != b[0] {
        assert(a != b);
    }
}

/// The order `lex_order(a, b) <= 0` is transitive.
pub proof fn lemma_lex_order_trans(a: Seq<u8>, b: Seq<u8>, c: Seq<u8>)
    requires
        lex_order(a, b) <= 0,
        lex_order(b, c) <= 0,
    ensures
        lex_order(a, c) <= 0,
    decreases a.len(),
{
    if a.len() > 0 && b.len() > 0 && c.len() > 0 && a[0] == b[0] && b[0] == c[0] {
        lemma_lex_order_trans(a.drop_first(), b.drop_first(), c.drop_first());
    }
}

/// Whether `name` begins with the bytes of `pattern` (`str::starts_with`).
pub fn starts_with(name: &str, pattern: &str) -> (r: bool)
    ensures
        r == text_bytes(pattern@).is_prefix_of(text_bytes(name@)),
{
    let n = name.as_bytes();
    let p = pattern.as_bytes();
    proof {
        assert(n@ == text_bytes(name@));
        assert(p@ == text_bytes(pattern@));
    }
    if p.len() > n.len() {
        return false;
    }
    let mut i: usize = 0;
    while i < p.len()
        invariant
            n@ == text_bytes(name@),
            p@ == text_bytes(pattern@),
            p.len() <= n.len(),
            i <= p.len(),
            forall|k: int| 0 <= k < i ==> p@[k] == n@[k],
        decreases p.len() - i,
    {
        if p[i] != n[i] {
            assert(n@.subrange(0, p@.len() as int)[i as int] == n@[i as int]);
            return false;
        }
        i += 1;
    }
    assert(p@ =~= n@.subrange(0, p@.len() as int));
    true
}

/// Whether two texts are equal.
pub fn text_eq(a: &str, b: &str) -> (r: bool)
    ensures
        r == (a@ == b@),
{
    let x = a.as_bytes();
    let y = b.as_bytes();
    proof {
        vstd::utf8::encode_utf8_decode_utf8(a@);
        vstd::utf8::encode_utf8_decode_utf8(b@);
    }
    assert(x@ == text_bytes(a@));
    assert(y@ == text_bytes(b@));
    if x.len() != y.len() {
        return false;
    }
    let mut i: usize = 0;
    while i < x.len()
        invariant
            x@ == text_bytes(a@),
            y@ == text_bytes(b@),
            x.len() == y.len(),
            i <= x.len(),
            forall|k: int| 0 <= k < i ==> x@[k] == y@[k],
        decreases x.len() - i,
    {
        if x[i] != y[i] {
            assert(x@ != y@);
            return false;
        }
        i += 1;
    }
    assert(x@ =~= y@);
    true
}

/// Compare two texts as Rust's `str` ordering does (bytewise
/// lexicographic): -1, 0 or 1.
pub fn text_order(a: &str, b: &str) -> (r: i8)
    ensures
        r as int == lex_order(text_bytes(a@), text_bytes(b@)),
{
    let x = a.as_bytes();
    let y = b.as_bytes();
    let ghost xs = x@;
    let ghost ys = y@;
    proof {
        assert(xs == text_bytes(a@));
        assert(ys == text_bytes(b@));
        assert(xs.skip(0) =~= xs);
        assert(ys.skip(0) =~= ys);
    }
    let mut i: usize = 0;
    while i < x.len() && i < y.len()
        invariant
            xs == text_bytes(a@),
            ys == text_bytes(b@),
            xs == x@,
            ys == y@,
            i <= x.len(),
            i <= y.len(),
            lex_order(xs, ys) == lex_order(xs.skip(i as int), ys.skip(i as int)),
        decreases x.len() - i,
    {
        assert(xs.skip(i as int).len() > 0);
        assert(ys.skip(i as int).len() > 0);
        assert(xs.skip(i as int)[0] == x@[i as int]);
        assert(ys.skip(i as int)[0] == y@[i as int]);
        if x[i] < y[i] {
            return -1;
        }
        if x[i] > y[i] {
            return 1;
        }
        assert(xs.skip(i as int).drop_first() =~= xs.skip(i + 1));
        assert(ys.skip(i as int).drop_first() =~= ys.skip(i + 1));
        i += 1;
    }
    assert(xs.skip(i as int).len() == xs.len() - i);
    assert(ys.skip(i as int).len() == ys.len() - i);
    if x.len() == y.len() {
        0
    } else if i == x.len() {
        -1
    } else {
        1
    }
}

} // verus!

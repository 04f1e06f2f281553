//! Cutting a sequence into pieces of one size.

use vstd::prelude::*;

verus! {

/// The complete pieces of `n` elements that `s` starts with, in order.
pub open spec fn pieces<T>(s: Seq<T>, n: nat) -> Seq<Seq<T>>
    decreases s.len(),
{
    if n == 0 || s.len() < n {
        Seq::empty()
    } else {
        seq![s.take(n as int)] + pieces(s.skip(n as int), n)
    }
}

/// What `s` holds after its complete pieces of `n` elements.
pub open spec fn remainder<T>(s: Seq<T>, n: nat) -> Seq<T>
    decreases s.len(),
{
    if n == 0 || s.len() < n {
        s
    } else {
        remainder(s.skip(n as int), n)
    }
}

/// Cutting loses nothing and changes no order: the pieces one after the other,
/// and then what remains, are the sequence that was cut. Every piece has the
/// size asked for, and what remains is shorter.
pub proof fn law_cutting_conserves<T>(s: Seq<T>, n: nat)
    requires
        n > 0,
    ensures
        pieces(s, n).flatten() + remainder(s, n) == s,
        forall|i: int| 0 <= i < pieces(s, n).len() ==> (#[trigger] pieces(s, n)[i]).len() == n,
        remainder(s, n).len() < n,
    decreases s.len(),
{
    if s.len() >= n {
        let head = s.take(n as int);
        let tail = s.skip(n as int);
        law_cutting_conserves(tail, n);
        assert(pieces(s, n).drop_first() == pieces(tail, n));
        assert(pieces(s, n).first() == head);
        assert(head + tail == s);
        assert forall|i: int| 0 <= i < pieces(s, n).len() implies (#[trigger] pieces(s, n)[i]).len()
            == n by {
            if i > 0 {
                assert(pieces(s, n)[i] == pieces(tail, n)[i - 1]);
            }
        }
    } else {
        assert(pieces(s, n).flatten() + s == s);
    }
}

/// Where the pieces lie: as many as fit, each behind the one before it, and what
/// remains behind the last.
pub proof fn law_pieces_lie_in_order<T>(s: Seq<T>, n: nat)
    requires
        n > 0,
    ensures
        pieces(s, n).len() == s.len() / n,
        forall|i: int|
            0 <= i < pieces(s, n).len() ==> #[trigger] pieces(s, n)[i] == s.subrange(
                n * i,
                n * i + n,
            ),
        n * (s.len() / n) <= s.len() < n * (s.len() / n) + n,
        remainder(s, n) == s.skip((n * (s.len() / n)) as int),
    decreases s.len(),
{
    lemma_remainder_follows_pieces(s, n);
    vstd::arithmetic::div_mod::lemma_fundamental_div_mod(s.len() as int, n as int);
    vstd::arithmetic::div_mod::lemma_mod_bound(s.len() as int, n as int);
    if s.len() >= n {
        let tail = s.skip(n as int);
        let size = n as int;
        let q = tail.len() as int / size;
        law_pieces_lie_in_order(tail, n);
        vstd::arithmetic::div_mod::lemma_fundamental_div_mod(tail.len() as int, size);
        assert(size * q + size == (q + 1) * size) by (nonlinear_arith);
        vstd::arithmetic::div_mod::lemma_fundamental_div_mod_converse(
            s.len() as int,
            size,
            q + 1,
            tail.len() as int % size,
        );
        assert forall|i: int| 0 <= i < pieces(s, n).len() implies #[trigger] pieces(s, n)[i]
            == s.subrange(n * i, n * i + n) by {
            if i > 0 {
                let j = i - 1;
                assert(pieces(s, n)[i] == pieces(tail, n)[j]);
                assert(size * i == size * j + size) by (nonlinear_arith)
                    requires
                        j == i - 1,
                ;
                assert(0 <= size * j && size * j + size <= tail.len()) by (nonlinear_arith)
                    requires
                        0 <= j,
                        j + 1 <= q,
                        size * q <= tail.len(),
                        size > 0,
                ;
                assert(tail.subrange(size * j, size * j + size) =~= s.subrange(
                    size * i,
                    size * i + size,
                ));
            } else {
                assert(n * 0 == 0) by (nonlinear_arith);
                assert(s.subrange(0, size) =~= s.take(size));
            }
        }
    } else {
        vstd::arithmetic::div_mod::lemma_basic_div(s.len() as int, n as int);
        assert(n * 0 == 0) by (nonlinear_arith);
    }
}

/// Cutting is incremental: the pieces of a sequence that arrives in two parts
/// are those of the first part, then those of what remained of it followed by
/// the second part.
pub proof fn law_cutting_is_incremental<T>(a: Seq<T>, b: Seq<T>, n: nat)
    ensures
        pieces(a + b, n) == pieces(a, n) + pieces(remainder(a, n) + b, n),
        remainder(a + b, n) == remainder(remainder(a, n) + b, n),
    decreases a.len(),
{
    if n > 0 && a.len() >= n {
        let tail = a.skip(n as int);
        law_cutting_is_incremental(tail, b, n);
        assert((a + b).take(n as int) == a.take(n as int));
        assert((a + b).skip(n as int) == tail + b);
        assert(pieces(a + b, n) == pieces(a, n) + pieces(remainder(a, n) + b, n));
    } else {
        assert(pieces(a, n) + pieces(a + b, n) == pieces(a + b, n));
    }
}

/// The remainder is what follows the pieces.
pub proof fn lemma_remainder_follows_pieces<T>(s: Seq<T>, n: nat)
    ensures
        n * pieces(s, n).len() <= s.len(),
        remainder(s, n) == s.skip((n * pieces(s, n).len()) as int),
    decreases s.len(),
{
    if n > 0 && s.len() >= n {
        let tail = s.skip(n as int);
        let count = pieces(tail, n).len();
        lemma_remainder_follows_pieces(tail, n);
        assert(pieces(s, n).len() == 1 + count);
        assert(n * (1 + count) == n + n * count) by (nonlinear_arith);
        assert(tail.skip((n * count) as int) == s.skip((n + n * count) as int));
    } else {
        assert(n * 0 == 0) by (nonlinear_arith);
        assert(s.skip(0) == s);
    }
}

} // verus!

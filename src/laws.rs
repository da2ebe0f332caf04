//! Properties of the lookahead buffer, stated over the model of `model`,
//! which the operations of `PeekableNth` follow exactly.
use vstd::prelude::*;
use crate::model::{back_step, drain_front, fill, fill_count, front_step, peek_at, pending, run, Op};

verus! {

/// Advancing from the front until nothing is left hands out exactly the
/// pending elements, in order.
pub proof fn lemma_drain_front<T>(buf: Seq<T>, rest: Seq<T>)
    ensures
        drain_front(buf, rest) == pending(buf, rest),
    decreases buf.len() + rest.len(),
{
    let (r, b, s) = front_step(buf, rest);
    if r is Some {
        lemma_drain_front(b, s);
        if buf.len() > 0 {
            assert(seq![buf[0]] + (buf.drop_first() + rest) =~= buf + rest);
        } else {
            assert(seq![rest[0]] + (buf + rest.drop_first()) =~= buf + rest);
        }
    } else {
        assert(buf + rest =~= Seq::<T>::empty());
    }
}

/// A peek never changes the pending elements, only where they are kept:
/// what it takes from the wrapped iterator's count it adds to the buffer's,
/// so their sum, the count `len_with` returns, stays as it was.
pub proof fn lemma_fill_keeps_pending<T>(buf: Seq<T>, rest: Seq<T>, n: int)
    ensures
        pending(fill(buf, rest, n).0, fill(buf, rest, n).1) == pending(buf, rest),
        fill(buf, rest, n).0.len() + fill(buf, rest, n).1.len() == buf.len() + rest.len(),
{
    let m = fill_count(buf, rest, n);
    assert(buf + rest.take(m) + rest.skip(m) =~= buf + rest);
}

/// Peeking `k` steps ahead into a fresh sequence `s` with `k` in range
/// returns the element at `k`, and draining afterwards still hands out `s`
/// whole and in order.
pub proof fn lemma_peek_then_drain<T>(s: Seq<T>, k: int)
    requires
        0 <= k < s.len(),
    ensures
        peek_at(Seq::empty(), s, k) == Some(s[k]),
        drain_front(fill(Seq::empty(), s, k).0, fill(Seq::empty(), s, k).1) == s,
{
    assert(Seq::<T>::empty() + s =~= s);
    lemma_fill_keeps_pending(Seq::<T>::empty(), s, k);
    lemma_drain_front(fill(Seq::empty(), s, k).0, fill(Seq::empty(), s, k).1);
}

/// Peeking twice at the same depth, with nothing in between, gives the same
/// element and leaves the same state as peeking once.
pub proof fn lemma_peek_idempotent<T>(buf: Seq<T>, rest: Seq<T>, k: int)
    ensures
        fill(fill(buf, rest, k).0, fill(buf, rest, k).1, k) == fill(buf, rest, k),
        peek_at(fill(buf, rest, k).0, fill(buf, rest, k).1, k) == peek_at(buf, rest, k),
{
    let m = fill_count(buf, rest, k);
    let (b, s) = fill(buf, rest, k);
    lemma_fill_keeps_pending(buf, rest, k);
    assert(fill_count(b, s, k) == 0);
    assert(b + s.take(0) =~= b);
    assert(s.skip(0) =~= s);
}

/// Peeking past the end of a fresh sequence `s` finds nothing, buffers all
/// of `s`, and draining afterwards still hands out `s` whole and in order.
pub proof fn lemma_peek_past_end<T>(s: Seq<T>, k: int)
    requires
        k >= s.len(),
    ensures
        peek_at(Seq::empty(), s, k) is None,
        fill(Seq::empty(), s, k) == (s, Seq::<T>::empty()),
        drain_front(fill(Seq::empty(), s, k).0, fill(Seq::empty(), s, k).1) == s,
{
    assert(Seq::<T>::empty() + s.take(s.len() as int) =~= s);
    assert(s.skip(s.len() as int) =~= Seq::<T>::empty());
    lemma_drain_front(s, Seq::<T>::empty());
    assert(s + Seq::<T>::empty() =~= s);
}

/// Under any mix of front advances, back advances and peeks, the elements
/// handed out from the front (in call order), the elements still pending,
/// and the elements handed out from the back (last call first) make up the
/// original pending elements exactly: each once, fronts in forward order,
/// backs in reverse order.
pub proof fn lemma_run_accounts<T>(ops: Seq<Op>, buf: Seq<T>, rest: Seq<T>)
    ensures
        ({
            let (f, k, b, s) = run(ops, buf, rest);
            f + pending(b, s) + k.reverse() == pending(buf, rest)
        }),
    decreases ops.len(),
{
    if ops.len() == 0 {
        let e = Seq::<T>::empty();
        assert(e + (buf + rest) + e.reverse() =~= buf + rest);
    } else {
        match ops[0] {
            Op::Front => {
                let (r, b, s) = front_step(buf, rest);
                lemma_run_accounts(ops.drop_first(), b, s);
                let (f, k, b2, s2) = run(ops.drop_first(), b, s);
                if buf.len() > 0 {
                    assert(seq![buf[0]] + f + pending(b2, s2) + k.reverse()
                        =~= seq![buf[0]] + (f + pending(b2, s2) + k.reverse()));
                    assert(seq![buf[0]] + (buf.drop_first() + rest) =~= buf + rest);
                } else if rest.len() > 0 {
                    assert(seq![rest[0]] + f + pending(b2, s2) + k.reverse()
                        =~= seq![rest[0]] + (f + pending(b2, s2) + k.reverse()));
                    assert(seq![rest[0]] + (buf + rest.drop_first()) =~= buf + rest);
                }
            },
            Op::Back => {
                let (r, b, s) = back_step(buf, rest);
                lemma_run_accounts(ops.drop_first(), b, s);
                let (f, k, b2, s2) = run(ops.drop_first(), b, s);
                if rest.len() > 0 {
                    assert((seq![rest.last()] + k).reverse() =~= k.reverse().push(rest.last()));
                    assert(f + pending(b2, s2) + (seq![rest.last()] + k).reverse()
                        =~= (f + pending(b2, s2) + k.reverse()).push(rest.last()));
                    assert((buf + rest.drop_last()).push(rest.last()) =~= buf + rest);
                } else if buf.len() > 0 {
                    assert((seq![buf.last()] + k).reverse() =~= k.reverse().push(buf.last()));
                    assert(f + pending(b2, s2) + (seq![buf.last()] + k).reverse()
                        =~= (f + pending(b2, s2) + k.reverse()).push(buf.last()));
                    assert((buf.drop_last() + rest).push(buf.last()) =~= buf + rest);
                }
            },
            Op::Peek(n) => {
                let (b, s) = fill(buf, rest, n as int);
                lemma_fill_keeps_pending(buf, rest, n as int);
                lemma_run_accounts(ops.drop_first(), b, s);
            },
        }
    }
}

/// The count of pending elements after any mix of operations is the
/// original count less the elements handed out; peeks alone hand out
/// nothing and leave it as it was.
pub proof fn lemma_run_count<T>(ops: Seq<Op>, buf: Seq<T>, rest: Seq<T>)
    ensures
        ({
            let (f, k, b, s) = run(ops, buf, rest);
            &&& pending(b, s).len() == pending(buf, rest).len() - f.len() - k.len()
            &&& (forall|i: int| 0 <= i < ops.len() ==> ops[i] is Peek) ==> {
                &&& f.len() == 0
                &&& k.len() == 0
                &&& pending(b, s).len() == pending(buf, rest).len()
            }
        }),
    decreases ops.len(),
{
    lemma_run_accounts(ops, buf, rest);
    let (f, k, b, s) = run(ops, buf, rest);
    assert((f + pending(b, s) + k.reverse()).len() == f.len() + pending(b, s).len() + k.len());
    if ops.len() > 0 {
        if let Op::Peek(n) = ops[0] {
            let (b1, s1) = fill(buf, rest, n as int);
            lemma_run_count(ops.drop_first(), b1, s1);
            if forall|j: int| 0 <= j < ops.len() ==> ops[j] is Peek {
                assert forall|i: int| 0 <= i < ops.drop_first().len() implies ops.drop_first()[i] is Peek by {
                    assert(ops[i + 1] is Peek);
                };
            }
        }
    }
}

}

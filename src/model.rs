//! The state of a lookahead buffer as two sequences: `buf`, the elements
//! already taken from the wrapped iterator and not yet handed out, and
//! `rest`, the elements the wrapped iterator has still to produce. The
//! elements still to come, in order, are `buf + rest`.
use vstd::prelude::*;

verus! {

/// The elements still to come, front first.
pub open spec fn pending<T>(buf: Seq<T>, rest: Seq<T>) -> Seq<T> {
    buf + rest
}

/// The element `n` steps ahead, if there is one.
pub open spec fn peek_at<T>(buf: Seq<T>, rest: Seq<T>, n: int) -> Option<T> {
    if 0 <= n < pending(buf, rest).len() {
        Some(pending(buf, rest)[n])
    } else {
        None
    }
}

/// How many elements a peek `n` steps ahead moves from `rest` into `buf`:
/// none when `buf` already reaches that far, else as many as are needed to
/// reach it, or all of `rest` when it runs out first.
pub open spec fn fill_count<T>(buf: Seq<T>, rest: Seq<T>, n: int) -> int {
    if n < buf.len() {
        0
    } else if n + 1 - buf.len() <= rest.len() {
        n + 1 - buf.len()
    } else {
        rest.len() as int
    }
}

/// The state after a peek `n` steps ahead.
pub open spec fn fill<T>(buf: Seq<T>, rest: Seq<T>, n: int) -> (Seq<T>, Seq<T>) {
    let m = fill_count(buf, rest, n);
    (buf + rest.take(m), rest.skip(m))
}

/// One advance from the front: the oldest buffered element, else the next
/// element of the wrapped iterator, else nothing. Returns what is handed
/// out and the new state.
pub open spec fn front_step<T>(buf: Seq<T>, rest: Seq<T>) -> (Option<T>, Seq<T>, Seq<T>) {
    if buf.len() > 0 {
        (Some(buf[0]), buf.drop_first(), rest)
    } else if rest.len() > 0 {
        (Some(rest[0]), buf, rest.drop_first())
    } else {
        (None, buf, rest)
    }
}

/// One advance from the back: the wrapped iterator's last element, else the
/// newest buffered element, else nothing.
pub open spec fn back_step<T>(buf: Seq<T>, rest: Seq<T>) -> (Option<T>, Seq<T>, Seq<T>) {
    if rest.len() > 0 {
        (Some(rest.last()), buf, rest.drop_last())
    } else if buf.len() > 0 {
        (Some(buf.last()), buf.drop_last(), rest)
    } else {
        (None, buf, rest)
    }
}

/// What repeated advances from the front hand out, until nothing is left.
pub open spec fn drain_front<T>(buf: Seq<T>, rest: Seq<T>) -> Seq<T>
    decreases buf.len() + rest.len(),
{
    let (r, b, s) = front_step(buf, rest);
    match r {
        Some(x) => seq![x] + drain_front(b, s),
        None => Seq::empty(),
    }
}

/// One operation on a lookahead buffer.
pub enum Op {
    Front,
    Back,
    Peek(nat),
}

/// Runs `ops` in order from the state (`buf`, `rest`). Returns what the
/// front advances handed out, what the back advances handed out (each in
/// the order of the calls), and the final state.
pub open spec fn run<T>(ops: Seq<Op>, buf: Seq<T>, rest: Seq<T>) -> (Seq<T>, Seq<T>, Seq<T>, Seq<T>)
    decreases ops.len(),
{
    if ops.len() == 0 {
        (Seq::empty(), Seq::empty(), buf, rest)
    } else {
        match ops[0] {
            Op::Front => {
                let (r, b, s) = front_step(buf, rest);
                let (f, k, b2, s2) = run(ops.drop_first(), b, s);
                match r {
                    Some(x) => (seq![x] + f, k, b2, s2),
                    None => (f, k, b2, s2),
                }
            },
            Op::Back => {
                let (r, b, s) = back_step(buf, rest);
                let (f, k, b2, s2) = run(ops.drop_first(), b, s);
                match r {
                    Some(x) => (f, seq![x] + k, b2, s2),
                    None => (f, k, b2, s2),
                }
            },
            Op::Peek(n) => {
                let (b, s) = fill(buf, rest, n as int);
                run(ops.drop_first(), b, s)
            },
        }
    }
}

}

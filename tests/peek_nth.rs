use peek_nth::IteratorExt;
use peek_nth::PeekableNth;

fn drain<I: Iterator>(mut iter: PeekableNth<I>) -> Vec<I::Item> {
    let mut out = Vec::new();
    while let Some(x) = iter.next() {
        out.push(x);
    }
    out
}

#[test]
fn hello_world_peeks_then_drain() {
    let mut iter = "Hello, world!".chars().peekable_nth();
    assert_eq!(iter.peek_nth(4), Some(&'o'));
    assert_eq!(iter.peek_nth(3), Some(&'l'));
    assert_eq!(iter.peek_nth(2), Some(&'l'));
    assert_eq!(iter.peek_nth(1), Some(&'e'));
    assert_eq!(iter.peek_nth(0), Some(&'H'));
    assert_eq!(iter.peek_nth(7), Some(&'w'));
    assert_eq!(drain(iter).into_iter().collect::<String>(), "Hello, world!");
}

#[test]
fn empty_source() {
    let mut iter = Vec::<i32>::new().into_iter().peekable_nth();
    assert_eq!(iter.peek_nth(0), None);
    assert_eq!(iter.peek(), None);
    assert_eq!(iter.next(), None);
    assert_eq!(iter.len(), 0);
    assert_eq!(iter.next_back(), None);
}

#[test]
fn back_takes_tail_from_buffer() {
    let mut iter = vec![1, 2, 3].into_iter().peekable_nth();
    assert_eq!(iter.peek_nth(2), Some(&3));
    assert_eq!(iter.next_back(), Some(3));
    assert_eq!(iter.next(), Some(1));
    assert_eq!(iter.next_back(), Some(2));
    assert_eq!(iter.next(), None);
    assert_eq!(iter.next_back(), None);
}

#[test]
fn peek_in_range_keeps_sequence() {
    let source = vec![10, 20, 30, 40, 50];
    for k in 0..source.len() {
        let mut iter = source.clone().into_iter().peekable_nth();
        assert_eq!(iter.peek_nth(k), Some(&source[k]));
        assert_eq!(drain(iter), source);
    }
}

#[test]
fn repeated_peek_same_value() {
    let mut iter = vec!['a', 'b', 'c'].into_iter().peekable_nth();
    assert_eq!(iter.peek_nth(1), Some(&'b'));
    assert_eq!(iter.peek_nth(1), Some(&'b'));
    assert_eq!(iter.peek_nth(1), Some(&'b'));
    assert_eq!(iter.next(), Some('a'));
    assert_eq!(iter.next(), Some('b'));
    assert_eq!(iter.next(), Some('c'));
    assert_eq!(iter.next(), None);
}

#[test]
fn peek_past_end_loses_nothing() {
    let mut iter = vec![7, 8, 9].into_iter().peekable_nth();
    assert_eq!(iter.peek_nth(3), None);
    assert_eq!(iter.peek_nth(10), None);
    assert_eq!(iter.peek_nth(2), Some(&9));
    assert_eq!(iter.peek(), Some(&7));
    assert_eq!(drain(iter), vec![7, 8, 9]);
}

#[test]
fn peek_at_usize_max_is_none() {
    let mut iter = vec![1u8, 2].into_iter().peekable_nth();
    assert_eq!(iter.peek_nth(usize::MAX), None);
    assert_eq!(drain(iter), vec![1u8, 2]);
}

#[test]
fn front_and_back_interleaved_with_peeks() {
    let mut iter = (1..=8).peekable_nth();
    let mut fronts = Vec::new();
    let mut backs = Vec::new();
    assert_eq!(iter.peek_nth(3), Some(&4));
    fronts.push(iter.next().unwrap());
    backs.push(iter.next_back().unwrap());
    assert_eq!(iter.peek_nth(5), Some(&7));
    backs.push(iter.next_back().unwrap());
    fronts.push(iter.next().unwrap());
    backs.push(iter.next_back().unwrap());
    backs.push(iter.next_back().unwrap());
    fronts.push(iter.next().unwrap());
    backs.push(iter.next_back().unwrap());
    assert_eq!(iter.next(), None);
    assert_eq!(iter.next_back(), None);
    assert_eq!(fronts, vec![1, 2, 3]);
    assert_eq!(backs, vec![8, 7, 6, 5, 4]);
}

#[test]
fn len_counts_buffered_elements() {
    let mut iter = vec![1, 2, 3, 4, 5].into_iter().peekable_nth();
    assert_eq!(iter.len(), 5);
    assert_eq!(iter.peek_nth(2), Some(&3));
    assert_eq!(iter.len(), 5);
    assert_eq!(iter.peek_nth(9), None);
    assert_eq!(iter.len(), 5);
    assert_eq!(iter.next(), Some(1));
    assert_eq!(iter.len(), 4);
    assert_eq!(iter.next_back(), Some(5));
    assert_eq!(iter.len(), 3);
    assert_eq!(iter.peek(), Some(&2));
    assert_eq!(iter.len(), 3);
}

#[test]
fn next_without_peek_matches_source() {
    let mut iter = "abc".chars().peekable_nth();
    assert_eq!(iter.next(), Some('a'));
    assert_eq!(iter.peek(), Some(&'b'));
    assert_eq!(iter.next(), Some('b'));
    assert_eq!(iter.next(), Some('c'));
    assert_eq!(iter.peek(), None);
    assert_eq!(iter.next(), None);
}

#[test]
fn clone_evolves_independently() {
    let mut a = vec![1, 2, 3].into_iter().peekable_nth();
    assert_eq!(a.peek_nth(1), Some(&2));
    let mut b = a.clone();
    assert_eq!(a.next(), Some(1));
    assert_eq!(drain(b.clone()), vec![1, 2, 3]);
    assert_eq!(b.next_back(), Some(3));
    assert_eq!(drain(a), vec![2, 3]);
    assert_eq!(drain(b), vec![1, 2]);
}

#[test]
fn len_with_adds_buffered_count() {
    let mut iter = vec![1, 2, 3, 4, 5].into_iter().peekable_nth();
    assert_eq!(iter.len_with(5), 5);
    assert_eq!(iter.peek_nth(2), Some(&3));
    // three elements now sit in the buffer, two are left in the source
    assert_eq!(iter.len_with(2), 5);
    assert_eq!(iter.len_with(0), 3);
}

#[test]
fn len_unchanged_by_deep_peek() {
    let mut iter = (0..100u32).peekable_nth();
    let before = iter.len();
    assert_eq!(before, 100);
    assert_eq!(iter.peek_nth(40), Some(&40));
    assert_eq!(iter.len(), before);
    assert_eq!(iter.peek_nth(200), None);
    assert_eq!(iter.len(), before);
}

use chem_expr::helper::peek_iter::{CharSource, PeekIter, Source};

#[test]
fn peek_does_not_consume() {
    let mut iter = PeekIter::new(CharSource::new("abc"));
    assert_eq!(iter.peek(0), Some(&'a'));
    assert_eq!(iter.peek(2), Some(&'c'));
    assert_eq!(iter.peek(3), None);
    assert_eq!(iter.peek(1), Some(&'b'));
    assert_eq!(iter.next(), Some('a'));
    assert_eq!(iter.next(), Some('b'));
    assert_eq!(iter.next(), Some('c'));
    assert_eq!(iter.next(), None);
}

#[test]
fn fill_buffer_reports_how_many_exist() {
    let mut iter = PeekIter::new(CharSource::new("abc"));
    assert_eq!(iter.fill_buffer(0), Ok(()));
    assert_eq!(iter.fill_buffer(2), Ok(()));
    assert_eq!(iter.fill_buffer(3), Ok(()));
    assert_eq!(iter.fill_buffer(4), Err(3));
    assert_eq!(iter.fill_buffer(10), Err(3));
    assert_eq!(iter.next(), Some('a'));
    assert_eq!(iter.fill_buffer(3), Err(2));
}

#[test]
fn put_back_goes_to_the_front() {
    let mut iter = PeekIter::new(CharSource::new("bc"));
    iter.put_back('a');
    assert_eq!(iter.peek(1), Some(&'b'));
    assert_eq!(iter.next(), Some('a'));
    let b = iter.next().unwrap();
    iter.put_back(b);
    assert_eq!(iter.next(), Some('b'));
    assert_eq!(iter.next(), Some('c'));
    assert_eq!(iter.next(), None);
}

#[test]
fn next_if_takes_only_what_the_predicate_accepts() {
    let mut iter = PeekIter::new(CharSource::new("a1"));
    assert_eq!(iter.next_if(|c: &char| c.is_ascii_digit()), None);
    assert_eq!(iter.next_if(|c: &char| c.is_ascii_alphabetic()), Some('a'));
    assert_eq!(iter.next_if(|c: &char| c.is_ascii_alphabetic()), None);
    assert_eq!(iter.next_if(|c: &char| c.is_ascii_digit()), Some('1'));
    assert_eq!(iter.next_if(|_c: &char| true), None);
}

#[test]
fn char_source_hands_out_every_character_once() {
    let mut source = CharSource::new("héllo");
    let mut seen = String::new();
    while let Some(c) = source.next() {
        seen.push(c);
    }
    assert_eq!(seen, "héllo");
    assert_eq!(source.next(), None);
}

use rewr::cursor::{Cursor, Failure};
use rewr::pattern::OneOf;

fn naive(needles: &[u8], hay: &[u8]) -> Option<(usize, usize)> {
    hay.iter().position(|b| needles.contains(b)).map(|i| (i, 1))
}

fn check<const N: usize>(needles: [u8; N], hay: &[u8]) {
    let p = OneOf::new(needles).unwrap();
    assert_eq!(p.find_match(hay), naive(&needles, hay), "needles {:?}", needles);
}

#[test]
fn every_cardinality_finds_the_first_needle() {
    let hay: Vec<u8> = (0u8..=40).rev().collect();
    check([], &hay);
    check([1], &hay);
    check([1, 2], &hay);
    check([1, 2, 3], &hay);
    check([1, 2, 3, 4], &hay);
    check([1, 2, 3, 4, 5], &hay);
    check([1, 2, 3, 4, 5, 6], &hay);
    check([1, 2, 3, 4, 5, 6, 7], &hay);
    check([1, 2, 3, 4, 5, 6, 7, 8], &hay);
    check([1, 2, 3, 4, 5, 6, 7, 8, 9], &hay);
    check([1, 2, 3, 4, 5, 6, 7, 8, 9, 10], &hay);
    check([1, 2, 3, 4, 5, 6, 7, 8, 9, 10, 11], &hay);
    check([1, 2, 3, 4, 5, 6, 7, 8, 9, 10, 11, 12], &hay);
    check([1, 2, 3, 4, 5, 6, 7, 8, 9, 10, 11, 12, 13], &hay);
    check([1, 2, 3, 4, 5, 6, 7, 8, 9, 10, 11, 12, 13, 14], &hay);
    check([1, 2, 3, 4, 5, 6, 7, 8, 9, 10, 11, 12, 13, 14, 15], &hay);
    check([1, 2, 3, 4, 5, 6, 7, 8, 9, 10, 11, 12, 13, 14, 15, 16], &hay);
}

#[test]
fn third_needle_of_three_is_searched() {
    let p = OneOf::new([b'x', b'y', b'z']).unwrap();
    assert_eq!(p.find_match(b"abcz"), Some((3, 1)));
    assert_eq!(p.find_match(b"abc"), None);
}

#[test]
fn sixteenth_needle_of_sixteen_is_searched() {
    let needles = [
        b'a', b'b', b'c', b'd', b'e', b'f', b'g', b'h', b'i', b'j', b'k', b'l', b'm', b'n', b'o',
        b'p',
    ];
    let p = OneOf::new(needles).unwrap();
    assert_eq!(p.find_match(b"0123p45"), Some((4, 1)));
    assert_eq!(p.find_match(b"0123456789"), None);
}

#[test]
fn more_than_sixteen_needles_is_a_configuration_error() {
    assert!(OneOf::new([0u8; 17]).is_none());
    assert!(OneOf::new([0u8; 16]).is_some());
}

#[test]
fn empty_set_and_empty_haystack() {
    assert_eq!(OneOf::<u8, 0>::new([]).unwrap().find_match(b"abc"), None);
    assert_eq!(OneOf::new([b'a']).unwrap().find_match(b""), None);
    assert_eq!(OneOf::new([b'a', b'b', b'c', b'd']).unwrap().find_match(b""), None);
}

#[test]
fn long_haystack_with_late_match() {
    let mut hay = vec![b'.'; 100];
    hay[77] = b'q';
    hay[90] = b'r';
    let p = OneOf::new([b'r', b'q', b'w', b'e', b'x']).unwrap();
    assert_eq!(p.find_match(&hay), Some((77, 1)));
    let p = OneOf::new([b'r', b'q']).unwrap();
    assert_eq!(p.find_match(&hay), Some((77, 1)));
}

#[test]
fn find_reject_gives_first_other_byte() {
    let p = OneOf::new([b' ', b'\t']).unwrap();
    assert_eq!(p.find_reject(b"  \tx y"), Some(3));
    assert_eq!(p.find_reject(b" \t "), None);
    let p = OneOf::new([b' ', b'\t']).unwrap();
    assert_eq!(p.find_reject(b""), None);
}

#[test]
fn take_until_delimiter() {
    let mut r = Cursor::new(b"key=value;".to_vec());
    assert_eq!(r.take_until(&OneOf::new([b'=', b';']).unwrap()), Ok(3));
    assert_eq!(r.mark(), 3);
    assert_eq!(r.consume(b"="), Ok(()));
    assert_eq!(r.take_until(&OneOf::new([b'=', b';']).unwrap()), Ok(5));
    assert_eq!(r.take_until(&OneOf::new([b'#']).unwrap()), Err(Failure::Incomplete(1)));
    assert_eq!(r.mark(), 9);
}

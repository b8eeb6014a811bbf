use rewr::branch::{alt, alt_opt, try_alt, try_alt_opt, Literal};
use rewr::cursor::{Cursor, Failure};

fn try_alt_parse(input: &[u8]) -> Result<(), Failure> {
    let mut r = Cursor::new(input.to_vec());
    let res = try_alt(
        &mut r,
        "either hello or world",
        [Literal::new(b"hello"), Literal::new(b"world")],
    );
    if res.is_ok() && !r.at_end() {
        return Err(Failure::Fatal);
    }
    res
}

#[test]
fn test_try_alt() {
    assert_eq!(try_alt_parse(b"hello"), Ok::<_, Failure>(()));
    assert_eq!(try_alt_parse(b"world"), Ok::<_, Failure>(()));
    assert_eq!(try_alt_parse(b"foobar"), Err::<(), _>(Failure::Fatal));
    assert_eq!(try_alt_parse(b"hel"), Err::<(), _>(Failure::Incomplete(2)));
}

#[test]
fn first_match_wins_over_later_match() {
    let mut r = Cursor::new(b"abcdef".to_vec());
    let choices = [Literal::new(b"ab"), Literal::new(b"abcd")];
    assert_eq!(try_alt_opt(&mut r, &choices[..]), Ok(Some(())));
    assert_eq!(r.mark(), 2);

    let mut r = Cursor::new(b"abcdef".to_vec());
    assert_eq!(alt_opt(&mut r, &choices[..]), Some(()));
    assert_eq!(r.mark(), 2);
}

#[test]
fn fatal_candidate_is_rewound_before_the_next() {
    // "abx" consumes nothing net: it fails at its third byte.
    let mut r = Cursor::new(b"abcdef".to_vec());
    let choices = [Literal::new(b"abx"), Literal::new(b"abc")];
    assert_eq!(try_alt_opt(&mut r, &choices[..]), Ok(Some(())));
    assert_eq!(r.mark(), 3);
    assert_eq!(r.remaining_len(), 3);
}

#[test]
fn incomplete_short_circuits() {
    let mut r = Cursor::new(b"hel".to_vec());
    let choices = [Literal::new(b"hello"), Literal::new(b"zzz")];
    assert_eq!(try_alt_opt(&mut r, &choices[..]), Err(Failure::Incomplete(2)));
    assert_eq!(r.mark(), 0);
    // The later candidate would match, but is never reached.
    let choices = [Literal::new(b"hello"), Literal::new(b"he")];
    assert_eq!(try_alt_opt(&mut r, &choices[..]), Err(Failure::Incomplete(2)));
    assert_eq!(r.mark(), 0);
}

#[test]
fn all_fatal_exhausts_and_rewinds() {
    let mut r = Cursor::new(b"foobar".to_vec());
    let choices = [Literal::new(b"hello"), Literal::new(b"world")];
    assert_eq!(try_alt_opt(&mut r, &choices[..]), Ok(None));
    assert_eq!(r.mark(), 0);
    assert_eq!(try_alt(&mut r, "greeting", &choices[..]), Err(Failure::Fatal));
    assert_eq!(r.mark(), 0);
}

#[test]
fn zero_candidates() {
    let mut r = Cursor::new(b"x".to_vec());
    let choices: [Literal; 0] = [];
    assert_eq!(try_alt_opt(&mut r, &choices[..]), Ok(None));
    assert_eq!(alt_opt(&mut r, &choices[..]), None);
    assert_eq!(alt(&mut r, "nothing", &choices[..]), Err(Failure::Fatal));
    assert_eq!(r.mark(), 0);
}

#[test]
fn optional_mode_truncated_input_is_absent() {
    let mut r = Cursor::new(b"hel".to_vec());
    let choices = [Literal::new(b"hello"), Literal::new(b"he")];
    assert_eq!(alt_opt(&mut r, &choices[..]), Some(()));
    assert_eq!(r.mark(), 2);
    let mut r = Cursor::new(b"world".to_vec());
    assert_eq!(alt(&mut r, "either", &choices[..]), Err(Failure::Fatal));
    assert_eq!(r.mark(), 0);
}

#[test]
fn consume_classifies_failures() {
    let mut r = Cursor::new(b"hel".to_vec());
    assert_eq!(r.consume(b"hello"), Err(Failure::Incomplete(2)));
    assert_eq!(r.consume(b"hex"), Err(Failure::Fatal));
    assert_eq!(r.consume(b"hxllo"), Err(Failure::Fatal));
    assert_eq!(r.mark(), 0);
    assert_eq!(r.consume(b"he"), Ok(()));
    assert_eq!(r.mark(), 2);
    assert_eq!(r.consume(b""), Ok(()));
    assert!(!r.at_end());
    assert!(Failure::Fatal.is_fatal());
    assert!(!Failure::Incomplete(1).is_fatal());
}

#[test]
fn mark_and_restore() {
    let mut r = Cursor::new(b"abc".to_vec());
    let m = r.mark();
    assert_eq!(r.read_byte(), Ok(b'a'));
    assert_eq!(r.remaining(), b"bc");
    r.restore(m);
    assert_eq!(r.remaining_len(), 3);
}

#[test]
fn arrays_of_candidates() {
    let mut r = Cursor::new(b"world".to_vec());
    assert_eq!(alt_opt(&mut r, [Literal::new(b"hello"), Literal::new(b"wor")]), Some(()));
    assert_eq!(r.mark(), 3);
    let mut r = Cursor::new(b"wo".to_vec());
    assert_eq!(
        try_alt_opt(&mut r, [Literal::new(b"hello"), Literal::new(b"world")]),
        Err(Failure::Incomplete(3))
    );
    assert_eq!(r.mark(), 0);
}

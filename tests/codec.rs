use rewr::codec::{array, array_opt, i8, u8};
use rewr::cursor::{Cursor, Failure};

#[test]
fn reads_bytes_and_signed_bytes() {
    let mut r = Cursor::new(vec![0x7f, 0xff, 0x80]);
    assert_eq!(u8(&mut r), Ok(0x7f));
    assert_eq!(i8(&mut r), Ok(-1));
    assert_eq!(i8(&mut r), Ok(-128));
    assert_eq!(u8(&mut r), Err(Failure::Incomplete(1)));
    assert_eq!(i8(&mut r), Err(Failure::Incomplete(1)));
}

#[test]
fn reads_arrays() {
    let mut r = Cursor::new(vec![1, 2, 3, 4, 5]);
    assert_eq!(array::<3>(&mut r), Ok([1, 2, 3]));
    assert_eq!(array::<3>(&mut r), Err(Failure::Incomplete(1)));
    assert_eq!(r.mark(), 3);
    assert_eq!(array_opt::<3>(&mut r), None);
    assert_eq!(array_opt::<2>(&mut r), Some([4, 5]));
    assert_eq!(array::<0>(&mut r), Ok([]));
}

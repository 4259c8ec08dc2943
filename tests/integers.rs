use endio::{BEWrite, LEWrite};

const PATTERN: u128 = 0xbaadf00dbaadf00dbaadf00dbaadf00d;
const LE_PATTERN: &[u8] = b"\x0d\xf0\xad\xba\x0d\xf0\xad\xba\x0d\xf0\xad\xba\x0d\xf0\xad\xba";

fn be(writer: &mut Vec<u8>, width: usize) {
    match width {
        2 => BEWrite::ewrite(writer, PATTERN as u16).unwrap(),
        4 => BEWrite::ewrite(writer, PATTERN as u32).unwrap(),
        8 => BEWrite::ewrite(writer, PATTERN as u64).unwrap(),
        _ => BEWrite::ewrite(writer, PATTERN).unwrap(),
    }
}

#[test]
fn unsigned_little_order() {
    let mut w: Vec<u8> = vec![];
    LEWrite::ewrite(&mut w, PATTERN as u16).unwrap();
    assert_eq!(&w[..], &LE_PATTERN[..2]);
    let mut w: Vec<u8> = vec![];
    LEWrite::ewrite(&mut w, PATTERN as u32).unwrap();
    assert_eq!(&w[..], &LE_PATTERN[..4]);
    let mut w: Vec<u8> = vec![];
    LEWrite::ewrite(&mut w, PATTERN as u64).unwrap();
    assert_eq!(&w[..], &LE_PATTERN[..8]);
    let mut w: Vec<u8> = vec![];
    LEWrite::ewrite(&mut w, PATTERN).unwrap();
    assert_eq!(&w[..], &LE_PATTERN[..16]);
}

#[test]
fn signed_little_order() {
    let mut w: Vec<u8> = vec![];
    LEWrite::ewrite(&mut w, PATTERN as i16).unwrap();
    assert_eq!(&w[..], &LE_PATTERN[..2]);
    let mut w: Vec<u8> = vec![];
    LEWrite::ewrite(&mut w, PATTERN as i32).unwrap();
    assert_eq!(&w[..], &LE_PATTERN[..4]);
    let mut w: Vec<u8> = vec![];
    LEWrite::ewrite(&mut w, PATTERN as i64).unwrap();
    assert_eq!(&w[..], &LE_PATTERN[..8]);
    let mut w: Vec<u8> = vec![];
    LEWrite::ewrite(&mut w, PATTERN as i128).unwrap();
    assert_eq!(&w[..], &LE_PATTERN[..16]);
}

#[test]
fn big_order_is_reversed_little_order() {
    for width in [2usize, 4, 8, 16] {
        let mut w: Vec<u8> = vec![];
        be(&mut w, width);
        let mut expected: Vec<u8> = LE_PATTERN[..width].to_vec();
        expected.reverse();
        assert_eq!(w, expected);
        assert_ne!(&w[..], &LE_PATTERN[..width]);
    }
}

#[test]
fn signed_big_order() {
    let mut w: Vec<u8> = vec![];
    BEWrite::ewrite(&mut w, -2i16).unwrap();
    assert_eq!(w, vec![0xff, 0xfe]);
    let mut w: Vec<u8> = vec![];
    BEWrite::ewrite(&mut w, i32::MIN).unwrap();
    assert_eq!(w, vec![0x80, 0, 0, 0]);
    let mut w: Vec<u8> = vec![];
    BEWrite::ewrite(&mut w, -1i64).unwrap();
    assert_eq!(w, vec![0xff; 8]);
}

#[test]
fn bytes_same_in_both_orders() {
    for v in [0u8, 1, 0x7f, 0x80, 0xff] {
        let mut b: Vec<u8> = vec![];
        BEWrite::ewrite(&mut b, v).unwrap();
        let mut l: Vec<u8> = vec![];
        LEWrite::ewrite(&mut l, v).unwrap();
        assert_eq!(b, l);
        assert_eq!(b, vec![v]);
    }
    for v in [i8::MIN, -1, 0, i8::MAX] {
        let mut b: Vec<u8> = vec![];
        BEWrite::ewrite(&mut b, v).unwrap();
        let mut l: Vec<u8> = vec![];
        LEWrite::ewrite(&mut l, v).unwrap();
        assert_eq!(b, l);
    }
}

#[test]
fn sequence_is_concatenation() {
    let empty: Vec<u32> = vec![];
    let mut w: Vec<u8> = vec![];
    BEWrite::ewrite(&mut w, &empty).unwrap();
    assert!(w.is_empty());
    let mut w: Vec<u8> = vec![];
    BEWrite::ewrite(&mut w, &[0x01020304u32][..]).unwrap();
    assert_eq!(w, vec![1, 2, 3, 4]);
    let mut w: Vec<u8> = vec![9];
    LEWrite::ewrite(&mut w, &vec![true, false, true]).unwrap();
    assert_eq!(w, vec![9, 1, 0, 1]);
    let mut w: Vec<u8> = vec![];
    BEWrite::ewrite(&mut w, &[0x0102u16, 0x0304, 0x0506][..]).unwrap();
    assert_eq!(w, vec![1, 2, 3, 4, 5, 6]);
}

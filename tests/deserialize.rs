use endio::{BERead, BEWrite, BigEndian, Deserialize, ERead, LERead, LEWrite, LittleEndian, Serialize, SliceReader, UnexpectedEnd};

#[test]
fn read_primitives_big_order() {
    let data = b"\x01\xff\x80\x12\x34\x00\x00\x00\x2a";
    let mut r = SliceReader::new(&data[..]);
    let b: bool = BERead::eread(&mut r).unwrap();
    let u: u8 = BERead::eread(&mut r).unwrap();
    let i: i8 = BERead::eread(&mut r).unwrap();
    let s: u16 = BERead::eread(&mut r).unwrap();
    let w: i32 = BERead::eread(&mut r).unwrap();
    assert!(b);
    assert_eq!(u, 0xff);
    assert_eq!(i, -128);
    assert_eq!(s, 0x1234);
    assert_eq!(w, 42);
    let end: Result<u8, UnexpectedEnd> = BERead::eread(&mut r);
    assert_eq!(end, Err(UnexpectedEnd));
}

#[test]
fn read_primitives_little_order() {
    let data = b"\x00\x34\x12\xfe\xff\xff\xff\xff\xff\xff\xff";
    let mut r = SliceReader::new(&data[..]);
    let b: bool = LERead::eread(&mut r).unwrap();
    let s: u16 = LERead::eread(&mut r).unwrap();
    let l: i64 = LERead::eread(&mut r).unwrap();
    assert!(!b);
    assert_eq!(s, 0x1234);
    assert_eq!(l, -2);
}

#[test]
fn read_nonzero_byte_as_true() {
    let data = b"\x07";
    let mut r = SliceReader::new(&data[..]);
    let b: bool = LERead::eread(&mut r).unwrap();
    assert!(b);
}

#[test]
fn read_too_few_bytes() {
    let data = b"\x01\x02\x03";
    let mut r = SliceReader::new(&data[..]);
    let v: Result<u32, UnexpectedEnd> = LERead::eread(&mut r);
    assert_eq!(v, Err(UnexpectedEnd));
    let empty: &[u8] = &[];
    let mut r = SliceReader::new(empty);
    let b: Result<bool, UnexpectedEnd> = BERead::eread(&mut r);
    assert_eq!(b, Err(UnexpectedEnd));
}

#[test]
fn read_fixed_order_overrides() {
    let data = b"\x12\x34\x12\x34";
    let mut r = SliceReader::new(&data[..]);
    let a: u16 = LERead::read_be(&mut r).unwrap();
    let b: u16 = BERead::read_le(&mut r).unwrap();
    assert_eq!(a, 0x1234);
    assert_eq!(b, 0x3412);
}

#[test]
fn read_generic_order() {
    let data = b"\x01\x02\x01\x02";
    let mut r = SliceReader::new(&data[..]);
    let a: u16 = ERead::<BigEndian>::eread(&mut r).unwrap();
    let b: u16 = ERead::<LittleEndian>::eread(&mut r).unwrap();
    assert_eq!(a, 0x0102);
    assert_eq!(b, 0x0201);
}

#[test]
fn round_trip_exhaustive_narrow() {
    for v in 0..=u16::MAX {
        let mut w: Vec<u8> = vec![];
        BEWrite::ewrite(&mut w, v).unwrap();
        LEWrite::ewrite(&mut w, v).unwrap();
        BEWrite::ewrite(&mut w, v as i16).unwrap();
        LEWrite::ewrite(&mut w, v as i16).unwrap();
        BEWrite::ewrite(&mut w, v as u8).unwrap();
        LEWrite::ewrite(&mut w, v as i8).unwrap();
        let mut r = SliceReader::new(&w[..]);
        let a: u16 = BERead::eread(&mut r).unwrap();
        let b: u16 = LERead::eread(&mut r).unwrap();
        let c: i16 = BERead::eread(&mut r).unwrap();
        let d: i16 = LERead::eread(&mut r).unwrap();
        let e: u8 = BERead::eread(&mut r).unwrap();
        let f: i8 = LERead::eread(&mut r).unwrap();
        assert_eq!((a, b, c, d, e, f), (v, v, v as i16, v as i16, v as u8, v as i8));
    }
    for v in [false, true] {
        let mut w: Vec<u8> = vec![];
        BEWrite::ewrite(&mut w, v).unwrap();
        let mut r = SliceReader::new(&w[..]);
        let b: bool = LERead::eread(&mut r).unwrap();
        assert_eq!(b, v);
    }
}

#[test]
fn round_trip_sampled_wide() {
    let mut x: u128 = 0x9e3779b97f4a7c15f39cc0605cedc834;
    for _ in 0..2000 {
        x = x.wrapping_mul(0x2360ed051fc65da44385df649fccf645).wrapping_add(0x5851f42d4c957f2d);
        let mut w: Vec<u8> = vec![];
        BEWrite::ewrite(&mut w, x as u32).unwrap();
        LEWrite::ewrite(&mut w, x as i32).unwrap();
        BEWrite::ewrite(&mut w, x as i64).unwrap();
        LEWrite::ewrite(&mut w, x as u64).unwrap();
        BEWrite::ewrite(&mut w, x).unwrap();
        LEWrite::ewrite(&mut w, x as i128).unwrap();
        assert_eq!(w.len(), 4 + 4 + 8 + 8 + 16 + 16);
        let mut r = SliceReader::new(&w[..]);
        let a: u32 = BERead::eread(&mut r).unwrap();
        let b: i32 = LERead::eread(&mut r).unwrap();
        let c: i64 = BERead::eread(&mut r).unwrap();
        let d: u64 = LERead::eread(&mut r).unwrap();
        let e: u128 = BERead::eread(&mut r).unwrap();
        let f: i128 = LERead::eread(&mut r).unwrap();
        assert_eq!(a, x as u32);
        assert_eq!(b, x as i32);
        assert_eq!(c, x as i64);
        assert_eq!(d, x as u64);
        assert_eq!(e, x);
        assert_eq!(f, x as i128);
    }
}

#[test]
fn round_trip_floats_by_bit_pattern() {
    for v in [642.613525390625f32, -0.0, f32::INFINITY, f32::from_bits(0x7fc0_0001)] {
        let mut w: Vec<u8> = vec![];
        BEWrite::ewrite(&mut w, v.to_bits()).unwrap();
        let mut r = SliceReader::new(&w[..]);
        let bits: u32 = BERead::eread(&mut r).unwrap();
        assert_eq!(f32::from_bits(bits).to_bits(), v.to_bits());
    }
    let v = 1310.5201984283194f64;
    let mut w: Vec<u8> = vec![];
    LEWrite::ewrite(&mut w, v.to_bits()).unwrap();
    let mut r = SliceReader::new(&w[..]);
    let bits: u64 = LERead::eread(&mut r).unwrap();
    assert_eq!(f64::from_bits(bits), v);
}

#[test]
fn order_free_methods_called_directly() {
    let mut w: Vec<u8> = vec![];
    Serialize::<BigEndian, Vec<u8>>::serialize(0xabu8, &mut w).unwrap();
    Serialize::<LittleEndian, Vec<u8>>::serialize(false, &mut w).unwrap();
    Serialize::<LittleEndian, Vec<u8>>::serialize(0x0101u16, &mut w).unwrap();
    assert_eq!(w, vec![0xab, 0, 1, 1]);
    let mut r = SliceReader::new(&w[..]);
    let a: u8 = <u8 as Deserialize<LittleEndian, SliceReader>>::deserialize(&mut r).unwrap();
    let b: bool = <bool as Deserialize<BigEndian, SliceReader>>::deserialize(&mut r).unwrap();
    let c: u16 = <u16 as Deserialize<BigEndian, SliceReader>>::deserialize(&mut r).unwrap();
    assert_eq!((a, b, c), (0xab, false, 0x0101));
}

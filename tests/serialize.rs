use endio::{BEWrite, BigEndian, ByteSink, EWrite, Endianness, LEWrite, LittleEndian, Serialize};

struct Test {
    a: u16,
}

impl<E: Endianness, W: ByteSink> Serialize<E, W> for Test
where
    u16: Serialize<E, W>,
{
    fn serialize(self, writer: &mut W) -> Result<(), W::Error> {
        E::serialize(self.a, writer)?;
        Ok(())
    }

    fn serialize_be(self, writer: &mut W) -> Result<(), W::Error> {
        <Test as Serialize<E, W>>::serialize(self, writer)
    }

    fn serialize_le(self, writer: &mut W) -> Result<(), W::Error> {
        <Test as Serialize<E, W>>::serialize(self, writer)
    }
}

#[test]
fn write_slice() {
    let data = b"\xba\xad\xba\xad";
    let mut writer: Vec<u8> = vec![];
    LEWrite::ewrite(&mut writer, &[0xadbau16, 0xadbau16][..]).unwrap();
    assert_eq!(writer, data);
}

#[test]
fn write_vec() {
    let data = b"\xba\xad\xba\xad";
    let mut writer: Vec<u8> = vec![];
    LEWrite::ewrite(&mut writer, &vec![0xadbau16, 0xadbau16]).unwrap();
    assert_eq!(writer, data);
}

#[test]
fn write_bool_false() {
    let data = b"\x00";
    let val = false;
    {
        let mut writer: Vec<u8> = vec![];
        BEWrite::ewrite(&mut writer, val).unwrap();
        assert_eq!(writer, data);
    }
    {
        let mut writer: Vec<u8> = vec![];
        LEWrite::ewrite(&mut writer, val).unwrap();
        assert_eq!(writer, data);
    }
}

#[test]
fn write_bool_true() {
    let data = b"\x01";
    let val = true;
    {
        let mut writer: Vec<u8> = vec![];
        BEWrite::ewrite(&mut writer, val).unwrap();
        assert_eq!(writer, data);
    }
    {
        let mut writer: Vec<u8> = vec![];
        LEWrite::ewrite(&mut writer, val).unwrap();
        assert_eq!(writer, data);
    }
}

#[test]
fn write_i8() {
    let data = b"\x80";
    let val = i8::MIN;
    {
        let mut writer: Vec<u8> = vec![];
        BEWrite::ewrite(&mut writer, val).unwrap();
        assert_eq!(writer, data);
    }
    {
        let mut writer: Vec<u8> = vec![];
        LEWrite::ewrite(&mut writer, val).unwrap();
        assert_eq!(writer, data);
    }
}

#[test]
fn write_u8() {
    let data = b"\xff";
    let val = u8::MAX;
    {
        let mut writer: Vec<u8> = vec![];
        BEWrite::ewrite(&mut writer, val).unwrap();
        assert_eq!(writer, data);
    }
    {
        let mut writer: Vec<u8> = vec![];
        LEWrite::ewrite(&mut writer, val).unwrap();
        assert_eq!(writer, data);
    }
}

#[test]
fn write_f32() {
    let data = b"\x44\x20\xa7\x44";
    {
        let mut writer: Vec<u8> = vec![];
        BEWrite::ewrite(&mut writer, 642.613525390625f32.to_bits()).unwrap();
        assert_eq!(writer, data);
    }
    {
        let mut writer: Vec<u8> = vec![];
        LEWrite::ewrite(&mut writer, 1337.0083007812f32.to_bits()).unwrap();
        assert_eq!(writer, data);
    }
}

#[test]
fn write_f64() {
    let data = b"\x40\x94\x7a\x14\xae\xe5\x94\x40";
    {
        let mut writer: Vec<u8> = vec![];
        BEWrite::ewrite(&mut writer, 1310.5201984283194f64.to_bits()).unwrap();
        assert_eq!(writer, data);
    }
    {
        let mut writer: Vec<u8> = vec![];
        LEWrite::ewrite(&mut writer, 1337.4199999955163f64.to_bits()).unwrap();
        assert_eq!(writer, data);
    }
}

#[test]
fn write_struct_forced() {
    let data = b"\xba\xad";
    let mut writer: Vec<u8> = vec![];
    LEWrite::write_be(&mut writer, Test { a: 0xbaad }).unwrap();
    assert_eq!(&writer[..], data);
}

#[test]
fn write_generic_order() {
    let mut big: Vec<u8> = vec![];
    EWrite::<BigEndian>::ewrite(&mut big, 0x0102u16).unwrap();
    let mut little: Vec<u8> = vec![];
    EWrite::<LittleEndian>::ewrite(&mut little, 0x0102u16).unwrap();
    assert_eq!(big, vec![1, 2]);
    assert_eq!(little, vec![2, 1]);
}

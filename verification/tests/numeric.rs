use binary_reader::{BinaryReader, Endian};
use byteorder::{BigEndian, ByteOrder, LittleEndian, NativeEndian};

pub const U24_MAX: u32 = 16_777_215;
pub const I24_MAX: i32 = 8_388_607;
pub const U48_MAX: u64 = 281_474_976_710_655;
pub const I48_MAX: i64 = 140_737_488_355_327;

pub const U24_MIN: u32 = 0;
pub const I24_MIN: i32 = -8_388_608;
pub const U48_MIN: u64 = 0;
pub const I48_MIN: i64 = -140_737_488_355_328;

#[test]
fn u8_i8_min_max() {
    let mut r = BinaryReader::from_u8(&[0x00, 0xFF, 0x80, 0x7F]);
    assert_eq!(u8::MIN, r.read_u8().unwrap());
    assert_eq!(u8::MAX, r.read_u8().unwrap());
    assert_eq!(i8::MIN, r.read_i8().unwrap());
    assert_eq!(i8::MAX, r.read_i8().unwrap());
}

#[test]
fn u16_min_max() {
    let mut buf = [0u8; 32];

    BigEndian::write_u16(&mut buf, u16::MAX);
    BigEndian::write_u16(&mut buf[2..], u16::MIN);
    let mut r = BinaryReader::from_u8(&buf);
    r.set_endian(Endian::Big);
    assert_eq!(u16::MAX, r.read_u16().unwrap());
    assert_eq!(u16::MIN, r.read_u16().unwrap());

    LittleEndian::write_u16(&mut buf, u16::MAX);
    LittleEndian::write_u16(&mut buf[2..], u16::MIN);
    let mut r = BinaryReader::from_u8(&buf);
    r.set_endian(Endian::Little);
    assert_eq!(u16::MAX, r.read_u16().unwrap());
    assert_eq!(u16::MIN, r.read_u16().unwrap());

    NativeEndian::write_u16(&mut buf, u16::MAX);
    NativeEndian::write_u16(&mut buf[2..], u16::MIN);
    let mut r = BinaryReader::from_u8(&buf);
    r.set_endian(Endian::Native);
    assert_eq!(u16::MAX, r.read_u16().unwrap());
    assert_eq!(u16::MIN, r.read_u16().unwrap());
}

#[test]
fn i16_min_max() {
    let mut buf = [0u8; 32];

    BigEndian::write_i16(&mut buf, i16::MAX);
    BigEndian::write_i16(&mut buf[2..], i16::MIN);
    let mut r = BinaryReader::from_u8(&buf);
    r.set_endian(Endian::Big);
    assert_eq!(i16::MAX, r.read_i16().unwrap());
    assert_eq!(i16::MIN, r.read_i16().unwrap());

    LittleEndian::write_i16(&mut buf, i16::MAX);
    LittleEndian::write_i16(&mut buf[2..], i16::MIN);
    let mut r = BinaryReader::from_u8(&buf);
    r.set_endian(Endian::Little);
    assert_eq!(i16::MAX, r.read_i16().unwrap());
    assert_eq!(i16::MIN, r.read_i16().unwrap());

    NativeEndian::write_i16(&mut buf, i16::MAX);
    NativeEndian::write_i16(&mut buf[2..], i16::MIN);
    let mut r = BinaryReader::from_u8(&buf);
    r.set_endian(Endian::Native);
    assert_eq!(i16::MAX, r.read_i16().unwrap());
    assert_eq!(i16::MIN, r.read_i16().unwrap());
}

#[test]
fn u24_min_max() {
    let mut buf = [0u8; 32];

    BigEndian::write_u24(&mut buf, U24_MAX);
    BigEndian::write_u24(&mut buf[3..], U24_MIN);
    let mut r = BinaryReader::from_u8(&buf);
    r.set_endian(Endian::Big);
    assert_eq!(U24_MAX, r.read_u24().unwrap());
    assert_eq!(U24_MIN, r.read_u24().unwrap());

    LittleEndian::write_u24(&mut buf, U24_MAX);
    LittleEndian::write_u24(&mut buf[3..], U24_MIN);
    let mut r = BinaryReader::from_u8(&buf);
    r.set_endian(Endian::Little);
    assert_eq!(U24_MAX, r.read_u24().unwrap());
    assert_eq!(U24_MIN, r.read_u24().unwrap());

    NativeEndian::write_u24(&mut buf, U24_MAX);
    NativeEndian::write_u24(&mut buf[3..], U24_MIN);
    let mut r = BinaryReader::from_u8(&buf);
    r.set_endian(Endian::Native);
    assert_eq!(U24_MAX, r.read_u24().unwrap());
    assert_eq!(U24_MIN, r.read_u24().unwrap());
}

#[test]
fn i24_min_max() {
    let mut buf = [0u8; 32];

    BigEndian::write_i24(&mut buf, I24_MAX);
    BigEndian::write_i24(&mut buf[3..], I24_MIN);
    let mut r = BinaryReader::from_u8(&buf);
    r.set_endian(Endian::Big);
    assert_eq!(I24_MAX, r.read_i24().unwrap());
    assert_eq!(I24_MIN, r.read_i24().unwrap());

    LittleEndian::write_i24(&mut buf, I24_MAX);
    LittleEndian::write_i24(&mut buf[3..], I24_MIN);
    let mut r = BinaryReader::from_u8(&buf);
    r.set_endian(Endian::Little);
    assert_eq!(I24_MAX, r.read_i24().unwrap());
    assert_eq!(I24_MIN, r.read_i24().unwrap());

    NativeEndian::write_i24(&mut buf, I24_MAX);
    NativeEndian::write_i24(&mut buf[3..], I24_MIN);
    let mut r = BinaryReader::from_u8(&buf);
    r.set_endian(Endian::Native);
    assert_eq!(I24_MAX, r.read_i24().unwrap());
    assert_eq!(I24_MIN, r.read_i24().unwrap());
}

#[test]
fn u32_min_max() {
    let mut buf = [0u8; 32];

    BigEndian::write_u32(&mut buf, u32::MAX);
    BigEndian::write_u32(&mut buf[4..], u32::MIN);
    let mut r = BinaryReader::from_u8(&buf);
    r.set_endian(Endian::Big);
    assert_eq!(u32::MAX, r.read_u32().unwrap());
    assert_eq!(u32::MIN, r.read_u32().unwrap());

    LittleEndian::write_u32(&mut buf, u32::MAX);
    LittleEndian::write_u32(&mut buf[4..], u32::MIN);
    let mut r = BinaryReader::from_u8(&buf);
    r.set_endian(Endian::Little);
    assert_eq!(u32::MAX, r.read_u32().unwrap());
    assert_eq!(u32::MIN, r.read_u32().unwrap());

    NativeEndian::write_u32(&mut buf, u32::MAX);
    NativeEndian::write_u32(&mut buf[4..], u32::MIN);
    let mut r = BinaryReader::from_u8(&buf);
    r.set_endian(Endian::Native);
    assert_eq!(u32::MAX, r.read_u32().unwrap());
    assert_eq!(u32::MIN, r.read_u32().unwrap());
}

#[test]
fn i32_min_max() {
    let mut buf = [0u8; 32];

    BigEndian::write_i32(&mut buf, i32::MAX);
    BigEndian::write_i32(&mut buf[4..], i32::MIN);
    let mut r = BinaryReader::from_u8(&buf);
    r.set_endian(Endian::Big);
    assert_eq!(i32::MAX, r.read_i32().unwrap());
    assert_eq!(i32::MIN, r.read_i32().unwrap());

    LittleEndian::write_i32(&mut buf, i32::MAX);
    LittleEndian::write_i32(&mut buf[4..], i32::MIN);
    let mut r = BinaryReader::from_u8(&buf);
    r.set_endian(Endian::Little);
    assert_eq!(i32::MAX, r.read_i32().unwrap());
    assert_eq!(i32::MIN, r.read_i32().unwrap());

    NativeEndian::write_i32(&mut buf, i32::MAX);
    NativeEndian::write_i32(&mut buf[4..], i32::MIN);
    let mut r = BinaryReader::from_u8(&buf);
    r.set_endian(Endian::Native);
    assert_eq!(i32::MAX, r.read_i32().unwrap());
    assert_eq!(i32::MIN, r.read_i32().unwrap());
}

#[test]
fn u48_min_max() {
    let mut buf = [0u8; 32];

    BigEndian::write_u48(&mut buf, U48_MAX);
    BigEndian::write_u48(&mut buf[6..], U48_MIN);
    let mut r = BinaryReader::from_u8(&buf);
    r.set_endian(Endian::Big);
    assert_eq!(U48_MAX, r.read_u48().unwrap());
    assert_eq!(U48_MIN, r.read_u48().unwrap());

    LittleEndian::write_u48(&mut buf, U48_MAX);
    LittleEndian::write_u48(&mut buf[6..], U48_MIN);
    let mut r = BinaryReader::from_u8(&buf);
    r.set_endian(Endian::Little);
    assert_eq!(U48_MAX, r.read_u48().unwrap());
    assert_eq!(U48_MIN, r.read_u48().unwrap());

    NativeEndian::write_u48(&mut buf, U48_MAX);
    NativeEndian::write_u48(&mut buf[6..], U48_MIN);
    let mut r = BinaryReader::from_u8(&buf);
    r.set_endian(Endian::Native);
    assert_eq!(U48_MAX, r.read_u48().unwrap());
    assert_eq!(U48_MIN, r.read_u48().unwrap());
}

#[test]
fn i48_min_max() {
    let mut buf = [0u8; 32];

    BigEndian::write_i48(&mut buf, I48_MAX);
    BigEndian::write_i48(&mut buf[6..], I48_MIN);
    let mut r = BinaryReader::from_u8(&buf);
    r.set_endian(Endian::Big);
    assert_eq!(I48_MAX, r.read_i48().unwrap());
    assert_eq!(I48_MIN, r.read_i48().unwrap());

    LittleEndian::write_i48(&mut buf, I48_MAX);
    LittleEndian::write_i48(&mut buf[6..], I48_MIN);
    let mut r = BinaryReader::from_u8(&buf);
    r.set_endian(Endian::Little);
    assert_eq!(I48_MAX, r.read_i48().unwrap());
    assert_eq!(I48_MIN, r.read_i48().unwrap());

    NativeEndian::write_i48(&mut buf, I48_MAX);
    NativeEndian::write_i48(&mut buf[6..], I48_MIN);
    let mut r = BinaryReader::from_u8(&buf);
    r.set_endian(Endian::Native);
    assert_eq!(I48_MAX, r.read_i48().unwrap());
    assert_eq!(I48_MIN, r.read_i48().unwrap());
}

#[test]
fn u64_min_max() {
    let mut buf = [0u8; 32];

    BigEndian::write_u64(&mut buf, u64::MAX);
    BigEndian::write_u64(&mut buf[8..], u64::MIN);
    let mut r = BinaryReader::from_u8(&buf);
    r.set_endian(Endian::Big);
    assert_eq!(u64::MAX, r.read_u64().unwrap());
    assert_eq!(u64::MIN, r.read_u64().unwrap());

    LittleEndian::write_u64(&mut buf, u64::MAX);
    LittleEndian::write_u64(&mut buf[8..], u64::MIN);
    let mut r = BinaryReader::from_u8(&buf);
    r.set_endian(Endian::Little);
    assert_eq!(u64::MAX, r.read_u64().unwrap());
    assert_eq!(u64::MIN, r.read_u64().unwrap());

    NativeEndian::write_u64(&mut buf, u64::MAX);
    NativeEndian::write_u64(&mut buf[8..], u64::MIN);
    let mut r = BinaryReader::from_u8(&buf);
    r.set_endian(Endian::Native);
    assert_eq!(u64::MAX, r.read_u64().unwrap());
    assert_eq!(u64::MIN, r.read_u64().unwrap());
}

#[test]
fn i64_min_max() {
    let mut buf = [0u8; 32];

    BigEndian::write_i64(&mut buf, i64::MAX);
    BigEndian::write_i64(&mut buf[8..], i64::MIN);
    let mut r = BinaryReader::from_u8(&buf);
    r.set_endian(Endian::Big);
    assert_eq!(i64::MAX, r.read_i64().unwrap());
    assert_eq!(i64::MIN, r.read_i64().unwrap());

    LittleEndian::write_i64(&mut buf, i64::MAX);
    LittleEndian::write_i64(&mut buf[8..], i64::MIN);
    let mut r = BinaryReader::from_u8(&buf);
    r.set_endian(Endian::Little);
    assert_eq!(i64::MAX, r.read_i64().unwrap());
    assert_eq!(i64::MIN, r.read_i64().unwrap());

    NativeEndian::write_i64(&mut buf, i64::MAX);
    NativeEndian::write_i64(&mut buf[8..], i64::MIN);
    let mut r = BinaryReader::from_u8(&buf);
    r.set_endian(Endian::Native);
    assert_eq!(i64::MAX, r.read_i64().unwrap());
    assert_eq!(i64::MIN, r.read_i64().unwrap());
}

#[test]
fn u128_min_max() {
    let mut buf = [0u8; 32];

    BigEndian::write_u128(&mut buf, u128::MAX);
    BigEndian::write_u128(&mut buf[16..], u128::MIN);
    let mut r = BinaryReader::from_u8(&buf);
    r.set_endian(Endian::Big);
    assert_eq!(u128::MAX, r.read_u128().unwrap());
    assert_eq!(u128::MIN, r.read_u128().unwrap());

    LittleEndian::write_u128(&mut buf, u128::MAX);
    LittleEndian::write_u128(&mut buf[16..], u128::MIN);
    let mut r = BinaryReader::from_u8(&buf);
    r.set_endian(Endian::Little);
    assert_eq!(u128::MAX, r.read_u128().unwrap());
    assert_eq!(u128::MIN, r.read_u128().unwrap());

    NativeEndian::write_u128(&mut buf, u128::MAX);
    NativeEndian::write_u128(&mut buf[16..], u128::MIN);
    let mut r = BinaryReader::from_u8(&buf);
    r.set_endian(Endian::Native);
    assert_eq!(u128::MAX, r.read_u128().unwrap());
    assert_eq!(u128::MIN, r.read_u128().unwrap());
}

#[test]
fn i128_min_max() {
    let mut buf = [0u8; 32];

    BigEndian::write_i128(&mut buf, i128::MAX);
    BigEndian::write_i128(&mut buf[16..], i128::MIN);
    let mut r = BinaryReader::from_u8(&buf);
    r.set_endian(Endian::Big);
    assert_eq!(i128::MAX, r.read_i128().unwrap());
    assert_eq!(i128::MIN, r.read_i128().unwrap());

    LittleEndian::write_i128(&mut buf, i128::MAX);
    LittleEndian::write_i128(&mut buf[16..], i128::MIN);
    let mut r = BinaryReader::from_u8(&buf);
    r.set_endian(Endian::Little);
    assert_eq!(i128::MAX, r.read_i128().unwrap());
    assert_eq!(i128::MIN, r.read_i128().unwrap());

    NativeEndian::write_i128(&mut buf, i128::MAX);
    NativeEndian::write_i128(&mut buf[16..], i128::MIN);
    let mut r = BinaryReader::from_u8(&buf);
    r.set_endian(Endian::Native);
    assert_eq!(i128::MAX, r.read_i128().unwrap());
    assert_eq!(i128::MIN, r.read_i128().unwrap());
}

#[test]
fn u24_sample_value() {
    // 0x123456 big-endian is the byte run 12 34 56; little-endian reverses it
    let mut r = BinaryReader::from_u8(&[0x12, 0x34, 0x56]);
    r.set_endian(Endian::Big);
    assert_eq!(0x123456, r.read_u24().unwrap());
    r.jmp(0);
    r.set_endian(Endian::Little);
    assert_eq!(0x563412, r.read_u24().unwrap());
}

#[test]
fn i24_negative_sample() {
    // 0xFFFFFF is -1 in 24-bit two's complement
    let mut r = BinaryReader::from_u8(&[0xFF, 0xFF, 0xFF]);
    assert_eq!(-1, r.read_i24().unwrap());
    let mut r = BinaryReader::from_u8(&[0x80, 0x00, 0x01]);
    assert_eq!(-8_388_607, r.read_i24().unwrap());
}

#[test]
fn u48_sample_value() {
    let mut r = BinaryReader::from_u8(&[0x01, 0x02, 0x03, 0x04, 0x05, 0x06]);
    r.set_endian(Endian::Big);
    assert_eq!(0x010203040506, r.read_u48().unwrap());
    r.jmp(0);
    r.set_endian(Endian::Little);
    assert_eq!(0x060504030201, r.read_u48().unwrap());
}

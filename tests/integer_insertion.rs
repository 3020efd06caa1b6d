use bitlab::{BitError, InsertIntoSizedIntegerTypes, IntType};

#[test]
fn inserting_8_bit_vars_into_u8() {
    let a : u8 = 0;
    let b : u8 = 3;
    assert_eq!(a.set(1, 2, b).unwrap(), 0b0110_0000);

    let a : u8 = 0b0110_0011;
    let b : u8 = 0b0000_0010;
    assert_eq!(a.set(5, 2, b).unwrap(), 0b0110_0101);

    // You cannot insert 9 bits into an u8
    match a.set(5, 9, b) {
        Ok(_) => panic!("The range check failed to detect invalid length"),
        Err(e) => assert_eq!(e, BitError::LengthTooBigForTargetType(IntType::U8)),
    }

    // start + length must not exceed 8 bit (size of u8)
    match a.set(5, 8, b) {
        Ok(_) => panic!("The range check failed to detect invalid range"),
        Err(e) => assert_eq!(e, BitError::OutOfRange),
    }

    // The _length_ parameter must not be smaller than the number of bits,
    // which is required to represent _value_
    let b : u8 = 5;
    match a.set(5, 2, b) {
        Ok(_) => panic!("The range check failed to detect invalid range"),
        Err(e) => assert_eq!(e, BitError::ValueTooWide { value: 5, signed: false, length: 2, required: 3 }),
    }

    // b as positive signed integer
    let a : u8 = 0b0110_0011;
    let b : i8 = 0b0000_0010;
    assert_eq!(a.set(5, 2, b).unwrap(), 0b0110_0101);

    // b as negative signed integer
    // the pattern of -2 ends in ...10
    let b : i8 = -2;
    assert_eq!(  0b1111_1110 as u8 as i8, b);
    assert_eq!(a.set(5, 2, b).unwrap(), 0b0110_0101);

    match a.set(5, 9, b) {
        Ok(_) => panic!("The range check failed to detect invalid length"),
        Err(e) => assert_eq!(e, BitError::LengthTooBigForTargetType(IntType::U8)),
    }

    // start + length must not exceed 8 bit (size of u8)
    match a.set(5, 8, b) {
        Ok(_) => panic!("The range check failed to detect invalid range"),
        Err(e) => assert_eq!(e, BitError::OutOfRange),
    }

    // The _length_ parameter must not be smaller than the number of bits,
    // which is required to represent _value_
    let b = -5;
    match a.set(5, 2, b) {
        Ok(_) => panic!("The range check failed to detect invalid range"),
        Err(e) => assert_eq!(e, BitError::ValueTooWide { value: -5, signed: true, length: 2, required: 4 }),
    }
}

#[test]
fn inserting_8_bit_vars_into_u16() {
    let a : u16 = 0;
    let b : u8  = 3;
    assert_eq!(a.set(1, 2, b).unwrap(), 0b0110_0000_0000_0000);

    let a : u16 = 0b0110_0011_0000_0110;
    let b : u8  = 0b0000_0010;
    assert_eq!(a.set(5, 2, b).unwrap(), 0b0110_0101_0000_0110);

    // Use a big bit_offset
    assert_eq!(a.set(12, 2, b).unwrap(), 0b0110_0011_0000_1010);

    // You cannot insert 18 bits into an u16
    match a.set(5, 18, b) {
        Ok(_)  => panic!("The range check failed to detect invalid length"),
        Err(e) => assert_eq!(e, BitError::LengthTooBigForTargetType(IntType::U16)),
    }

    // start + length must not exceed 16 bit (size of u16)
    match a.set(5, 15, b) {
        Ok(_)  => panic!("The range check failed to detect invalid range"),
        Err(e) => assert_eq!(e, BitError::OutOfRange),
    }

    // The _length_ parameter must not be smaller than the number of bits,
    // which is required to represent _value_
    let b : u8 = 5;
    match a.set(5, 2, b) {
        Ok(_)  => panic!("The range check failed to detect invalid range"),
        Err(e) => assert_eq!(e, BitError::ValueTooWide { value: 5, signed: false, length: 2, required: 3 }),
    }

    // b as positive signed integer
    let b : i8 =  0b0000_0010;
    assert_eq!(a.set(5, 2, b).unwrap(), 0b0110_0101_0000_0110);

    // b as negative signed integer
    // the pattern of -2 ends in ...10
    let b : i8 = -2;
    assert_eq!(  0b1111_1110 as u8 as i8, b);
    assert_eq!(a.set(5, 2, b).unwrap(), 0b0110_0101_0000_0110);

    // Use a big bit_offset
    assert_eq!(a.set(12, 2, b).unwrap(), 0b0110_0011_0000_1010);

    // You cannot insert 18 bits into an u16
    match a.set(5, 18, b) {
        Ok(_) => panic!("The range check failed to detect invalid length"),
        Err(e) => assert_eq!(e, BitError::LengthTooBigForTargetType(IntType::U16)),
    }

    // start + length must not exceed 16 bit (size of u16)
    match a.set(5, 15, b) {
        Ok(_) => panic!("The range check failed to detect invalid range"),
        Err(e) => assert_eq!(e, BitError::OutOfRange),
    }

    // The _length_ parameter must not be smaller than the number of bits,
    // which is required to represent _value_
    let b = -5;
    match a.set(5, 2, b) {
        Ok(_) => panic!("The range check failed to detect invalid range"),
        Err(e) => assert_eq!(e, BitError::ValueTooWide { value: -5, signed: true, length: 2, required: 4 }),
    }
}

#[test]
fn inserting_8_bit_vars_into_u32() {
    let a : u32 = 0;
    let b : u8  = 3;
    assert_eq!(a.set(1, 2, b).unwrap(), 0b0110_0000_0000_0000_0000_0000_0000_0000);

    let a : u32 = 0b0110_0011_0000_0110_0110_0011_0000_0110;
    let b : u8  = 0b0000_0010;
    assert_eq!(a.set(5, 2, b).unwrap(), 0b0110_0101_0000_0110_0110_0011_0000_0110);

    // Use a big bit_offset
    assert_eq!(a.set(28, 2, b).unwrap(), 0b0110_0011_0000_0110_0110_0011_0000_1010);

    // You cannot insert 40 bits into an u32
    match a.set(5, 40, b) {
        Ok(_)  => panic!("The range check failed to detect invalid length"),
        Err(e) => assert_eq!(e, BitError::LengthTooBigForTargetType(IntType::U32)),
    }

    // start + length must not exceed 32 bit (size of u32)
    match a.set(5, 30, b) {
        Ok(_)  => panic!("The range check failed to detect invalid range"),
        Err(e) => assert_eq!(e, BitError::OutOfRange),
    }

    // The _length_ parameter must not be smaller than the number of bits,
    // which is required to represent _value_
    let b : u8 = 5;
    match a.set(5, 2, b) {
        Ok(_)  => panic!("The range check failed to detect invalid range"),
        Err(e) => assert_eq!(e, BitError::ValueTooWide { value: 5, signed: false, length: 2, required: 3 }),
    }

    // b as positive signed integer
    let b : i8 =  0b0000_0010;
    assert_eq!(a.set(5, 2, b).unwrap(), 0b0110_0101_0000_0110_0110_0011_0000_0110);

    // b as negative signed integer
    // the pattern of -2 ends in ...10
    let b : i8 = -2;
    assert_eq!(  0b1111_1110 as u8 as i8, b);
    assert_eq!(a.set(5, 2, b).unwrap(), 0b0110_0101_0000_0110_0110_0011_0000_0110);

    // Use a big bit_offset
    assert_eq!(a.set(28, 2, b).unwrap(), 0b0110_0011_0000_0110_0110_0011_0000_1010);

    // You cannot insert 40 bits into an u32
    match a.set(5, 40, b) {
        Ok(_) => panic!("The range check failed to detect invalid length"),
        Err(e) => assert_eq!(e, BitError::LengthTooBigForTargetType(IntType::U32)),
    }

    // start + length must not exceed 32 bit (size of u32)
    match a.set(5, 30, b) {
        Ok(_) => panic!("The range check failed to detect invalid range"),
        Err(e) => assert_eq!(e, BitError::OutOfRange),
    }

    // The _length_ parameter must not be smaller than the number of bits,
    // which is required to represent _value_
    let b = -5;
    match a.set(5, 2, b) {
        Ok(_) => panic!("The range check failed to detect invalid range"),
        Err(e) => assert_eq!(e, BitError::ValueTooWide { value: -5, signed: true, length: 2, required: 4 }),
    }
}

#[test]
fn inserting_8_bit_vars_into_u64() {
    let a : u64 = 0;
    let b : u8  = 3;
    assert_eq!(a.set(1, 2, b).unwrap(), 0b0110_0000_0000_0000_0000_0000_0000_0000_0000_0000_0000_0000_0000_0000_0000_0000);

    let a : u64 = 0b0110_0011_0000_0110_0110_0011_0000_0110_0000_0000_0000_0000_0000_0000_0000_0000;
    let b : u8  = 0b0000_0010;
    assert_eq!(a.set(5, 2, b).unwrap(), 0b0110_0101_0000_0110_0110_0011_0000_0110_0000_0000_0000_0000_0000_0000_0000_0000);

    // Use a big bit_offset
    assert_eq!(a.set(60, 2, b).unwrap(), 0b0110_0011_0000_0110_0110_0011_0000_0110_0000_0000_0000_0000_0000_0000_0000_1000);

    // You cannot insert 80 bits into an u64
    match a.set(5, 80, b) {
        Ok(_)  => panic!("The range check failed to detect invalid length"),
        Err(e) => assert_eq!(e, BitError::LengthTooBigForTargetType(IntType::U64)),
    }

    // start + length must not exceed 64 bit (size of u64)
    match a.set(5, 60, b) {
        Ok(_)  => panic!("The range check failed to detect invalid range"),
        Err(e) => assert_eq!(e, BitError::OutOfRange),
    }

    // The _length_ parameter must not be smaller than the number of bits,
    // which is required to represent _value_
    let b : u8 = 5;
    match a.set(5, 2, b) {
        Ok(_)  => panic!("The range check failed to detect invalid range"),
        Err(e) => assert_eq!(e, BitError::ValueTooWide { value: 5, signed: false, length: 2, required: 3 }),
    }

    // b as positive signed integer
    let b : i8 =  0b0000_0010;
    assert_eq!(a.set(5, 2, b).unwrap(), 0b0110_0101_0000_0110_0110_0011_0000_0110_0000_0000_0000_0000_0000_0000_0000_0000);

    // b as negative signed integer
    // the pattern of -2 ends in ...10
    let b : i8 = -2;
    assert_eq!(  0b1111_1110 as u8 as i8, b);
    assert_eq!(a.set(5, 2, b).unwrap(), 0b0110_0101_0000_0110_0110_0011_0000_0110_0000_0000_0000_0000_0000_0000_0000_0000);

    // Use a big bit_offset
    assert_eq!(a.set(60, 2, b).unwrap(), 0b0110_0011_0000_0110_0110_0011_0000_0110_0000_0000_0000_0000_0000_0000_0000_1000);

    // You cannot insert 80 bits into an u64
    match a.set(5, 80, b) {
        Ok(_) => panic!("The range check failed to detect invalid length"),
        Err(e) => assert_eq!(e, BitError::LengthTooBigForTargetType(IntType::U64)),
    }

    // start + length must not exceed 64 bit (size of u64)
    match a.set(5, 60, b) {
        Ok(_) => panic!("The range check failed to detect invalid range"),
        Err(e) => assert_eq!(e, BitError::OutOfRange),
    }

    // The _length_ parameter must not be smaller than the number of bits,
    // which is required to represent _value_
    let b = -5;
    match a.set(5, 2, b) {
        Ok(_) => panic!("The range check failed to detect invalid range"),
        Err(e) => assert_eq!(e, BitError::ValueTooWide { value: -5, signed: true, length: 2, required: 4 }),
    }
}

#[test]
fn inserting_16_bit_vars_into_u8() {
    let a : u8 = 0;
    let b : u16 = 3;
    assert_eq!(a.set(1, 2, b).unwrap(), 0b0110_0000);

    let a : u8 = 0b0110_0011;
    let b : u16 = 0b0000_0000_0000_0010;
    assert_eq!(a.set(5, 2, b).unwrap(), 0b0110_0101);

    // You cannot insert 9 bits into an u8
    match a.set(5, 9, b) {
        Ok(_) => panic!("The range check failed to detect invalid length"),
        Err(e) => assert_eq!(e, BitError::LengthTooBigForTargetType(IntType::U8)),
    }

    // start + length must not exceed 8 bit (size of u8)
    match a.set(5, 8, b) {
        Ok(_) => panic!("The range check failed to detect invalid range"),
        Err(e) => assert_eq!(e, BitError::OutOfRange),
    }

    // b as positive signed integer
    let a : u8 = 0b0110_0011;
    let b : i16 = 0b0000_0000_0000_0010;
    assert_eq!(a.set(5, 2, b).unwrap(), 0b0110_0101);

    // b as negative signed integer
    // the pattern of -2 ends in ...10
    let b : i16 = -2;
    assert_eq!(  0b1111_1111_1111_1110 as u16 as i16, b);
    assert_eq!(a.set(5, 2, b).unwrap(), 0b0110_0101);

    // You cannot insert 9 bits into an u8
    match a.set(5, 9, b) {
        Ok(_) => panic!("The range check failed to detect invalid length"),
        Err(e) => assert_eq!(e, BitError::LengthTooBigForTargetType(IntType::U8)),
    }

    // start + length must not exceed 8 bit (size of u8)
    match a.set(5, 8, b) {
        Ok(_) => panic!("The range check failed to detect invalid range"),
        Err(e) => assert_eq!(e, BitError::OutOfRange),
    }
}

#[test]
fn inserting_16_bit_vars_into_u16() {
    let a : u16 = 0;
    let b : u16 = 3;
    assert_eq!(a.set(1, 2, b).unwrap(), 0b0110_0000_0000_0000);

    let a : u16 = 0b0110_0011_0000_1110;
    let b : u16 = 0b0000_0000_0000_0010;
    assert_eq!(a.set(5, 2, b).unwrap(), 0b0110_0101_0000_1110);

    // Use a big bit_offset
    assert_eq!(a.set(12, 2, b).unwrap(), 0b0110_0011_0000_1010);

    // You cannot insert 18 bits into an u16
    match a.set(5, 18, b) {
        Ok(_) => panic!("The range check failed to detect invalid length"),
        Err(e) => assert_eq!(e, BitError::LengthTooBigForTargetType(IntType::U16)),
    }

    // start + length must not exceed 16 bit (size of u16)
    match a.set(5, 15, b) {
        Ok(_) => panic!("The range check failed to detect invalid range"),
        Err(e) => assert_eq!(e, BitError::OutOfRange),
    }

    // b as positive signed integer
    let b : i16 = 0b0000_0000_0000_0010;
    assert_eq!(a.set(5, 2, b).unwrap(), 0b0110_0101_0000_1110);

    // b as negative signed integer
    // the pattern of -2 ends in ...10
    let b : i16 = -2;
    assert_eq!(  0b1111_1111_1111_1110 as u16 as i16, b);
    assert_eq!(a.set(5, 2, b).unwrap(), 0b0110_0101_0000_1110);

    // Use a big bit_offset
    assert_eq!(a.set(12, 2, b).unwrap(), 0b0110_0011_0000_1010);

    // You cannot insert 18 bits into an u16
    match a.set(5, 18, b) {
        Ok(_) => panic!("The range check failed to detect invalid length"),
        Err(e) => assert_eq!(e, BitError::LengthTooBigForTargetType(IntType::U16)),
    }

    // start + length must not exceed 16 bit (size of u16)
    match a.set(5, 15, b) {
        Ok(_) => panic!("The range check failed to detect invalid range"),
        Err(e) => assert_eq!(e, BitError::OutOfRange),
    }
}

#[test]
fn inserting_16_bit_vars_into_u32() {
    let a : u32 = 0;
    let b : u16 = 3;
    assert_eq!(a.set(1, 2, b).unwrap(), 0b0110_0000_0000_0000_0000_0000_0000_0000);

    let a : u32 = 0b0110_0011_0000_1110_0000_0000_0000_0000;
    let b : u16 = 0b0000_0000_0000_0010;
    assert_eq!(a.set(5, 2, b).unwrap(), 0b0110_0101_0000_1110_0000_0000_0000_0000);

    // Use a big bit_offset
    assert_eq!(a.set(28, 2, b).unwrap(), 0b0110_0011_0000_1110_0000_0000_0000_1000);

    // You cannot insert 40 bits into an u32
    match a.set(5, 40, b) {
        Ok(_) => panic!("The range check failed to detect invalid length"),
        Err(e) => assert_eq!(e, BitError::LengthTooBigForTargetType(IntType::U32)),
    }

    // start + length must not exceed 32 bit (size of u32)
    match a.set(5, 30, b) {
        Ok(_) => panic!("The range check failed to detect invalid range"),
        Err(e) => assert_eq!(e, BitError::OutOfRange),
    }

    // b as positive signed integer
    let b : i16 = 0b0000_0000_0000_0010;
    assert_eq!(a.set(5, 2, b).unwrap(), 0b0110_0101_0000_1110_0000_0000_0000_0000);

    // b as negative signed integer
    // the pattern of -2 ends in ...10
    let b : i16 = -2;
    assert_eq!(  0b1111_1111_1111_1110 as u16 as i16, b);
    assert_eq!(a.set(5, 2, b).unwrap(), 0b0110_0101_0000_1110_0000_0000_0000_0000);

    // Use a big bit_offset
    assert_eq!(a.set(28, 2, b).unwrap(), 0b0110_0011_0000_1110_0000_0000_0000_1000);

    // You cannot insert 40 bits into an u32
    match a.set(5, 40, b) {
        Ok(_) => panic!("The range check failed to detect invalid length"),
        Err(e) => assert_eq!(e, BitError::LengthTooBigForTargetType(IntType::U32)),
    }

    // start + length must not exceed 32 bit (size of u32)
    match a.set(5, 30, b) {
        Ok(_) => panic!("The range check failed to detect invalid range"),
        Err(e) => assert_eq!(e, BitError::OutOfRange),
    }
}

#[test]
fn inserting_16_bit_vars_into_u64() {
    let a : u64 = 0;
    let b : u16 = 3;
    assert_eq!(a.set(1, 2, b).unwrap(), 0b0110_0000_0000_0000_0000_0000_0000_0000_0000_0000_0000_0000_0000_0000_0000_0000);

    let a : u64 = 0b0110_0011_0000_1110_0000_0000_0000_0000_0000_0000_0000_0000_0000_0000_0000_0000;
    let b : u16 = 0b0000_0000_0000_0010;
    assert_eq!(a.set(5, 2, b).unwrap(), 0b0110_0101_0000_1110_0000_0000_0000_0000_0000_0000_0000_0000_0000_0000_0000_0000);

    // Use a big bit_offset
    assert_eq!(a.set(60, 2, b).unwrap(), 0b0110_0011_0000_1110_0000_0000_0000_0000_0000_0000_0000_0000_0000_0000_0000_1000);

    // You cannot insert 80 bits into an u64
    match a.set(5, 80, b) {
        Ok(_) => panic!("The range check failed to detect invalid length"),
        Err(e) => assert_eq!(e, BitError::LengthTooBigForTargetType(IntType::U64)),
    }

    // start + length must not exceed 64 bit (size of u64)
    match a.set(5, 60, b) {
        Ok(_) => panic!("The range check failed to detect invalid range"),
        Err(e) => assert_eq!(e, BitError::OutOfRange),
    }

    // b as positive signed integer
    let b : i16 = 0b0000_0000_0000_0010;
    assert_eq!(a.set(5, 2, b).unwrap(), 0b0110_0101_0000_1110_0000_0000_0000_0000_0000_0000_0000_0000_0000_0000_0000_0000);

    // b as negative signed integer
    // the pattern of -2 ends in ...10
    let b : i16 = -2;
    assert_eq!(  0b1111_1111_1111_1110 as u16 as i16, b);
    assert_eq!(a.set(5, 2, b).unwrap(), 0b0110_0101_0000_1110_0000_0000_0000_0000_0000_0000_0000_0000_0000_0000_0000_0000);

    // Use a big bit_offset
    assert_eq!(a.set(60, 2, b).unwrap(), 0b0110_0011_0000_1110_0000_0000_0000_0000_0000_0000_0000_0000_0000_0000_0000_1000);

    // You cannot insert 80 bits into an u64
    match a.set(5, 80, b) {
        Ok(_) => panic!("The range check failed to detect invalid length"),
        Err(e) => assert_eq!(e, BitError::LengthTooBigForTargetType(IntType::U64)),
    }

    // start + length must not exceed 64 bit (size of u64)
    match a.set(5, 60, b) {
        Ok(_) => panic!("The range check failed to detect invalid range"),
        Err(e) => assert_eq!(e, BitError::OutOfRange),
    }
}

#[test]
fn inserting_32_bit_vars_into_u8() {
    let a : u8 = 0;
    let b : u32 = 3;
    assert_eq!(a.set(1, 2, b).unwrap(), 0b0110_0000);

    let a : u8 = 0b0110_0011;
    let b : u32 = 0b0000_0000_0000_0010;
    assert_eq!(a.set(5, 2, b).unwrap(), 0b0110_0101);

    // You cannot insert 9 bits into an u8
    match a.set(5, 9, b) {
        Ok(_) => panic!("The range check failed to detect invalid length"),
        Err(e) => assert_eq!(e, BitError::LengthTooBigForTargetType(IntType::U8)),
    }

    // start + length must not exceed 8 bit (size of u8)
    match a.set(5, 8, b) {
        Ok(_) => panic!("The range check failed to detect invalid range"),
        Err(e) => assert_eq!(e, BitError::OutOfRange),
    }

    // b as positive signed integer
    let a : u8 = 0b0110_0011;
    let b : i32 = 0b0000_0000_0000_0000_0000_0000_0000_0010;
    assert_eq!(a.set(5, 2, b).unwrap(), 0b0110_0101);

    // b as negative signed integer
    // the pattern of -2 ends in ...10
    let b : i32 = -2;
    assert_eq!(  0b1111_1111_1111_1111_1111_1111_1111_1110 as u32 as i32, b);
    assert_eq!(a.set(5, 2, b).unwrap(), 0b0110_0101);

    // You cannot insert 9 bits into an u8
    match a.set(5, 9, b) {
        Ok(_) => panic!("The range check failed to detect invalid length"),
        Err(e) => assert_eq!(e, BitError::LengthTooBigForTargetType(IntType::U8)),
    }

    // start + length must not exceed 8 bit (size of u8)
    match a.set(5, 8, b) {
        Ok(_) => panic!("The range check failed to detect invalid range"),
        Err(e) => assert_eq!(e, BitError::OutOfRange),
    }
}

#[test]
fn inserting_32_bit_vars_into_u16() {
    let a : u16 = 0;
    let b : u32 = 3;
    assert_eq!(a.set(1, 2, b).unwrap(), 0b0110_0000_0000_0000);

    let a : u16 = 0b0000_0000_0110_0011;
    let b : u32 = 2;
    assert_eq!(a.set(5, 2, b).unwrap(), 0b0000_0100_0110_0011);

    // Use a big bit_offset
    assert_eq!(a.set(12, 2, b).unwrap(), 0b0000_0000_0110_1011);

    // You cannot insert 18 bits into an u16
    match a.set(5, 18, b) {
        Ok(_) => panic!("The range check failed to detect invalid length"),
        Err(e) => assert_eq!(e, BitError::LengthTooBigForTargetType(IntType::U16)),
    }

    // start + length must not exceed 16 bit (size of u16)
    match a.set(5, 15, b) {
        Ok(_) => panic!("The range check failed to detect invalid range"),
        Err(e) => assert_eq!(e, BitError::OutOfRange),
    }

    // b as positive signed integer
    let b : i32 = 2;
    assert_eq!(a.set(5, 2, b).unwrap(), 0b0000_0100_0110_0011);

    // b as negative signed integer
    // the pattern of -2 ends in ...10
    let b : i32 = -2;
    assert_eq!(  0b1111_1111_1111_1111_1111_1111_1111_1110 as u32 as i32, b);
    assert_eq!(a.set(5, 2, b).unwrap(), 0b0000_0100_0110_0011);

    // Use a big bit_offset
    assert_eq!(a.set(12, 2, b).unwrap(), 0b0000_0000_0110_1011);

    // You cannot insert 18 bits into an u16
    match a.set(5, 18, b) {
        Ok(_) => panic!("The range check failed to detect invalid length"),
        Err(e) => assert_eq!(e, BitError::LengthTooBigForTargetType(IntType::U16)),
    }

    // start + length must not exceed 16 bit (size of u16)
    match a.set(5, 15, b) {
        Ok(_) => panic!("The range check failed to detect invalid range"),
        Err(e) => assert_eq!(e, BitError::OutOfRange),
    }
}

#[test]
fn inserting_32_bit_vars_into_u32() {
    let a : u32 = 0;
    let b : u32 = 3;
    assert_eq!(a.set(1, 2, b).unwrap(), 0b0110_0000_0000_0000_0000_0000_0000_0000);

    let a : u32 = 0b0000_0000_0110_0011_0000_0000_0000_0000;
    let b : u32 = 2;
    assert_eq!(a.set(5, 2, b).unwrap(), 0b0000_0100_0110_0011_0000_0000_0000_0000);

    // Use a big bit_offset
    assert_eq!(a.set(28, 2, b).unwrap(), 0b0000_0000_0110_0011_0000_0000_0000_1000);

    // You cannot insert 40 bits into an u32
    match a.set(5, 40, b) {
        Ok(_) => panic!("The range check failed to detect invalid length"),
        Err(e) => assert_eq!(e, BitError::LengthTooBigForTargetType(IntType::U32)),
    }

    // start + length must not exceed 32 bit (size of u32)
    match a.set(5, 30, b) {
        Ok(_) => panic!("The range check failed to detect invalid range"),
        Err(e) => assert_eq!(e, BitError::OutOfRange),
    }

    // b as positive signed integer
    let b : i32 = 2;
    assert_eq!(a.set(5, 2, b).unwrap(), 0b0000_0100_0110_0011_0000_0000_0000_0000);

    // b as negative signed integer
    // the pattern of -2 ends in ...10
    let b : i32 = -2;
    assert_eq!(  0b1111_1111_1111_1111_1111_1111_1111_1110 as u32 as i32, b);
    assert_eq!(a.set(5, 2, b).unwrap(), 0b0000_0100_0110_0011_0000_0000_0000_0000);

    // Use a big bit_offset
    assert_eq!(a.set(28, 2, b).unwrap(), 0b0000_0000_0110_0011_0000_0000_0000_1000);

    // You cannot insert 40 bits into an u32
    match a.set(5, 40, b) {
        Ok(_) => panic!("The range check failed to detect invalid length"),
        Err(e) => assert_eq!(e, BitError::LengthTooBigForTargetType(IntType::U32)),
    }

    // start + length must not exceed 32 bit (size of u32)
    match a.set(5, 30, b) {
        Ok(_) => panic!("The range check failed to detect invalid range"),
        Err(e) => assert_eq!(e, BitError::OutOfRange),
    }
}

#[test]
fn inserting_32_bit_vars_into_u64() {
    let a : u64 = 0;
    let b : u32 = 3;
    assert_eq!(a.set(1, 2, b).unwrap(), 0b0110_0000_0000_0000_0000_0000_0000_0000_0000_0000_0000_0000_0000_0000_0000_0000);

    let a : u64 = 0b0000_0000_0110_0011_0000_0000_0000_0000_0000_0000_0000_0000_0000_0000_0000_0000;
    let b : u32 = 2;
    assert_eq!(a.set(5, 2, b).unwrap(), 0b0000_0100_0110_0011_0000_0000_0000_0000_0000_0000_0000_0000_0000_0000_0000_0000);

    // Use a big bit_offset
    assert_eq!(a.set(60, 2, b).unwrap(), 0b0000_0000_0110_0011_0000_0000_0000_0000_0000_0000_0000_0000_0000_0000_0000_1000);

    // You cannot insert 80 bits into an u64
    match a.set(5, 80, b) {
        Ok(_) => panic!("The range check failed to detect invalid length"),
        Err(e) => assert_eq!(e, BitError::LengthTooBigForTargetType(IntType::U64)),
    }

    // start + length must not exceed 64 bit (size of u64)
    match a.set(5, 60, b) {
        Ok(_) => panic!("The range check failed to detect invalid range"),
        Err(e) => assert_eq!(e, BitError::OutOfRange),
    }

    // b as positive signed integer
    let b : i32 = 2;
    assert_eq!(a.set(5, 2, b).unwrap(), 0b0000_0100_0110_0011_0000_0000_0000_0000_0000_0000_0000_0000_0000_0000_0000_0000);

    // b as negative signed integer
    // the pattern of -2 ends in ...10
    let b : i32 = -2;
    assert_eq!(  0b1111_1111_1111_1111_1111_1111_1111_1110 as u32 as i32, b);
    assert_eq!(a.set(5, 2, b).unwrap(), 0b0000_0100_0110_0011_0000_0000_0000_0000_0000_0000_0000_0000_0000_0000_0000_0000);

    // Use a big bit_offset
    assert_eq!(a.set(60, 2, b).unwrap(), 0b0000_0000_0110_0011_0000_0000_0000_0000_0000_0000_0000_0000_0000_0000_0000_1000);

    // You cannot insert 80 bits into an u64
    match a.set(5, 80, b) {
        Ok(_) => panic!("The range check failed to detect invalid length"),
        Err(e) => assert_eq!(e, BitError::LengthTooBigForTargetType(IntType::U64)),
    }

    // start + length must not exceed 64 bit (size of u64)
    match a.set(5, 60, b) {
        Ok(_) => panic!("The range check failed to detect invalid range"),
        Err(e) => assert_eq!(e, BitError::OutOfRange),
    }
}

#[test]
fn inserting_64_bit_vars_into_u8() {
    let a : u8 = 0;
    let b : u64 = 3;
    assert_eq!(a.set(1, 2, b).unwrap(), 0b0110_0000);

    let a : u8 = 0b0110_0011;
    let b : u64 = 0b0000_0000_0000_0000_0000_0000_0000_0000_0000_0000_0000_0000_0000_0000_0000_0010;
    assert_eq!(a.set(5, 2, b).unwrap(), 0b0110_0101);

    // You cannot insert 9 bits into an u8
    match a.set(5, 9, b) {
        Ok(_) => panic!("The range check failed to detect invalid length"),
        Err(e) => assert_eq!(e, BitError::LengthTooBigForTargetType(IntType::U8)),
    }

    // start + length must not exceed 8 bit (size of u8)
    match a.set(5, 8, b) {
        Ok(_) => panic!("The range check failed to detect invalid range"),
        Err(e) => assert_eq!(e, BitError::OutOfRange),
    }

    // b as positive signed integer
    let b : i64 = 0b0000_0000_0000_0000_0000_0000_0000_0000_0000_0000_0000_0000_0000_0000_0000_0010;
    assert_eq!(a.set(5, 2, b).unwrap(), 0b0110_0101);

    // b as negative signed integer
    // the pattern of -2 ends in ...10
    let b : i64 = -2;
    assert_eq!(  0b1111_1111_1111_1111_1111_1111_1111_1111_1111_1111_1111_1111_1111_1111_1111_1110 as u64 as i64, b);
    assert_eq!(a.set(5, 2, b).unwrap(), 0b0110_0101);

    // You cannot insert 9 bits into an u8
    match a.set(5, 9, b) {
        Ok(_) => panic!("The range check failed to detect invalid length"),
        Err(e) => assert_eq!(e, BitError::LengthTooBigForTargetType(IntType::U8)),
    }

    // start + length must not exceed 8 bit (size of u8)
    match a.set(5, 8, b) {
        Ok(_) => panic!("The range check failed to detect invalid range"),
        Err(e) => assert_eq!(e, BitError::OutOfRange),
    }
}

#[test]
fn inserting_64_bit_vars_into_u16() {
    let a : u16 = 0;
    let b : u64 = 3;
    assert_eq!(a.set(1, 2, b).unwrap(), 0b0110_0000_0000_0000);

    let a : u16 = 0b0000_0000_0110_0011;
    let b : u64 = 0b0000_0000_0000_0000_0000_0000_0000_0000_0000_0000_0000_0000_0000_0000_0000_0010;
    assert_eq!(a.set(5, 2, b).unwrap(), 0b0000_0100_0110_0011);

    // Use a big bit_offset
    assert_eq!(a.set(12, 2, b).unwrap(), 0b0000_0000_0110_1011);

    // You cannot insert 18 bits into an u16
    match a.set(5, 18, b) {
        Ok(_) => panic!("The range check failed to detect invalid length"),
        Err(e) => assert_eq!(e, BitError::LengthTooBigForTargetType(IntType::U16)),
    }

    // start + length must not exceed 16 bit (size of u16)
    match a.set(5, 15, b) {
        Ok(_) => panic!("The range check failed to detect invalid range"),
        Err(e) => assert_eq!(e, BitError::OutOfRange),
    }

    // b as positive signed integer
    let b : i64 = 0b0000_0000_0000_0000_0000_0000_0000_0000_0000_0000_0000_0000_0000_0000_0000_0010;
    assert_eq!(a.set(5, 2, b).unwrap(), 0b0000_0100_0110_0011);

    // b as negative signed integer
    // the pattern of -2 ends in ...10
    let b : i64 = -2;
    assert_eq!(  0b1111_1111_1111_1111_1111_1111_1111_1111_1111_1111_1111_1111_1111_1111_1111_1110 as u64 as i64, b);
    assert_eq!(a.set(5, 2, b).unwrap(), 0b0000_0100_0110_0011);

    // Use a big bit_offset
    assert_eq!(a.set(12, 2, b).unwrap(), 0b0000_0000_0110_1011);

    // You cannot insert 18 bits into an u16
    match a.set(5, 18, b) {
        Ok(_) => panic!("The range check failed to detect invalid length"),
        Err(e) => assert_eq!(e, BitError::LengthTooBigForTargetType(IntType::U16)),
    }

    // start + length must not exceed 16 bit (size of u16)
    match a.set(5, 15, b) {
        Ok(_) => panic!("The range check failed to detect invalid range"),
        Err(e) => assert_eq!(e, BitError::OutOfRange),
    }
}

#[test]
fn inserting_64_bit_vars_into_u32() {
    let a : u32 = 0;
    let b : u64 = 3;
    assert_eq!(a.set(1, 2, b).unwrap(), 0b0110_0000_0000_0000_0000_0000_0000_0000);

    let a : u32 = 0b0000_0000_0110_0011_0000_0000_0000_0000;
    let b : u64 = 0b0000_0000_0000_0000_0000_0000_0000_0000_0000_0000_0000_0000_0000_0000_0000_0010;
    assert_eq!(a.set(5, 2, b).unwrap(), 0b0000_0100_0110_0011_0000_0000_0000_0000);

    // Use a big bit_offset
    assert_eq!(a.set(28, 2, b).unwrap(), 0b0000_0000_0110_0011_0000_0000_0000_1000);

    // You cannot insert 40 bits into an u32
    match a.set(5, 40, b) {
        Ok(_) => panic!("The range check failed to detect invalid length"),
        Err(e) => assert_eq!(e, BitError::LengthTooBigForTargetType(IntType::U32)),
    }

    // start + length must not exceed 32 bit (size of u32)
    match a.set(5, 30, b) {
        Ok(_) => panic!("The range check failed to detect invalid range"),
        Err(e) => assert_eq!(e, BitError::OutOfRange),
    }

    // b as positive signed integer
    let b : i64 = 0b0000_0000_0000_0000_0000_0000_0000_0000_0000_0000_0000_0000_0000_0000_0000_0010;
    assert_eq!(a.set(5, 2, b).unwrap(), 0b0000_0100_0110_0011_0000_0000_0000_0000);

    // b as negative signed integer
    // the pattern of -2 ends in ...10
    let b : i64 = -2;
    assert_eq!(  0b1111_1111_1111_1111_1111_1111_1111_1111_1111_1111_1111_1111_1111_1111_1111_1110 as u64 as i64, b);
    assert_eq!(a.set(5, 2, b).unwrap(), 0b0000_0100_0110_0011_0000_0000_0000_0000);

    // Use a big bit_offset
    assert_eq!(a.set(28, 2, b).unwrap(), 0b0000_0000_0110_0011_0000_0000_0000_1000);

    // You cannot insert 40 bits into an u32
    match a.set(5, 40, b) {
        Ok(_) => panic!("The range check failed to detect invalid length"),
        Err(e) => assert_eq!(e, BitError::LengthTooBigForTargetType(IntType::U32)),
    }

    // start + length must not exceed 32 bit (size of u32)
    match a.set(5, 30, b) {
        Ok(_) => panic!("The range check failed to detect invalid range"),
        Err(e) => assert_eq!(e, BitError::OutOfRange),
    }
}

#[test]
fn inserting_64_bit_vars_into_u64() {
    let a : u64 = 0;
    let b : u64 = 3;
    assert_eq!(a.set(1, 2, b).unwrap(), 0b0110_0000_0000_0000_0000_0000_0000_0000_0000_0000_0000_0000_0000_0000_0000_0000);

    let a : u64 = 0b0000_0000_0110_0011_0000_0000_0000_0000_0000_0000_0000_0000_0000_0000_0110_0000;
    let b : u64 = 0b0000_0000_0000_0000_0000_0000_0000_0000_0000_0000_0000_0000_0000_0000_0000_0010;
    assert_eq!(a.set(5, 2, b).unwrap(), 0b0000_0100_0110_0011_0000_0000_0000_0000_0000_0000_0000_0000_0000_0000_0110_0000);

    // Use a big bit_offset
    assert_eq!(a.set(45, 2, b).unwrap(), 0b0000_0000_0110_0011_0000_0000_0000_0000_0000_0000_0000_0100_0000_0000_0110_0000);

    // You cannot insert 80 bits into an u64
    match a.set(5, 80, b) {
        Ok(_) => panic!("The range check failed to detect invalid length"),
        Err(e) => assert_eq!(e, BitError::LengthTooBigForTargetType(IntType::U64)),
    }

    // start + length must not exceed 64 bit (size of u64)
    match a.set(5, 60, b) {
        Ok(_) => panic!("The range check failed to detect invalid range"),
        Err(e) => assert_eq!(e, BitError::OutOfRange),
    }

    // b as positive signed integer
    let b : i64 = 0b0000_0000_0000_0000_0000_0000_0000_0000_0000_0000_0000_0000_0000_0000_0000_0010;
    assert_eq!(a.set(5, 2, b).unwrap(), 0b0000_0100_0110_0011_0000_0000_0000_0000_0000_0000_0000_0000_0000_0000_0110_0000);

    // b as negative signed integer
    // the pattern of -2 ends in ...10
    let b : i64 = -2;
    assert_eq!(  0b1111_1111_1111_1111_1111_1111_1111_1111_1111_1111_1111_1111_1111_1111_1111_1110 as u64 as i64, b);
    assert_eq!(a.set(5, 2, b).unwrap(), 0b0000_0100_0110_0011_0000_0000_0000_0000_0000_0000_0000_0000_0000_0000_0110_0000);

    // Use a big bit_offset
    assert_eq!(a.set(45, 2, b).unwrap(), 0b0000_0000_0110_0011_0000_0000_0000_0000_0000_0000_0000_0100_0000_0000_0110_0000);

    // You cannot insert 80 bits into an u64
    match a.set(5, 80, b) {
        Ok(_) => panic!("The range check failed to detect invalid length"),
        Err(e) => assert_eq!(e, BitError::LengthTooBigForTargetType(IntType::U64)),
    }

    // start + length must not exceed 64 bit (size of u64)
    match a.set(5, 60, b) {
        Ok(_) => panic!("The range check failed to detect invalid range"),
        Err(e) => assert_eq!(e, BitError::OutOfRange),
    }
}

use chip8::error::Chip8Error;
use chip8::memory::Ram;

#[test]
fn test_rws() {
    let mut r = Ram::new();

    // Make sure _all_ locations are writable
    for i in 0..4096 {
        r.write(i, (i % 255) as u8).unwrap();
        assert_eq!((i % 255) as u8, r.read(i).unwrap());
    }

    r.write(0, 69).unwrap();
    r.write(1, 42).unwrap();
    r.swap(0, 1).unwrap();

    assert_eq!(42, r.read(0).unwrap());
    assert_eq!(69, r.read(1).unwrap());
}

#[test]
fn test_read_seq() {
    let mut r = Ram::new();
    let mut v: Vec<u8> = Vec::new();
    assert_eq!(None, v.pop());

    // Initialize the memory with some known values to test that sequential
    // reads work
    for i in 0..4096 {
        r.write(i, (i % 255) as u8).unwrap();
        assert_eq!((i % 255) as u8, r.read(i).unwrap());
    }

    // Read the first 0xF bytes of r into v
    v = r.read_seq(0, 16).unwrap();

    // make sure that everything read into v is correct
    // v is popped after each read so that we can pop again after the loop
    // to make sure that we read the correct amount
    for i in (0..16).rev() {
        assert_eq!(i, v.pop().unwrap());
    }

    assert_eq!(None, v.pop());
}

#[test]
fn test_write_seq() {
    let mut r = Ram::new();
    let mut v1: Vec<u8> = Vec::new();
    let mut v2: Vec<u8> = Vec::new();
    assert!(v2.is_empty());

    // Load a mock register array to dump later
    for i in (0..16).rev() {
        v1.push(i as u8);
    }

    // Dump the mock register array
    r.write_seq(16, &mut v1).unwrap();

    // Load the dumped data into a different register array
    v2 = r.read_seq(16, 16).unwrap();

    let mut j: usize = 0;
    for i in &v1 {
        assert_eq!(*i, v2[j]);
        j += 1;
    }
}

#[test]
fn test_bcd() {
    let mut r = Ram::new();

    // Write 123 to 0x45 as BCD
    r.write_bcd(69, 123).unwrap();

    assert_eq!(1, r.read(69).unwrap());
    assert_eq!(2, r.read(70).unwrap());
    assert_eq!(3, r.read(71).unwrap());
}

#[test]
fn new_memory_is_zero() {
    let r = Ram::new();
    for i in 0..4096 {
        assert_eq!(Ok(0), r.read(i));
    }
}

#[test]
fn write_then_read_every_address_and_byte() {
    let mut r = Ram::new();
    for a in 0..4096usize {
        let v = ((a * 7 + 13) % 256) as u8;
        assert_eq!(Ok(()), r.write(a, v));
        assert_eq!(Ok(v), r.read(a));
    }
    for v in 0..=255u8 {
        assert_eq!(Ok(()), r.write(0x123, v));
        assert_eq!(Ok(v), r.read(0x123));
    }
    // A write touches no other address.
    assert_eq!(Ok(((0x122 * 7 + 13) % 256) as u8), r.read(0x122));
    assert_eq!(Ok(((0x124 * 7 + 13) % 256) as u8), r.read(0x124));
}

#[test]
fn access_past_the_end_fails() {
    let mut r = Ram::new();
    assert_eq!(Err(Chip8Error::OutOfBounds), r.read(4096));
    assert_eq!(Err(Chip8Error::OutOfBounds), r.write(4096, 1));
    assert_eq!(Err(Chip8Error::OutOfBounds), r.read(usize::MAX));
    assert_eq!(Err(Chip8Error::OutOfBounds), r.write(usize::MAX, 1));
    assert_eq!(Ok(()), r.write(4095, 9));
    assert_eq!(Ok(9), r.read(4095));
}

#[test]
fn read_seq_keeps_sixteen_bytes_in_front() {
    let mut r = Ram::new();
    for i in 0..4096 {
        r.write(i, (i % 251) as u8).unwrap();
    }
    // 4080 + 16 == 4096: the last start that is accepted.
    let tail = r.read_seq(4080, 3).unwrap();
    assert_eq!(vec![(4080 % 251) as u8, (4081 % 251) as u8, (4082 % 251) as u8], tail);
    assert_eq!(16, r.read_seq(4080, 16).unwrap().len());
    // Fewer than sixteen bytes ahead: refused, however few are asked for.
    assert_eq!(Err(Chip8Error::OutOfBounds), r.read_seq(4081, 1));
    assert_eq!(Err(Chip8Error::OutOfBounds), r.read_seq(4081, 0));
    assert_eq!(Err(Chip8Error::OutOfBounds), r.read_seq(4096, 0));
    // A byte past the end: refused.
    assert_eq!(Err(Chip8Error::OutOfBounds), r.read_seq(4080, 17));
    assert_eq!(Err(Chip8Error::OutOfBounds), r.read_seq(0, 4097));
    assert_eq!(Err(Chip8Error::OutOfBounds), r.read_seq(usize::MAX, 1));
    // The whole memory and nothing at all.
    assert_eq!(4096, r.read_seq(0, 4096).unwrap().len());
    assert_eq!(Vec::<u8>::new(), r.read_seq(100, 0).unwrap());
}

#[test]
fn write_seq_drains_back_to_front() {
    let mut r = Ram::new();
    let mut regs: Vec<u8> = vec![30, 20, 10];
    assert_eq!(Ok(()), r.write_seq(0x300, &mut regs));
    assert!(regs.is_empty());
    assert_eq!(Ok(10), r.read(0x300));
    assert_eq!(Ok(20), r.read(0x301));
    assert_eq!(Ok(30), r.read(0x302));
    assert_eq!(Ok(0), r.read(0x2FF));
    assert_eq!(Ok(0), r.read(0x303));
}

#[test]
fn write_seq_out_of_bounds_changes_nothing() {
    let mut r = Ram::new();
    let mut regs: Vec<u8> = vec![1, 2, 3];
    assert_eq!(Err(Chip8Error::OutOfBounds), r.write_seq(4094, &mut regs));
    assert_eq!(vec![1, 2, 3], regs);
    assert_eq!(Ok(0), r.read(4094));
    assert_eq!(Ok(0), r.read(4095));
    // Up to the last byte is fine.
    assert_eq!(Ok(()), r.write_seq(4093, &mut regs));
    assert_eq!(Ok(3), r.read(4093));
    assert_eq!(Ok(1), r.read(4095));
    // Nothing to write touches nothing, wherever it starts.
    let mut none: Vec<u8> = Vec::new();
    assert_eq!(Ok(()), r.write_seq(5000, &mut none));
}

#[test]
fn bcd_of_every_byte() {
    let mut r = Ram::new();
    for v in 0..=255u8 {
        assert_eq!(Ok(()), r.write_bcd(0x45, v));
        let h = r.read(0x45).unwrap();
        let t = r.read(0x46).unwrap();
        let o = r.read(0x47).unwrap();
        assert_eq!(v / 100, h);
        assert_eq!((v / 10) % 10, t);
        assert_eq!(v % 10, o);
        assert_eq!(v as u32, 100 * h as u32 + 10 * t as u32 + o as u32);
    }
    r.write_bcd(0x45, 255).unwrap();
    assert_eq!(vec![2, 5, 5], r.read_seq(0x45, 3).unwrap());
    r.write_bcd(0x45, 7).unwrap();
    assert_eq!(vec![0, 0, 7], r.read_seq(0x45, 3).unwrap());
}

#[test]
fn bcd_out_of_bounds_changes_nothing() {
    let mut r = Ram::new();
    assert_eq!(Err(Chip8Error::OutOfBounds), r.write_bcd(4094, 123));
    assert_eq!(Ok(0), r.read(4094));
    assert_eq!(Ok(0), r.read(4095));
    assert_eq!(Err(Chip8Error::OutOfBounds), r.write_bcd(4096, 123));
    assert_eq!(Err(Chip8Error::OutOfBounds), r.write_bcd(usize::MAX, 123));
    assert_eq!(Ok(()), r.write_bcd(4093, 123));
    assert_eq!(Ok(1), r.read(4093));
    assert_eq!(Ok(2), r.read(4094));
    assert_eq!(Ok(3), r.read(4095));
}

#[test]
fn swap_exchanges_or_fails() {
    let mut r = Ram::new();
    r.write(10, 1).unwrap();
    r.write(20, 2).unwrap();
    assert_eq!(Ok(()), r.swap(10, 20));
    assert_eq!(Ok(2), r.read(10));
    assert_eq!(Ok(1), r.read(20));
    assert_eq!(Ok(()), r.swap(10, 10));
    assert_eq!(Ok(2), r.read(10));
    assert_eq!(Err(Chip8Error::OutOfBounds), r.swap(10, 4096));
    assert_eq!(Err(Chip8Error::OutOfBounds), r.swap(4096, 10));
    assert_eq!(Ok(2), r.read(10));
}

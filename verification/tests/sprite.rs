use chip8::error::Chip8Error;
use chip8::sprite::Sprite;

#[test]
fn test_sprite() {
    // Create a Vec with the bits to draw a 8x8 smiley face as its contents
    let v: Vec<u8> = vec![0x00, 0x3C, 0x82, 0x66, 0x42, 0x5A, 0x3C, 0x00];
    let mut s: Sprite = Sprite::new(v, 8).unwrap();

    // Assert that the sprite loaded is correct
    // Also makes sure that Sprite::sprite.dump() is working
    assert_eq!(
        vec![0x00, 0x3C, 0x82, 0x66, 0x42, 0x5A, 0x3C, 0x00],
        s.dump()
    );

    s.read(vec![0x00, 0x01, 0x02, 0x04, 0x08, 0x10, 0x20, 0x30]);

    // Load a new sprite, make sure that it's correct
    assert_eq!(
        vec![0x00, 0x01, 0x02, 0x04, 0x08, 0x10, 0x20, 0x30],
        s.dump()
    );
}

#[test]
fn a_sprite_of_more_than_sixteen_rows_is_refused() {
    assert!(matches!(Sprite::new(vec![0; 17], 17), Err(Chip8Error::SpriteTooTall)));
    assert!(matches!(Sprite::new(vec![0; 255], 255), Err(Chip8Error::SpriteTooTall)));
    assert!(matches!(Sprite::new(Vec::new(), 17), Err(Chip8Error::SpriteTooTall)));
    assert!(Sprite::new(vec![7; 16], 16).is_ok());
    assert!(Sprite::new(vec![7; 1], 1).is_ok());
}

#[test]
fn dump_gives_the_first_height_rows() {
    let s = Sprite::new(vec![1, 2, 3, 4, 5], 3).unwrap();
    assert_eq!(vec![1, 2, 3], s.dump());
    let full = Sprite::new((1..=16).collect(), 16).unwrap();
    assert_eq!((1..=16).collect::<Vec<u8>>(), full.dump());
    let none = Sprite::new(vec![9, 9], 0).unwrap();
    assert_eq!(Vec::<u8>::new(), none.dump());
}

#[test]
fn read_keeps_the_height() {
    let mut s = Sprite::new(vec![1, 2], 2).unwrap();
    s.read(vec![10, 20, 30]);
    assert_eq!(vec![10, 20], s.dump());
}

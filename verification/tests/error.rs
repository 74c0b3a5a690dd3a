use chip8::error::Chip8Error;

#[test]
fn each_error_has_its_message() {
    assert_eq!("memory access out of bounds", Chip8Error::OutOfBounds.message());
    assert_eq!("stack overflow", Chip8Error::StackOverflow.message());
    assert_eq!("stack underflow", Chip8Error::StackUnderflow.message());
    assert_eq!("illegal opcode", Chip8Error::IllegalOpcode.message());
    assert_eq!("sprite too tall", Chip8Error::SpriteTooTall.message());
}

#[test]
fn errors_compare_by_kind() {
    assert_eq!(Chip8Error::OutOfBounds, Chip8Error::OutOfBounds);
    assert_ne!(Chip8Error::StackOverflow, Chip8Error::StackUnderflow);
    let copy = Chip8Error::IllegalOpcode;
    assert_eq!(copy, copy.clone());
}

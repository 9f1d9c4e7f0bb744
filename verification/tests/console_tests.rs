use coroutine_os::console::print_colorized;

#[test]
fn colorized_frames_text_with_escape_sequences() {
    let out = print_colorized(&b"hi".to_vec(), 93, 49);
    assert_eq!(out, b"\x1b[93m\x1b[49mhi\x1b[0m".to_vec());
}

#[test]
fn colorized_one_and_three_digit_codes() {
    let out = print_colorized(&Vec::new(), 7, 255);
    assert_eq!(out, b"\x1b[7m\x1b[255m\x1b[0m".to_vec());
    let out = print_colorized(&b"x".to_vec(), 0, 100);
    assert_eq!(out, b"\x1b[0m\x1b[100mx\x1b[0m".to_vec());
}

use typwriter::position::{byte_position_to_char_position, char_to_byte_position};

#[test]
fn test_char_to_byte_position() {
    let text = "Hello, 世界!";
    assert_eq!(char_to_byte_position(text, 0), 0);
    assert_eq!(char_to_byte_position(text, 7), 7);
    assert_eq!(char_to_byte_position(text, 8), 10);
    assert_eq!(char_to_byte_position(text, 100), text.len());
}

#[test]
fn test_byte_position_to_char_position() {
    let text = "Hello, 世界!";
    assert_eq!(byte_position_to_char_position(text, 0), 0);
    assert_eq!(byte_position_to_char_position(text, 7), 7);
    assert_eq!(byte_position_to_char_position(text, 10), 8);
}

#[test]
fn test_char_byte_position_roundtrip() {
    let text = "Hello, 世界! This is a test.";
    for char_pos in 0..text.chars().count() {
        let byte_pos = char_to_byte_position(text, char_pos);
        let back_to_char = byte_position_to_char_position(text, byte_pos);
        assert_eq!(char_pos, back_to_char);
    }
}

#[test]
fn test_empty_text_char_to_byte() {
    let text = "";
    assert_eq!(char_to_byte_position(text, 0), 0);
    assert_eq!(char_to_byte_position(text, 10), 0);
}

#[test]
fn test_empty_text_byte_to_char() {
    let text = "";
    assert_eq!(byte_position_to_char_position(text, 0), 0);
}

#[test]
fn round_trip_at_the_end_and_with_four_byte_chars() {
    let text = "a😀é€z";
    let n = text.chars().count();
    for c in 0..=n {
        let b = char_to_byte_position(text, c);
        assert_eq!(byte_position_to_char_position(text, b), c);
    }
    assert_eq!(char_to_byte_position(text, 2), 5);
    assert_eq!(char_to_byte_position(text, n), text.len());
}

#[test]
fn byte_offset_inside_a_char_counts_that_char() {
    let text = "世界";
    assert_eq!(byte_position_to_char_position(text, 1), 1);
    assert_eq!(byte_position_to_char_position(text, 3), 1);
    assert_eq!(byte_position_to_char_position(text, 4), 2);
    assert_eq!(byte_position_to_char_position(text, 100), 2);
}

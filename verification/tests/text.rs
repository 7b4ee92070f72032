use rlogg::app::FilterApp;
use rlogg::text::{align_right, decimal};

#[test]
fn numbers_are_written_in_decimal() {
    assert_eq!(decimal(0), "0");
    assert_eq!(decimal(9), "9");
    assert_eq!(decimal(10), "10");
    assert_eq!(decimal(1_234_567_890), "1234567890");
    assert_eq!(decimal(usize::MAX), format!("{}", usize::MAX));
}

#[test]
fn short_text_is_aligned_to_the_right() {
    assert_eq!(align_right("42", 6), "    42");
    assert_eq!(align_right("", 3), "   ");
    assert_eq!(align_right("123456", 6), "123456");
    assert_eq!(align_right("1234567", 6), "1234567");
    assert_eq!(align_right("\u{e4}\u{f6}", 3), " \u{e4}\u{f6}");
}

#[test]
fn white_space_around_a_note_is_dropped() {
    let mut app = FilterApp::default();
    app.store_note(3, " \t two words \n\u{3000}");
    assert_eq!(app.notes().get(&3).unwrap(), "two words");
}

#[test]
fn exactly_unicode_white_space_is_dropped() {
    let listed = |c: char| {
        matches!(
            c as u32,
            0x09..=0x0D
                | 0x20
                | 0x85
                | 0xA0
                | 0x1680
                | 0x2000..=0x200A
                | 0x2028
                | 0x2029
                | 0x202F
                | 0x205F
                | 0x3000
        )
    };
    let mut app = FilterApp::default();
    for code in 0..=0x10FFFFu32 {
        if let Some(c) = char::from_u32(code) {
            let padded = format!("{}x{}", c, c);
            app.store_note(0, &padded);
            let expected = if listed(c) { "x".to_owned() } else { padded };
            assert_eq!(app.notes().get(&0), Some(&expected));
        }
    }
}

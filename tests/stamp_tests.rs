use stamp::{to_rectangle, Stamp};

const VALID_STAMPS_LEN: usize = 12;
type ValidStamps = [&'static str; VALID_STAMPS_LEN];
const VALID_STAMPS: ValidStamps = [
    // ASCII only
    "a",
    "a\nb",
    "a\nb\nc",
    "aaa",
    "aaa\nbbb",
    "aaa\nbbb\nccc",
    // With combining characters
    "a̅",
    "a̅\nb̅",
    "a̅\nb̅\nc̅",
    "xa̅",
    "xa̅\nyb̅",
    "xa̅\nyb̅\nzc̅",
];

const INVALID_STAMPS_LEN: usize = 20;
type InvalidStamps = [&'static str; INVALID_STAMPS_LEN];
const INVALID_STAMPS: InvalidStamps = [
    // Empty
    "",
    // Missing row
    "a\n",
    "\na",
    "\nab",
    "a\n\nb",
    "ab\n",
    // Unbalanced
    "a\nbc",
    "ab\nc",
    // Unbalanced row
    "a\nbcd",
    "abc\nd",
    "abc\nd",
    "a\nb\ncd",
    "a\nbc\nd",
    "ab\nc\nd",
    "abc\nd",
    "a\nbcd",
    // With combining characters
    "a̅\nbc",
    "ab\nc̅",
    "a̅b\ncde",
    "abc\nc̅d",
];

#[test]
fn test_from_rectangle_valid() {
    for s in &VALID_STAMPS {
        let st = Stamp::from_rectangle(s);
        assert!(st.is_ok(), "Should be a valid stamp: {:?}", s);
    }
}

#[test]
fn test_from_rectangle_invalid() {
    for s in &INVALID_STAMPS {
        let st = Stamp::from_rectangle(s);
        assert!(st.is_err(), "Should not be a valid stamp: {:?}", s);
    }
}

#[test]
fn test_render() {
    for s in &VALID_STAMPS {
        let st = Stamp::from_rectangle(s).ok().unwrap();

        let out = st.render();

        assert_eq!(&out, s, "{:?} should equal {:?}", out, s);
    }
}

#[test]
fn test_layer() {
    let s1 = "oooooooooo\noooooooooo\noooooooooo\noooooooooo";
    let s2 = "xxx\nxxx";

    let st1 = Stamp::from_rectangle(s1).ok().unwrap();
    let st2 = Stamp::from_rectangle(s2).ok().unwrap();

    let out_0_0 = st1.layer(&st2, 0, 0).ok().unwrap().render();
    assert_eq!(&out_0_0, "xxxooooooo\nxxxooooooo\noooooooooo\noooooooooo");

    let out_3_1 = st1.layer(&st2, 3, 1).ok().unwrap().render();
    assert_eq!(&out_3_1, "oooooooooo\noooxxxoooo\noooxxxoooo\noooooooooo");

    let out_8_2 = st1.layer(&st2, 8, 2).ok().unwrap().render();
    assert_eq!(&out_8_2, "oooooooooo\noooooooooo\nooooooooxx\nooooooooxx");
}

#[test]
fn test_to_rectangle() {
    assert!(to_rectangle("").is_err());

    assert_eq!(to_rectangle("a").ok().unwrap(), "a");
    assert_eq!(to_rectangle("a\n").ok().unwrap(), "a\n ");
    assert_eq!(to_rectangle("\na").ok().unwrap(), " \na");
    assert_eq!(to_rectangle("\nab").ok().unwrap(), "  \nab");
    assert_eq!(to_rectangle("a\nb").ok().unwrap(), "a\nb");
    assert_eq!(to_rectangle("ab\n").ok().unwrap(), "ab\n  ");
    assert_eq!(to_rectangle("\na\nbc").ok().unwrap(), "  \na \nbc");
    assert_eq!(to_rectangle("aaa\nb\ncc").ok().unwrap(), "aaa\nb  \ncc ");
}

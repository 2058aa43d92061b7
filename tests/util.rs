use rex::rect::{Rect, RelativePos, RelativeRect, RelativeSize};
use rex::util::{is_between, iter_equals, slice_set, string_with_repeat, u4_to_hex, u8_to_hex};

#[test]
fn between_either_order() {
    assert!(is_between(2, 1, 5));
    assert!(is_between(2, 5, 1));
    assert!(!is_between(5, 1, 2));
    assert!(!is_between(1, 5, 2));
}

#[test]
fn hex_digits() {
    assert_eq!(u8_to_hex(0xab), ('a', 'b'));
    assert_eq!(u8_to_hex(0x07), ('0', '7'));
    assert_eq!(u4_to_hex(15), 'f');
}

#[test]
fn repeated_string() {
    assert_eq!(string_with_repeat('a', 5), "aaaaa");
    assert_eq!(string_with_repeat(' ', 0), "");
}

#[test]
fn slices_copy_and_compare() {
    let mut dest = [0u8; 3];
    slice_set(&mut dest, &[1, 2, 3]);
    assert_eq!(dest, [1, 2, 3]);
    assert!(iter_equals(&[1, 2], &[1, 2]));
    assert!(!iter_equals(&[1, 2], &[1, 2, 3]));
    assert!(!iter_equals(&[1, 3], &[1, 2]));
}

#[test]
fn rect_edges_and_relative_placement() {
    let rect = Rect { top: 2, left: 3, height: 5, width: 7 };
    assert_eq!(rect.bottom(), 7);
    assert_eq!(rect.right(), 10);
    let layout = RelativeRect {
        top: RelativePos::FromEnd(1),
        left: RelativePos::FromStart(0),
        width: RelativeSize::Relative(0),
        height: RelativeSize::Absolute(1),
    };
    let r = layout.get_absolute_to(Rect { top: 0, left: 0, height: 99, width: 100 });
    assert_eq!(r, Rect { top: 98, left: 0, height: 1, width: 100 });
}

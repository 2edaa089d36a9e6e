use sourcerenderer::align::{align_down, align_down_32, align_down_64, align_up, align_up_32, align_up_64};

#[test]
fn align_up_rounds_to_the_next_multiple() {
    assert_eq!(align_up(1, 256), 256);
    assert_eq!(align_up(256, 256), 256);
    assert_eq!(align_up(257, 256), 512);
    assert_eq!(align_up(0, 256), 0);
    assert_eq!(align_up(17, 0), 17);
}

#[test]
fn align_down_rounds_to_the_previous_multiple() {
    assert_eq!(align_down(255, 256), 0);
    assert_eq!(align_down(513, 256), 512);
    assert_eq!(align_down(17, 0), 17);
    assert_eq!(align_down_32(1000, 48), 960);
    assert_eq!(align_down_64(1000, 48), 960);
}

#[test]
fn align_up_32_and_64_keep_the_low_bits() {
    assert_eq!(align_up_32(5, 4), 0);
    assert_eq!(align_up_32(6, 4), 1);
    assert_eq!(align_up_32(0, 4), 0);
    assert_eq!(align_up_32(9, 0), 9);
    assert_eq!(align_up_64(5, 4), 0);
    assert_eq!(align_up_64(0, 4), 3);
    assert_eq!(align_up_64(9, 0), 9);
}

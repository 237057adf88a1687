use daedalus::input::{
    collect_input, direction, InputFrame, PlayerInputs, INPUT_DOWN, INPUT_LEFT, INPUT_RIGHT,
    INPUT_UP,
};

#[test]
fn the_four_bits() {
    assert_eq!(INPUT_UP, 1 << 0);
    assert_eq!(INPUT_DOWN, 1 << 1);
    assert_eq!(INPUT_LEFT, 1 << 2);
    assert_eq!(INPUT_RIGHT, 1 << 3);
}

#[test]
fn collect_input_of_nothing_is_zero() {
    assert_eq!(collect_input(false, false, false, false), 0);
}

#[test]
fn collect_input_of_single_keys() {
    assert_eq!(collect_input(true, false, false, false), INPUT_UP);
    assert_eq!(collect_input(false, true, false, false), INPUT_DOWN);
    assert_eq!(collect_input(false, false, true, false), INPUT_LEFT);
    assert_eq!(collect_input(false, false, false, true), INPUT_RIGHT);
}

#[test]
fn collect_input_of_up_and_left_is_a_diagonal() {
    let mask = collect_input(true, false, true, false);
    assert_eq!(mask, 5);
    assert_eq!(direction(mask), (-1, 1));
}

#[test]
fn collect_input_covers_all_sixteen_combinations() {
    let mut seen = [false; 16];
    for bits in 0..16u8 {
        let up = bits & 1 != 0;
        let down = bits & 2 != 0;
        let left = bits & 4 != 0;
        let right = bits & 8 != 0;
        let mask = collect_input(up, down, left, right);
        assert_eq!(mask, bits);
        seen[mask as usize] = true;
    }
    assert!(seen.iter().all(|s| *s));
}

#[test]
fn direction_of_each_key() {
    assert_eq!(direction(0), (0, 0));
    assert_eq!(direction(INPUT_UP), (0, 1));
    assert_eq!(direction(INPUT_DOWN), (0, -1));
    assert_eq!(direction(INPUT_LEFT), (-1, 0));
    assert_eq!(direction(INPUT_RIGHT), (1, 0));
}

#[test]
fn direction_of_opposite_keys_cancels() {
    assert_eq!(direction(INPUT_UP | INPUT_DOWN), (0, 0));
    assert_eq!(direction(INPUT_LEFT | INPUT_RIGHT), (0, 0));
    assert_eq!(direction(INPUT_UP | INPUT_DOWN | INPUT_RIGHT), (1, 0));
    assert_eq!(direction(15), (0, 0));
}

#[test]
fn direction_passes_over_the_upper_bits() {
    assert_eq!(direction(0xF0), (0, 0));
    assert_eq!(direction(0xF0 | INPUT_RIGHT | INPUT_UP), (1, 1));
}

#[test]
fn player_inputs_by_handle() {
    let inputs = PlayerInputs { first: 3, second: 9 };
    assert_eq!(inputs.get(0), 3);
    assert_eq!(inputs.get(1), 9);
}

#[test]
fn input_frames_compare_by_their_fields() {
    let a = InputFrame { frame: 7, player_handle: 1, input_mask: INPUT_LEFT };
    let b = InputFrame { frame: 7, player_handle: 1, input_mask: INPUT_LEFT };
    let c = InputFrame { frame: 8, player_handle: 1, input_mask: INPUT_LEFT };
    assert_eq!(a, b);
    assert_ne!(a, c);
}

#[test]
fn encode_puts_the_frame_lowest_byte_first() {
    let message = InputFrame { frame: 0x0A0B0C0D, player_handle: 1, input_mask: INPUT_UP | INPUT_RIGHT };
    assert_eq!(message.encode(), vec![0x0D, 0x0C, 0x0B, 0x0A, 1, 9]);
    let first = InputFrame { frame: 0, player_handle: 0, input_mask: 0 };
    assert_eq!(first.encode(), vec![0, 0, 0, 0, 0, 0]);
    let last = InputFrame { frame: u32::MAX, player_handle: 255, input_mask: 255 };
    assert_eq!(last.encode(), vec![255, 255, 255, 255, 255, 255]);
}

#[test]
fn decode_gives_back_what_was_encoded() {
    for frame in [0u32, 1, 255, 256, 65535, 65536, 16777215, 16777216, 123456789, u32::MAX] {
        for player_handle in [0u8, 1, 7] {
            let message = InputFrame { frame, player_handle, input_mask: (frame % 16) as u8 };
            assert_eq!(InputFrame::decode(&message.encode()), Some(message));
        }
    }
}

#[test]
fn decode_refuses_another_length() {
    assert_eq!(InputFrame::decode(&[]), None);
    assert_eq!(InputFrame::decode(&[1, 2, 3, 4, 5]), None);
    assert_eq!(InputFrame::decode(&[1, 2, 3, 4, 5, 6, 7]), None);
    assert_eq!(
        InputFrame::decode(&[1, 2, 3, 4, 5, 6]),
        Some(InputFrame { frame: 0x04030201, player_handle: 5, input_mask: 6 })
    );
}

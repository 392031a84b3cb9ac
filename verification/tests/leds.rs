use embedded_trials::ws2812::{led_color, led_frame, Rgb8, LED_COUNT, RES, T0H, T1H};

#[test]
fn duty_words() {
    assert_eq!(T1H, 0x800d);
    assert_eq!(T0H, 0x8006);
    assert_eq!(RES, 0x8000);
}

#[test]
fn led_colors_rotate() {
    assert_eq!(led_color(0, 0), Rgb8 { r: 0, g: 0, b: 5 });
    assert_eq!(led_color(0, 1), Rgb8 { r: 0, g: 5, b: 0 });
    assert_eq!(led_color(0, 2), Rgb8 { r: 5, g: 0, b: 0 });
    assert_eq!(led_color(1, 0), led_color(0, 1));
    assert_eq!(led_color(7, 3), led_color(4, 3));
}

fn expected_frame(cnt: usize) -> Vec<u16> {
    let mut words = vec![RES; 100];
    for i in 0..LED_COUNT {
        let (g, r, b) = match (cnt + i + 2) % 3 {
            0 => (5u8, 0u8, 0u8),
            1 => (0, 5, 0),
            _ => (0, 0, 5),
        };
        for byte in [g, r, b] {
            for k in (0..8).rev() {
                words.push(if (byte >> k) & 1 == 1 { T1H } else { T0H });
            }
        }
    }
    words
}

#[test]
fn frame_has_reset_run_then_leds() {
    let frame = led_frame(0);
    assert_eq!(frame.len(), 916);
    assert!(frame.as_slice()[..100].iter().all(|w| *w == RES));
    assert_eq!(frame.as_slice(), expected_frame(0).as_slice());
}

#[test]
fn frames_of_later_counts() {
    for cnt in [1usize, 2, 3, 1000] {
        assert_eq!(led_frame(cnt).as_slice(), expected_frame(cnt).as_slice());
    }
}

#[test]
fn first_led_of_frame_zero_is_blue() {
    // green 0, red 0, blue 5 = 0b00000101
    let frame = led_frame(0);
    let first = &frame.as_slice()[100..124];
    let mut expected = vec![T0H; 16];
    expected.extend_from_slice(&[T0H, T0H, T0H, T0H, T0H, T1H, T0H, T1H]);
    assert_eq!(first, expected.as_slice());
}

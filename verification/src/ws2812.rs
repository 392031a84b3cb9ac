//! Encoding of a WS2812 LED strip frame as PWM duty words.
//!
//! Each colour bit becomes one PWM period whose duty tells a one from a
//! zero; the frame starts with a run of reset words.
use vstd::prelude::*;
use vstd::arithmetic::power2::pow2;
use bitvec::view::BitView;
use bitvec::order::Msb0;

verus! {

/// Duty word of a one bit: 13 of 20 ticks high.
pub const T1H: u16 = 0x8000 | 13;

/// Duty word of a zero bit: 6 of 20 ticks high.
pub const T0H: u16 = 0x8000 | 6;

/// Duty word of the reset period: low throughout.
pub const RES: u16 = 0x8000;

/// Number of LEDs on the strip.
pub const LED_COUNT: usize = 34;

/// Number of reset words that open a frame.
pub const RESET_WORDS: usize = 100;

/// Capacity of the frame buffer, in words.
pub const FRAME_CAPACITY: usize = 1024;

#[verifier::external_type_specification]
#[verifier::external_body]
#[verifier::reject_recursive_types(T)]
pub struct ExFrameVec<T, const N: usize>(heapless::Vec<T, N>);

/// The words that a frame buffer holds, in order.
pub uninterp spec fn frame_words(v: heapless::Vec<u16, 1024>) -> Seq<u16>;

/// `heapless::Vec::from_slice`: a buffer holding the words of `s` when they
/// fit in its capacity, an error otherwise.
#[verifier::external_body]
fn words_from_slice(s: &[u16]) -> (r: Result<heapless::Vec<u16, 1024>, ()>)
    ensures
        r is Ok <==> s@.len() <= FRAME_CAPACITY,
        r matches Ok(v) ==> frame_words(v) == s@,
{
    heapless::Vec::from_slice(s)
}

/// `heapless::Vec::push`: appends `w` when the buffer is not full; hands `w`
/// back and leaves the buffer unchanged when it is.
#[verifier::external_body]
fn push_word(v: &mut heapless::Vec<u16, 1024>, w: u16) -> (r: Result<(), u16>)
    ensures
        r is Ok <==> frame_words(*old(v)).len() < FRAME_CAPACITY,
        r is Ok ==> frame_words(*final(v)) == frame_words(*old(v)).push(w),
        r is Err ==> r->Err_0 == w && frame_words(*final(v)) == frame_words(*old(v)),
{
    v.push(w)
}

/// Bit `i` of `b`, counted from the most significant bit.
pub open spec fn msb_bit(b: u8, i: int) -> bool {
    (b as int / pow2((7 - i) as nat) as int) % 2 == 1
}

/// `BitView::view_bits::<Msb0>` on a byte: its eight bits, most
/// significant first.
#[verifier::external_body]
fn msb0_bits(byte: u8) -> (bits: Vec<bool>)
    ensures
        bits@.len() == 8,
        forall|i: int| 0 <= i < 8 ==> bits@[i] == msb_bit(byte, i),
{
    byte.view_bits::<Msb0>().iter().by_vals().collect()
}

/// A colour as the strip takes it.
#[derive(Clone, Copy, Debug, PartialEq, Eq, Structural)]
pub struct Rgb8 {
    pub r: u8,
    pub g: u8,
    pub b: u8,
}

/// The colour of LED `i` in frame `cnt`: green, red and blue at a low level
/// take turns along the strip, and the pattern moves one LED per frame.
pub open spec fn spec_led_color(cnt: int, i: int) -> Rgb8 {
    let k = (cnt + i + 2) % 3;
    if k == 0 {
        Rgb8 { g: 5, r: 0, b: 0 }
    } else if k == 1 {
        Rgb8 { g: 0, r: 5, b: 0 }
    } else {
        Rgb8 { g: 0, r: 0, b: 5 }
    }
}

/// The colour of LED `i` in frame `cnt`.
pub fn led_color(cnt: usize, i: usize) -> (c: Rgb8)
    requires
        cnt + i + 2 <= usize::MAX,
    ensures
        c == spec_led_color(cnt as int, i as int),
{
    match (cnt + i + 2) % 3 {
        0 => Rgb8 { g: 5, r: 0, b: 0 },
        1 => Rgb8 { g: 0, r: 5, b: 0 },
        2 => Rgb8 { g: 0, r: 0, b: 5 },
        _ => Rgb8 { g: 5, r: 5, b: 5 },
    }
}

/// The duty word of one bit.
pub open spec fn bit_word(bit: bool) -> u16 {
    if bit {
        T1H
    } else {
        T0H
    }
}

/// The duty words of a byte, most significant bit first.
pub open spec fn byte_words(b: u8) -> Seq<u16> {
    Seq::new(8, |k: int| bit_word(msb_bit(b, k)))
}

/// The duty words of a colour: green, then red, then blue.
pub open spec fn color_words(c: Rgb8) -> Seq<u16> {
    byte_words(c.g) + byte_words(c.r) + byte_words(c.b)
}

/// The duty words of the first `n` LEDs of frame `cnt`.
pub open spec fn leds_words(cnt: int, n: nat) -> Seq<u16>
    decreases n,
{
    if n == 0 {
        Seq::empty()
    } else {
        leds_words(cnt, (n - 1) as nat) + color_words(spec_led_color(cnt, n - 1))
    }
}

/// The words of frame `cnt`: the reset run, then every LED in order.
pub open spec fn spec_led_frame(cnt: int) -> Seq<u16> {
    Seq::new(RESET_WORDS as nat, |k: int| RES) + leds_words(cnt, LED_COUNT as nat)
}

/// Each LED takes 24 words.
pub proof fn leds_words_len(cnt: int, n: nat)
    ensures
        leds_words(cnt, n).len() == 24 * n,
    decreases n,
{
    if n > 0 {
        leds_words_len(cnt, (n - 1) as nat);
    }
}

/// Appends the duty words of `byte` to the frame.
fn push_byte(words: &mut heapless::Vec<u16, 1024>, byte: u8)
    requires
        frame_words(*old(words)).len() + 8 <= FRAME_CAPACITY,
    ensures
        frame_words(*final(words)) == frame_words(*old(words)) + byte_words(byte),
{
    let bits = msb0_bits(byte);
    let mut k: usize = 0;
    while k < 8
        invariant
            bits@.len() == 8,
            forall|i: int| 0 <= i < 8 ==> bits@[i] == msb_bit(byte, i),
            0 <= k <= 8,
            frame_words(*old(words)).len() + 8 <= FRAME_CAPACITY,
            frame_words(*words) == frame_words(*old(words)) + byte_words(byte).take(k as int),
        decreases 8 - k,
    {
        let word = if bits[k] {
            T1H
        } else {
            T0H
        };
        push_word(words, word).unwrap();
        assert(byte_words(byte).take(k + 1) == byte_words(byte).take(k as int).push(word));
        k = k + 1;
    }
    assert(byte_words(byte).take(8) == byte_words(byte));
}

/// The frame buffer of frame `cnt`.
pub fn led_frame(cnt: usize) -> (words: heapless::Vec<u16, 1024>)
    requires
        cnt + LED_COUNT + 1 <= usize::MAX,
    ensures
        frame_words(words) == spec_led_frame(cnt as int),
{
    let mut words = words_from_slice(&[RES; 100]).unwrap();
    let mut i: usize = 0;
    while i < LED_COUNT
        invariant
            0 <= i <= LED_COUNT,
            cnt + LED_COUNT + 1 <= usize::MAX,
            frame_words(words) == Seq::new(RESET_WORDS as nat, |k: int| RES) + leds_words(
                cnt as int,
                i as nat,
            ),
        decreases LED_COUNT - i,
    {
        proof {
            leds_words_len(cnt as int, i as nat);
        }
        let color = led_color(cnt, i);
        push_byte(&mut words, color.g);
        push_byte(&mut words, color.r);
        push_byte(&mut words, color.b);
        i = i + 1;
    }
    words
}

/// A frame holds 916 words: the reset run and 24 words per LED, well within
/// the buffer's capacity.
pub proof fn frame_length(cnt: int)
    ensures
        spec_led_frame(cnt).len() == RESET_WORDS + 24 * LED_COUNT,
        spec_led_frame(cnt).len() <= FRAME_CAPACITY,
{
    leds_words_len(cnt, LED_COUNT as nat);
}

/// From one frame to the next, the pattern moves one LED along the strip.
pub proof fn pattern_moves_one_led_per_frame(cnt: int, i: int)
    requires
        cnt >= 0,
        i >= 0,
    ensures
        spec_led_color(cnt + 1, i) == spec_led_color(cnt, i + 1),
{
}

/// Every third frame shows the same colours.
pub proof fn pattern_repeats_every_third_frame(cnt: int, i: int)
    requires
        cnt >= 0,
        i >= 0,
    ensures
        spec_led_color(cnt + 3, i) == spec_led_color(cnt, i),
{
    assert((cnt + 3 + i + 2) % 3 == (cnt + i + 2) % 3);
}

/// The words of LED `i` of frame `cnt` stand at offset `100 + 24 * i` of
/// the frame.
pub proof fn led_words_position(cnt: int, i: nat)
    requires
        i < LED_COUNT,
    ensures
        spec_led_frame(cnt).subrange(RESET_WORDS + 24 * i, RESET_WORDS + 24 * i + 24)
            == color_words(spec_led_color(cnt, i as int)),
{
    leds_words_prefix(cnt, i + 1, LED_COUNT as nat);
    leds_words_len(cnt, i);
    leds_words_len(cnt, i + 1);
    leds_words_len(cnt, LED_COUNT as nat);
    let whole = spec_led_frame(cnt);
    let prefix = leds_words(cnt, (i + 1) as nat);
    assert(prefix == leds_words(cnt, i) + color_words(spec_led_color(cnt, i as int)));
    assert forall|k: int| 0 <= k < 24 implies whole.subrange(
        RESET_WORDS + 24 * i,
        RESET_WORDS + 24 * i + 24,
    )[k] == color_words(spec_led_color(cnt, i as int))[k] by {
        assert(whole[RESET_WORDS + 24 * i + k] == leds_words(cnt, LED_COUNT as nat)[24 * i + k]);
        assert(leds_words(cnt, LED_COUNT as nat)[24 * i + k] == prefix[24 * i + k]);
    }
    assert(whole.subrange(RESET_WORDS + 24 * i, RESET_WORDS + 24 * i + 24) =~= color_words(
        spec_led_color(cnt, i as int),
    ));
}

/// The words of the first `m` LEDs begin the words of the first `n`.
proof fn leds_words_prefix(cnt: int, m: nat, n: nat)
    requires
        m <= n,
    ensures
        forall|k: int| 0 <= k < leds_words(cnt, m).len() ==> #[trigger] leds_words(cnt, n)[k] == leds_words(cnt, m)[k],
        leds_words(cnt, m).len() <= leds_words(cnt, n).len(),
    decreases n - m,
{
    leds_words_len(cnt, m);
    leds_words_len(cnt, n);
    if m < n {
        leds_words_prefix(cnt, m, (n - 1) as nat);
        leds_words_len(cnt, (n - 1) as nat);
    }
}

} // verus!

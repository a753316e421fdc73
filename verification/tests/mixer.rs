use tile_platformer::mixer::{
    add_wrapping, append_packet, scale_sample, Audio, AudioError, Mixer,
};
use tile_platformer::vorbis::check_stream;
use tile_platformer::units::UNIT;

#[test]
fn a_new_mixer_plays_nothing() {
    let mut mixer = Mixer::new();
    assert_eq!(mixer.playing_count(), 0);
    let mut out = vec![5i16, -6, 7];
    mixer.poll(&mut out);
    assert_eq!(out, vec![5, -6, 7]);
    assert_eq!(Mixer::default().playing_count(), 0);
}

#[test]
fn a_sound_plays_once_and_is_taken_away() {
    let mut mixer = Mixer::new();
    let audio = Audio::new(vec![100, 200, 300]);
    assert_eq!(audio.len(), 3);
    mixer.play(&audio, UNIT, false);
    assert_eq!(mixer.playing_count(), 1);
    let mut out = vec![0i16; 2];
    mixer.poll(&mut out);
    assert_eq!(out, vec![100, 200]);
    assert_eq!(mixer.playing_count(), 1);
    let mut out = vec![1i16; 2];
    mixer.poll(&mut out);
    assert_eq!(out, vec![301, 1]);
    assert_eq!(mixer.playing_count(), 0);
}

#[test]
fn a_sound_that_ends_with_the_buffer_is_taken_away_at_once() {
    let mut mixer = Mixer::new();
    mixer.play(&Audio::new(vec![1, 2, 3]), UNIT, false);
    let mut out = vec![0i16; 3];
    mixer.poll(&mut out);
    assert_eq!(out, vec![1, 2, 3]);
    assert_eq!(mixer.playing_count(), 0);
}

#[test]
fn a_looping_sound_starts_over() {
    let mut mixer = Mixer::new();
    mixer.play(&Audio::new(vec![100, 200, 300]), UNIT, true);
    let mut out = vec![0i16; 5];
    mixer.poll(&mut out);
    assert_eq!(out, vec![100, 200, 300, 100, 200]);
    let mut out = vec![0i16; 2];
    mixer.poll(&mut out);
    assert_eq!(out, vec![300, 100]);
    assert_eq!(mixer.playing_count(), 1);
}

#[test]
fn a_loop_that_is_taken_away_plays_out() {
    let mut mixer = Mixer::new();
    let handle = mixer.play(&Audio::new(vec![10, 20, 30, 40]), UNIT, true);
    let mut out = vec![0i16; 6];
    mixer.poll(&mut out);
    assert_eq!(out, vec![10, 20, 30, 40, 10, 20]);
    mixer.set_looping(&handle, false);
    assert_eq!(mixer.playing_count(), 1);
    let mut out = vec![0i16; 6];
    mixer.poll(&mut out);
    // The two samples that were left, and then silence.
    assert_eq!(out, vec![30, 40, 0, 0, 0, 0]);
    assert_eq!(mixer.playing_count(), 0);
}

#[test]
fn stopping_ends_a_sound_at_once() {
    let mut mixer = Mixer::new();
    let first = mixer.play(&Audio::new(vec![1, 1, 1, 1]), UNIT, true);
    let second = mixer.play(&Audio::new(vec![10, 10, 10, 10]), UNIT, true);
    mixer.stop(&first);
    assert_eq!(mixer.playing_count(), 1);
    let mut out = vec![0i16; 2];
    mixer.poll(&mut out);
    assert_eq!(out, vec![10, 10]);
    // Stopping again, or changing what no longer plays, does nothing.
    mixer.stop(&first);
    mixer.set_volume(&first, 0);
    mixer.set_looping(&first, false);
    assert_eq!(mixer.playing_count(), 1);
    mixer.stop(&second);
    assert_eq!(mixer.playing_count(), 0);
}

#[test]
fn sounds_add_up() {
    let mut mixer = Mixer::new();
    mixer.play(&Audio::new(vec![1, 2, 3]), UNIT, false);
    mixer.play(&Audio::new(vec![10, 20]), UNIT, true);
    mixer.play(&Audio::new(vec![100]), UNIT, false);
    let mut out = vec![1000i16; 4];
    mixer.poll(&mut out);
    assert_eq!(out, vec![1111, 1022, 1013, 1020]);
    assert_eq!(mixer.playing_count(), 1);
}

#[test]
fn sums_do_not_depend_on_the_order_of_the_sounds() {
    // Two loud sounds and a quiet one: whichever two are added first,
    // the sum wraps on its way or does not, and ends the same.
    let loud = Audio::new(vec![30_000, -30_000, 20_000]);
    let louder = Audio::new(vec![30_000, -30_000, -20_000]);
    let back = Audio::new(vec![-30_000, 30_000, 1]);
    let mut expected = Vec::new();
    for first in 0..3 {
        let mut mixer = Mixer::new();
        for k in 0..3 {
            let audio = match (first + k) % 3 {
                0 => &loud,
                1 => &louder,
                _ => &back,
            };
            mixer.play(audio, UNIT, false);
        }
        let mut out = vec![5i16, -5, 0];
        mixer.poll(&mut out);
        assert_eq!(out, vec![30_005, -30_005, 1]);
        assert_eq!(mixer.playing_count(), 0);
        expected.push(out);
    }
    assert_eq!(expected.len(), 3);
}

#[test]
fn handles_name_sounds_in_the_order_of_their_start() {
    let mut mixer = Mixer::new();
    let first = mixer.play(&Audio::new(vec![1, 1]), UNIT, true);
    let second = mixer.play(&Audio::new(vec![10, 10]), UNIT, true);
    let third = mixer.play(&Audio::new(vec![100, 100]), UNIT, true);
    assert_eq!(mixer.playing_count(), 3);
    mixer.set_volume(&second, 0);
    let mut out = vec![0i16; 2];
    mixer.poll(&mut out);
    assert_eq!(out, vec![101, 101]);
    mixer.stop(&third);
    mixer.set_volume(&second, 2 * UNIT);
    mixer.set_looping(&first, false);
    let mut out = vec![0i16; 2];
    mixer.poll(&mut out);
    assert_eq!(out, vec![21, 21]);
    // The first has played out, the second plays on.
    assert_eq!(mixer.playing_count(), 1);
}

#[test]
fn the_volume_scales_and_rounds_down() {
    let mut mixer = Mixer::new();
    let handle = mixer.play(&Audio::new(vec![101, -101, 100, -100]), UNIT / 2, true);
    let mut out = vec![0i16; 4];
    mixer.poll(&mut out);
    assert_eq!(out, vec![50, -51, 50, -50]);
    mixer.set_volume(&handle, 0);
    let mut out = vec![7i16; 4];
    mixer.poll(&mut out);
    assert_eq!(out, vec![7, 7, 7, 7]);
    mixer.set_volume(&handle, 2 * UNIT);
    let mut out = vec![0i16; 4];
    mixer.poll(&mut out);
    assert_eq!(out, vec![202, -202, 200, -200]);
}

#[test]
fn samples_scale_into_sixteen_bits() {
    assert_eq!(scale_sample(100, UNIT), 100);
    assert_eq!(scale_sample(-100, UNIT), -100);
    assert_eq!(scale_sample(1, UNIT - 1), 0);
    assert_eq!(scale_sample(-1, UNIT - 1), -1);
    assert_eq!(scale_sample(-1, 1), -1);
    assert_eq!(scale_sample(i16::MAX, 2 * UNIT), i16::MAX);
    assert_eq!(scale_sample(i16::MIN, 2 * UNIT), i16::MIN);
    assert_eq!(scale_sample(i16::MAX, -2 * UNIT), i16::MIN);
    assert_eq!(scale_sample(i16::MIN, i64::MIN), i16::MAX);
    assert_eq!(scale_sample(i16::MAX, i64::MAX), i16::MAX);
    assert_eq!(scale_sample(300, -UNIT), -300);
}

#[test]
fn sums_wrap_around() {
    assert_eq!(add_wrapping(1, 2), 3);
    assert_eq!(add_wrapping(i16::MAX, 1), i16::MIN);
    assert_eq!(add_wrapping(i16::MIN, -1), i16::MAX);
    assert_eq!(add_wrapping(i16::MAX, i16::MAX), -2);
    assert_eq!(add_wrapping(i16::MIN, i16::MIN), 0);
    for (a, b) in [(12_345i16, 30_000i16), (-20_000, -20_000), (5, -7), (32_767, 100)] {
        assert_eq!(add_wrapping(a, b), a.wrapping_add(b));
    }
    let mut mixer = Mixer::new();
    mixer.play(&Audio::new(vec![100]), UNIT, false);
    let mut out = vec![i16::MAX];
    mixer.poll(&mut out);
    assert_eq!(out, vec![i16::MIN + 99]);
}

#[test]
fn a_sound_without_samples_is_taken_away_at_the_first_poll() {
    let mut mixer = Mixer::new();
    mixer.play(&Audio::new(Vec::new()), UNIT, true);
    mixer.play(&Audio::new(Vec::new()), UNIT, false);
    assert_eq!(mixer.playing_count(), 2);
    let mut out = vec![3i16; 2];
    mixer.poll(&mut out);
    assert_eq!(out, vec![3, 3]);
    assert_eq!(mixer.playing_count(), 0);
}

#[test]
fn polling_an_empty_buffer_moves_nothing() {
    let mut mixer = Mixer::new();
    mixer.play(&Audio::new(vec![1, 2]), UNIT, false);
    let mut out: Vec<i16> = Vec::new();
    mixer.poll(&mut out);
    assert_eq!(mixer.playing_count(), 1);
    let mut out = vec![0i16; 2];
    mixer.poll(&mut out);
    assert_eq!(out, vec![1, 2]);
}

#[test]
fn packets_are_joined_in_order() {
    let mut buffer = vec![1i16, 2];
    append_packet(&mut buffer, &vec![3, 4, 5]);
    append_packet(&mut buffer, &Vec::new());
    append_packet(&mut buffer, &vec![6]);
    assert_eq!(buffer, vec![1, 2, 3, 4, 5, 6]);
}

/// The three headers of a Vorbis stream of one channel and blocks of 64
/// samples, on two Ogg pages. Its setup has one codebook, one floor, one
/// residue, one mapping and one mode.
const OGG_HEADERS: [u8; 160] = [
    79, 103, 103, 83, 0, 2, 0, 0, 0, 0, 0, 0, 0, 0, 52, 18, 0, 0, 0, 0, 0, 0, 208, 123, 106, 44,
    1, 30, 1, 118, 111, 114, 98, 105, 115, 0, 0, 0, 0, 1, 68, 172, 0, 0, 0, 0, 0, 0, 0, 0, 0, 0,
    0, 0, 0, 0, 102, 1, 79, 103, 103, 83, 0, 0, 0, 0, 0, 0, 0, 0, 0, 0, 52, 18, 0, 0, 1, 0, 0, 0,
    179, 184, 168, 128, 2, 21, 52, 3, 118, 111, 114, 98, 105, 115, 5, 0, 0, 0, 116, 105, 108, 101,
    115, 0, 0, 0, 0, 1, 5, 118, 111, 114, 98, 105, 115, 0, 66, 67, 86, 1, 0, 2, 0, 0, 0, 0, 0, 0,
    0, 16, 0, 0, 48, 64, 0, 0, 0, 0, 0, 0, 0, 0, 0, 0, 0, 0, 0, 0, 0, 0, 0, 0, 0, 0, 0, 0, 0, 0,
    0, 1,
];

/// A page of four audio packets, each a block of silence.
const OGG_AUDIO: [u8; 35] = [
    79, 103, 103, 83, 0, 4, 96, 0, 0, 0, 0, 0, 0, 0, 52, 18, 0, 0, 2, 0, 0, 0, 78, 199, 119, 159,
    4, 1, 1, 1, 1, 0, 0, 0, 0,
];

/// The same page, but its third packet claims to be a header.
const OGG_AUDIO_WITH_A_HEADER: [u8; 35] = [
    79, 103, 103, 83, 0, 4, 96, 0, 0, 0, 0, 0, 0, 0, 52, 18, 0, 0, 2, 0, 0, 0, 146, 6, 110, 77, 4,
    1, 1, 1, 1, 0, 0, 1, 0,
];

fn stream(pages: &[&[u8]]) -> Vec<u8> {
    let mut bytes = Vec::new();
    for page in pages {
        bytes.extend_from_slice(page);
    }
    bytes
}

#[test]
fn an_ogg_stream_is_decoded_packet_by_packet() {
    let mixer = Mixer::new();
    // The first block only primes the decoder; each of the other three
    // gives half a block of samples.
    let audio = mixer.load_ogg(&stream(&[&OGG_HEADERS, &OGG_AUDIO])).unwrap();
    assert_eq!(audio.len(), 96);
    // What was decoded plays: silence.
    let mut mixer = Mixer::new();
    mixer.play(&audio, tile_platformer::units::UNIT, false);
    let mut out = vec![7i16; 100];
    mixer.poll(&mut out);
    assert_eq!(out, vec![7i16; 100]);
    assert_eq!(mixer.playing_count(), 0);
}

#[test]
fn a_stream_of_headers_alone_is_a_sound_without_samples() {
    let mixer = Mixer::new();
    let audio = mixer.load_ogg(&OGG_HEADERS).unwrap();
    assert_eq!(audio.len(), 0);
}

#[test]
fn a_stream_that_fails_on_its_way_gives_no_sound() {
    let mixer = Mixer::new();
    // A packet that cannot be decoded, after two that can.
    let r = mixer.load_ogg(&stream(&[&OGG_HEADERS, &OGG_AUDIO_WITH_A_HEADER]));
    assert_eq!(r.err(), Some(AudioError::BadOgg));
    // A page whose checksum is wrong.
    let mut bytes = stream(&[&OGG_HEADERS, &OGG_AUDIO]);
    bytes[160 + 22] ^= 1;
    assert_eq!(mixer.load_ogg(&bytes).err(), Some(AudioError::BadOgg));
    // A setup header that the decoder refuses: its framing bit is not set.
    let mut bytes = stream(&[&OGG_HEADERS, &OGG_AUDIO]);
    bytes[159] = 0;
    assert!(check_stream(&bytes));
    assert_eq!(mixer.load_ogg(&bytes).err(), Some(AudioError::BadOgg));
}

#[test]
fn a_packet_may_span_pages() {
    // Two packets on a page; then a packet of 265 bytes that fills one
    // page, which claims the position of all ones as no packet ends on
    // it, and ends on the next; then one more packet.
    let first: [u8; 31] = [
        79, 103, 103, 83, 0, 0, 32, 0, 0, 0, 0, 0, 0, 0, 52, 18, 0, 0, 2, 0, 0, 0, 172, 197, 22,
        254, 2, 1, 1, 0, 0,
    ];
    let second: [u8; 28] = [
        79, 103, 103, 83, 0, 0, 255, 255, 255, 255, 255, 255, 255, 255, 52, 18, 0, 0, 3, 0, 0, 0,
        233, 26, 96, 156, 1, 255,
    ];
    let third: [u8; 29] = [
        79, 103, 103, 83, 0, 5, 96, 0, 0, 0, 0, 0, 0, 0, 52, 18, 0, 0, 4, 0, 0, 0, 132, 6, 146, 39,
        2, 10, 1,
    ];
    let bytes = stream(&[&OGG_HEADERS, &first, &second, &[0u8; 255], &third, &[0u8; 11]]);
    assert!(check_stream(&bytes));
    let mixer = Mixer::new();
    let audio = mixer.load_ogg(&bytes).unwrap();
    assert_eq!(audio.len(), 96);
}

#[test]
fn a_stream_that_is_not_of_the_plain_form_is_refused() {
    let mixer = Mixer::new();
    let good = stream(&[&OGG_HEADERS, &OGG_AUDIO]);
    assert!(check_stream(&good));
    // A position beyond the limit, on a page on which packets end.
    let mut bytes = good.clone();
    for k in 0..8 {
        bytes[160 + 6 + k] = 0xff;
    }
    assert!(!check_stream(&bytes));
    assert_eq!(mixer.load_ogg(&bytes).err(), Some(AudioError::Unsupported));
    // The largest position that is let through, and the first that is not.
    let mut bytes = good.clone();
    bytes[160 + 6] = 0;
    bytes[160 + 9] = 0x70;
    assert!(check_stream(&bytes));
    bytes[160 + 6] = 1;
    assert!(!check_stream(&bytes));
    // A page of another logical stream.
    let mut bytes = good.clone();
    bytes[160 + 14] ^= 1;
    assert!(!check_stream(&bytes));
    // Bytes between or after the pages, or a page cut short.
    let mut bytes = good.clone();
    bytes.push(0);
    assert!(!check_stream(&bytes));
    assert!(!check_stream(&good[..good.len() - 1]));
    assert!(!check_stream(&stream(&[&OGG_HEADERS, &[0u8; 3], &OGG_AUDIO])));
    // A version of the page format that is not known.
    let mut bytes = good.clone();
    bytes[160 + 4] = 1;
    assert!(!check_stream(&bytes));
    // Headers that are not complete.
    assert!(!check_stream(&OGG_HEADERS[..58]));
    assert!(!check_stream(&[]));
    assert!(!check_stream(b"OggS"));
    assert_eq!(mixer.load_ogg(&OGG_HEADERS[..58]).err(), Some(AudioError::Unsupported));
}

#[test]
fn bytes_that_are_no_ogg_stream_give_no_sound() {
    let mixer = Mixer::new();
    assert_eq!(mixer.load_ogg(&[]).err(), Some(AudioError::Unsupported));
    assert_eq!(
        mixer.load_ogg(b"this is not an ogg stream").err(),
        Some(AudioError::Unsupported)
    );
    assert_eq!(mixer.load_ogg(b"OggS").err(), Some(AudioError::Unsupported));
    let mut page = Vec::new();
    page.extend_from_slice(b"OggS");
    page.extend_from_slice(&[0u8; 64]);
    assert_eq!(mixer.load_ogg(&page).err(), Some(AudioError::Unsupported));
}

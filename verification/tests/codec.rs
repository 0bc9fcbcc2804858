use siwx917::codec::{
    build_packet, checksum1, fits_len_char, needs_quote, quote, tochar, unchar, unquote, EOL, QCTL,
    SOH,
};
use siwx917::transfer::{send_init_fields, take_chunk, MAX_ENCODED};

#[test]
fn tochar_unchar_roundtrip_full_range() {
    for n in 0..=94u8 {
        assert_eq!(unchar(tochar(n)), n);
    }
}

#[test]
fn tochar_is_reversed_as_far_as_it_goes() {
    for n in 0..=223u8 {
        assert_eq!(tochar(n), n + 32);
        assert_eq!(unchar(tochar(n)), n);
    }
    // Below a space there is nothing to take away, and the number wraps.
    assert_eq!(unchar(31), 255);
    assert_eq!(unchar(0), 224);
}

#[test]
fn quote_escapes_controls_del_and_qctl_itself() {
    let raw = [0x00, b'A', 0x1f, 0x7f, QCTL, 0x80];
    let q = quote(&raw);
    assert_eq!(unquote(&q), raw);
    // A plain printable byte is never expanded.
    assert_eq!(quote(b"A"), b"A");
    // QCTL itself must be escaped (else the receiver can't tell data from a prefix).
    assert_eq!(quote(&[QCTL]), vec![QCTL, QCTL ^ 0x40]);
}

#[test]
fn exactly_controls_del_and_qctl_are_quoted() {
    for b in 0..=255u8 {
        assert_eq!(needs_quote(b), b < 0x20 || b == 0x7f || b == b'#');
    }
    assert_eq!(quote(&[0x00, 0x1f, 0x7f, 0x23]), b"#@#_#?#c");
}

#[test]
fn every_byte_survives_quoting() {
    let all: Vec<u8> = (0..=255u8).collect();
    let q = quote(&all);
    assert_eq!(q.len(), 256 + 34);
    assert!(q.iter().all(|&b| b >= 0x20 && b != 0x7f));
    assert_eq!(unquote(&q), all);
}

#[test]
fn unquote_keeps_a_prefix_that_nothing_follows() {
    assert_eq!(unquote(b"A#"), b"A#");
    assert_eq!(unquote(b"##"), vec![QCTL ^ 0x40]);
    assert_eq!(unquote(b""), b"");
}

#[test]
fn checksum1_matches_known_vector() {
    // "abc" (0x61+0x62+0x63=0x126 -> 8-bit wrap 0x26; fold: 0x26+(0x26>>6)=0x26 -> tochar).
    assert_eq!(checksum1(b"abc"), tochar(0x26));
}

#[test]
fn checksum1_folds_the_high_bits_in() {
    assert_eq!(checksum1(b""), b' ');
    // 0xff + 3 = 0x102, of which six bits are kept.
    assert_eq!(checksum1(&[0xff]), tochar(0x02));
    assert_eq!(checksum1(&[0xc0]), tochar(0x03));
    assert_eq!(checksum1(&[0x80, 0x80, 0x40]), tochar(0x01));
}

#[test]
fn ack_packet_matches_hand_derived_wire_bytes() {
    assert_eq!(
        build_packet(0, b'Y', &[]),
        vec![SOH, b'#', b' ', b'Y', b'>', EOL]
    );
}

#[test]
fn checksum_covers_the_len_field() {
    // Same SEQ/TYPE/DATA at two different lengths must not collide on the check byte;
    // they would if LEN were excluded from the sum.
    let short = build_packet(0, b'D', b"A");
    let long = build_packet(0, b'D', b"AB");
    let chk_short = short[short.len() - 2];
    let chk_long = long[long.len() - 2];
    assert_eq!(chk_short, checksum1(&[tochar(4), tochar(0), b'D', b'A']));
    assert_eq!(
        chk_long,
        checksum1(&[tochar(5), tochar(0), b'D', b'A', b'B'])
    );
}

#[test]
fn packet_has_its_marks_in_place() {
    let pkt = build_packet(63, b'D', b"hello");
    assert_eq!(pkt[0], 0x01);
    assert_eq!(pkt[1], tochar(8));
    assert_eq!(pkt[2], tochar(63));
    assert_eq!(pkt[3], b'D');
    assert_eq!(&pkt[4..9], b"hello");
    assert_eq!(pkt[9], checksum1(&pkt[1..9]));
    assert_eq!(pkt[10], b'\r');
    assert_eq!(pkt.len(), 11);
}

#[test]
fn len_counts_everything_up_to_the_check() {
    assert!(fits_len_char(0));
    assert!(fits_len_char(220));
    assert!(!fits_len_char(221));
    assert!(!fits_len_char(253));
    assert!(!fits_len_char(usize::MAX));
    for n in [0usize, 1, 91, 220] {
        let pkt = build_packet(0, b'F', &vec![b'a'; n]);
        assert_eq!(unchar(pkt[1]) as usize, n + 3);
        assert_eq!(pkt.len(), n + 6);
    }
}

#[test]
fn send_init_fields_are_those_of_the_device() {
    assert_eq!(send_init_fields(), b"~* @-#N1  ");
}

#[test]
fn take_chunk_always_makes_progress_even_with_tiny_budget() {
    let (raw, encoded) = take_chunk(&[0x00, b'A', b'B'], 2);
    assert_eq!(raw, 1); // 0x00 needs quoting -> 2 encoded bytes, exactly fills budget
    assert_eq!(encoded, vec![QCTL, 0x40]); // 0x00 ctl-quoted is 0x00 ^ 0x40
}

#[test]
fn take_chunk_packs_multiple_plain_bytes_per_packet() {
    let data = vec![b'A'; 200];
    let (raw, encoded) = take_chunk(&data, 91);
    assert_eq!(raw, 91);
    assert_eq!(encoded.len(), 91);
}

#[test]
fn take_chunk_takes_one_byte_even_over_budget_and_none_of_nothing() {
    assert_eq!(take_chunk(&[0x00, b'A'], 0), (1, vec![QCTL, 0x40]));
    assert_eq!(take_chunk(b"AB", 0), (1, b"A".to_vec()));
    assert_eq!(take_chunk(b"", 91), (0, b"".to_vec()));
    assert_eq!(take_chunk(b"A\x00B", 3), (2, b"A#@".to_vec()));
    assert_eq!(take_chunk(b"AB\x00", 3), (2, b"AB".to_vec()));
}

#[test]
fn chunks_put_together_are_the_file() {
    let data: Vec<u8> = (0..5000u32).map(|i| (i * i % 251) as u8).collect();
    let mut rest: &[u8] = &data;
    let mut back: Vec<u8> = Vec::new();
    while !rest.is_empty() {
        let (raw, encoded) = take_chunk(rest, MAX_ENCODED);
        assert!(raw >= 1 && encoded.len() <= 91);
        back.extend(unquote(&encoded));
        rest = &rest[raw..];
    }
    assert_eq!(back, data);
}

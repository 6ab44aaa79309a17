use devhaven::reassembly::{decode_tmux_output, drain_utf8_bytes, is_octal_digit};
use devhaven::stream::LineAssembler;

#[test]
fn octal_escapes_yield_the_byte_they_denote() {
    assert_eq!(decode_tmux_output("\\040"), " ");
    assert_eq!(decode_tmux_output("\\041"), "!");
    assert_eq!(decode_tmux_output("a\\012b"), "a\nb");
    assert_eq!(decode_tmux_output("\\033[0m"), "\u{1b}[0m");
    assert_eq!(decode_tmux_output("\\134"), "\\");
    assert_eq!(decode_tmux_output("\\000"), "\0");
}

#[test]
fn octal_escapes_spell_multi_byte_characters() {
    assert_eq!(decode_tmux_output("\\303\\251"), "é");
    assert_eq!(decode_tmux_output("\\344\\270\\255"), "中");
    assert_eq!(decode_tmux_output("\\360\\237\\230\\200"), "😀");
}

#[test]
fn incomplete_escapes_stay_literal() {
    assert_eq!(decode_tmux_output("\\04"), "\\04");
    assert_eq!(decode_tmux_output("\\"), "\\");
    assert_eq!(decode_tmux_output("\\08a"), "\\08a");
    assert_eq!(decode_tmux_output("\\0419"), "!9");
    assert_eq!(decode_tmux_output("x\\\\040"), "x\\ ");
}

#[test]
fn escapes_above_377_keep_the_low_eight_bits() {
    assert_eq!(decode_tmux_output("\\441"), "!");
}

#[test]
fn escaped_ill_formed_bytes_are_replaced() {
    assert_eq!(decode_tmux_output("a\\377b"), "a\u{FFFD}b");
    assert_eq!(decode_tmux_output("a\\303"), "a");
}

#[test]
fn octal_digits() {
    assert!(is_octal_digit(b'0'));
    assert!(is_octal_digit(b'7'));
    assert!(!is_octal_digit(b'8'));
    assert!(!is_octal_digit(b'/'));
}

#[test]
fn drain_returns_valid_text_and_keeps_incomplete_tail() {
    let mut buffer = vec![b'h', b'i', 0xE4, 0xB8];
    assert_eq!(drain_utf8_bytes(&mut buffer), "hi");
    assert_eq!(buffer, vec![0xE4, 0xB8]);
    buffer.push(0xAD);
    assert_eq!(drain_utf8_bytes(&mut buffer), "中");
    assert!(buffer.is_empty());
}

#[test]
fn drain_replaces_invalid_bytes() {
    let mut buffer = vec![b'a', 0xFF, b'b', 0xC0, 0x80, b'c'];
    assert_eq!(drain_utf8_bytes(&mut buffer), "a\u{FFFD}b\u{FFFD}\u{FFFD}c");
    assert!(buffer.is_empty());

    let mut surrogate = vec![0xED, 0xA0, 0x80];
    assert_eq!(drain_utf8_bytes(&mut surrogate), "\u{FFFD}\u{FFFD}\u{FFFD}");

    let mut cut = vec![0xE2, 0x82, b'A'];
    assert_eq!(drain_utf8_bytes(&mut cut), "\u{FFFD}A");

    let mut too_high = vec![0xF4, 0x90, 0x80, 0x80];
    assert_eq!(drain_utf8_bytes(&mut too_high), "\u{FFFD}\u{FFFD}\u{FFFD}\u{FFFD}");
}

#[test]
fn drain_agrees_with_lossy_decoding_of_std() {
    let samples: Vec<Vec<u8>> = vec![
        vec![],
        b"plain".to_vec(),
        vec![0x80],
        vec![0xC2],
        vec![0xC2, 0x41],
        vec![0xE0, 0x80, 0x80],
        vec![0xE0, 0xA0],
        vec![0xF0, 0x9F, 0x98],
        vec![0xF0, 0x9F, 0x98, 0x80, 0xF0],
        vec![0xF8, 0x88, 0x80, 0x80, 0x80],
        vec![0xEF, 0xBF, 0xBD],
        vec![b'a', 0xF1, 0x80, b'b'],
    ];
    for sample in samples {
        let mut buffer = sample.clone();
        let mut text = drain_utf8_bytes(&mut buffer);
        if !buffer.is_empty() {
            text.push('\u{FFFD}');
        }
        assert_eq!(text, String::from_utf8_lossy(&sample).to_string());
    }
}

#[test]
fn every_split_of_a_string_reassembles() {
    let original = "héllo, 世界! 😀 \u{FFFD} end";
    let bytes = original.as_bytes();
    for cut in 0..=bytes.len() {
        let mut pending: Vec<u8> = Vec::new();
        let mut text = String::new();
        for chunk in [&bytes[..cut], &bytes[cut..]] {
            pending.extend_from_slice(chunk);
            text.push_str(&drain_utf8_bytes(&mut pending));
        }
        assert_eq!(text, original);
        assert!(pending.is_empty());
    }
}

#[test]
fn byte_by_byte_reassembles() {
    let original = "a😀b中c";
    let mut pending: Vec<u8> = Vec::new();
    let mut text = String::new();
    for byte in original.as_bytes() {
        pending.push(*byte);
        text.push_str(&drain_utf8_bytes(&mut pending));
    }
    assert_eq!(text, original);
    assert!(pending.is_empty());
}

#[test]
fn assembler_gives_complete_lines() {
    let mut assembler = LineAssembler::new();
    assert_eq!(assembler.push_chunk(b"%begin 1 2"), Vec::<String>::new());
    assert_eq!(
        assembler.push_chunk(b" 3\r\n%end 1 2 3\nhalf"),
        vec!["%begin 1 2 3".to_string(), "%end 1 2 3".to_string()]
    );
    assert_eq!(assembler.push_chunk(b"\n\n"), vec!["half".to_string(), String::new()]);
}

#[test]
fn assembler_joins_characters_cut_by_reads() {
    let mut assembler = LineAssembler::new();
    let line = "%output %1 中文\n".as_bytes();
    let cut = line.len() - 3;
    assert_eq!(assembler.push_chunk(&line[..cut]), Vec::<String>::new());
    assert_eq!(assembler.push_chunk(&line[cut..]), vec!["%output %1 中文".to_string()]);
}

#[test]
fn assembler_strips_all_trailing_carriage_returns() {
    let mut assembler = LineAssembler::new();
    assert_eq!(assembler.push_chunk(b"a\r\r\nb\rc\n"), vec!["a".to_string(), "b\rc".to_string()]);
}

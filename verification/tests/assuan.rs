use pinentry_omarchy::assuan::{
    is_hidden_char, percent_decode, percent_decode_into, percent_encode_into, sanitize_display, split_command,
    strip_mnemonic, Writer, ERR_CANCELED, ERR_PIN_ENTRY, MAX_DATA_PER_LINE, MAX_RESPONSE_LINE,
};

fn written(f: impl FnOnce(&mut Writer)) -> Vec<u8> {
    let mut w = Writer::new();
    f(&mut w);
    w.take_output()
}

#[test]
fn splits_commands() {
    assert_eq!(split_command(b"getpin\n"), ("GETPIN".into(), &b""[..]));
    assert_eq!(
        split_command(b"SETDESC  hello world\r\n"),
        ("SETDESC".into(), &b"hello world"[..])
    );
}

#[test]
fn decodes_escapes() {
    assert_eq!(percent_decode(b"line%0Anext%25"), "line\nnext%");
    assert_eq!(percent_decode(b"100%"), "100%");
    assert_eq!(percent_decode(b"%zz%4"), "%zz%4");
    assert_eq!(percent_decode(b"La%C3%A9rcio"), "Laércio");
}

#[test]
fn strips_mnemonics() {
    assert_eq!(strip_mnemonic("_OK"), "OK");
    assert_eq!(strip_mnemonic("Do_n't"), "Don't");
    assert_eq!(strip_mnemonic("a__b"), "a_b");
}

#[test]
fn encodes_data_lines() {
    let out = written(|w| w.data(b"a%b\nc"));
    assert_eq!(out, b"D a%25b%0Ac\n");
}

#[test]
fn splits_long_data_without_breaking_escapes() {
    let mut data = vec![b'x'; MAX_DATA_PER_LINE - 1];
    data.push(b'%');
    data.push(b'y');
    let out = written(|w| w.data(&data));
    let text = String::from_utf8(out).unwrap();
    let lines: Vec<&str> = text.lines().collect();
    assert_eq!(lines.len(), 2);
    assert!(lines[0].ends_with('x'));
    assert_eq!(lines[1], "D %25y");
}

#[test]
fn split_command_edge_cases() {
    assert_eq!(split_command(b""), ("".into(), &b""[..]));
    assert_eq!(split_command(b"nop\r"), ("NOP".into(), &b""[..]));
    assert_eq!(split_command(b"Option   a b \n"), ("OPTION".into(), &b"a b "[..]));
    assert_eq!(split_command(b" x"), ("".into(), &b"x"[..]));
    assert_eq!(split_command(b"getp\xc3\xa9n"), ("GETPéN".into(), &b""[..]));
}

#[test]
fn keeps_signed_escapes_and_decodes_lower_case() {
    // Only two hex digits make an escape.
    assert_eq!(percent_decode(b"%+41"), "%+41");
    assert_eq!(percent_decode(b"%+5"), "%+5");
    assert_eq!(percent_decode(b"%4a%4A"), "JJ");
    assert_eq!(percent_decode(b"%-1"), "%-1");
    assert_eq!(percent_decode(b"%%41"), "%A");
}

#[test]
fn decode_into_appends_bytes() {
    let mut out = vec![1u8];
    percent_decode_into(b"%FF%00a", &mut out);
    assert_eq!(out, vec![1, 0xff, 0, b'a']);
}

#[test]
fn invalid_utf8_is_replaced() {
    assert_eq!(percent_decode(b"a%FFb"), "a\u{FFFD}b");
}

#[test]
fn mnemonic_edge_cases() {
    assert_eq!(strip_mnemonic("___"), "_");
    assert_eq!(strip_mnemonic("x_"), "x");
    assert_eq!(strip_mnemonic(""), "");
    assert_eq!(strip_mnemonic("____"), "__");
}

#[test]
fn hides_controls_and_bidi_marks() {
    for c in ['\u{0}', '\u{1b}', '\r', '\u{7f}', '\u{85}', '\u{61c}', '\u{200e}', '\u{200f}'] {
        assert!(is_hidden_char(c), "{c:?}");
    }
    for c in ['\u{202a}', '\u{202e}', '\u{2066}', '\u{2069}'] {
        assert!(is_hidden_char(c), "{c:?}");
    }
    for c in ['\n', '\t', 'a', ' ', '\u{a0}', '\u{202f}', '\u{2065}', 'é'] {
        assert!(!is_hidden_char(c), "{c:?}");
    }
    assert_eq!(sanitize_display("a\u{202e}b\u{1b}c\nd\te"), "abc\nd\te");
}

#[test]
fn ok_err_and_status_lines() {
    assert_eq!(written(|w| w.ok(None)), b"OK\n");
    assert_eq!(written(|w| w.ok(Some("hi there"))), b"OK hi there\n");
    assert_eq!(
        written(|w| w.err(ERR_CANCELED, "Operation cancelled")),
        b"ERR 83886179 Operation cancelled\n"
    );
    assert_eq!(written(|w| w.status("PIN_REPEATED")), b"S PIN_REPEATED\n");
    assert_eq!(written(|w| w.err(0, "x")), b"ERR 0 x\n");
}

#[test]
fn response_lines_carry_no_control_bytes() {
    let out = written(|w| w.err(ERR_PIN_ENTRY, "bad\nD injected\r\nOK"));
    assert_eq!(out, b"ERR 83886166 badD injectedOK\n");
}

#[test]
fn long_messages_are_cut_at_a_character_boundary() {
    let msg = "é".repeat(600);
    let out = written(|w| w.err(ERR_PIN_ENTRY, &msg));
    assert!(out.len() <= MAX_RESPONSE_LINE);
    assert!(out.len() >= MAX_RESPONSE_LINE - 1);
    let text = String::from_utf8(out).unwrap();
    assert!(text.starts_with("ERR 83886166 é"));
    assert!(text.ends_with("é\n"));

    let out = written(|w| w.ok(Some(&"y".repeat(2000))));
    assert_eq!(out.len(), MAX_RESPONSE_LINE);
}

#[test]
fn data_lines_decode_back_to_the_data() {
    let data: Vec<u8> = (0..5000u32).map(|i| (i * 37 % 256) as u8).collect();
    let out = written(|w| w.data(&data));
    let mut decoded = Vec::new();
    for line in out.split_inclusive(|&b| b == b'\n') {
        assert!(line.len() <= MAX_RESPONSE_LINE);
        let body = line.strip_prefix(b"D ").unwrap().strip_suffix(b"\n").unwrap();
        assert!(body.iter().all(|&b| b >= 0x20));
        for (i, &b) in body.iter().enumerate() {
            if b == b'%' {
                assert!(i + 2 < body.len());
            }
        }
        percent_decode_into(body, &mut decoded);
    }
    assert_eq!(decoded, data);
}

#[test]
fn empty_data_sends_no_line() {
    assert_eq!(written(|w| w.data(b"")), b"");
}

#[test]
fn percent_decoding_never_grows() {
    for input in [&b""[..], b"%", b"%4", b"%41", b"%+4x", b"%%%%", b"abc%20%2"] {
        let mut out = Vec::new();
        percent_decode_into(input, &mut out);
        assert!(out.len() <= input.len(), "{input:?}");
    }
}

#[test]
fn encoding_escapes_controls_and_percent_and_decodes_back() {
    let data: Vec<u8> = (0..=255u8).collect();
    let mut encoded = vec![b'#'];
    percent_encode_into(&data, &mut encoded);
    assert_eq!(encoded[0], b'#');
    let encoded = &encoded[1..];
    assert!(encoded.iter().all(|&b| b >= 0x20));
    assert!(encoded.starts_with(b"%00%01%02"));
    assert_eq!(encoded.len(), 256 + 2 * 33);
    let mut decoded = Vec::new();
    percent_decode_into(encoded, &mut decoded);
    assert_eq!(decoded, data);
}

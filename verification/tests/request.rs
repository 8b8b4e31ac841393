use pinentry_omarchy::request::{Kind, Request, State, MAX_TIMEOUT_SECS};

/// The fields that a request sends, in the order of its JSON line:
/// empty texts and a zero timeout are left out.
fn fields(r: &Request) -> Vec<(&'static str, String)> {
    let mut out = vec![("v", r.v.to_string()), ("type", r.kind.clone())];
    for (name, value) in [
        ("title", &r.title),
        ("desc", &r.desc),
        ("prompt", &r.prompt),
        ("error", &r.error),
        ("ok", &r.ok),
        ("cancel", &r.cancel),
        ("notok", &r.notok),
        ("repeat", &r.repeat),
        ("repeatError", &r.repeat_error),
    ] {
        if !value.is_empty() {
            out.push((name, value.clone()));
        }
    }
    if r.timeout != 0 {
        out.push(("timeout", r.timeout.to_string()));
    }
    out
}

fn field<'a>(fields: &'a [(&'static str, String)], name: &str) -> Option<&'a str> {
    fields.iter().find(|(n, _)| *n == name).map(|(_, v)| v.as_str())
}

#[test]
fn builds_getpin_request() {
    let mut s = State::default();
    assert!(s.apply("SETDESC", b"Unlock%0Acard").unwrap());
    assert!(s.apply("SETPROMPT", b"PIN:").unwrap());
    assert!(s.apply("SETOK", b"_OK").unwrap());
    assert!(!s.apply("GETPIN", b"").unwrap());
    assert_eq!(
        fields(&s.request(Kind::GetPin)),
        vec![
            ("v", "2".to_string()),
            ("type", "getpin".to_string()),
            ("desc", "Unlock\ncard".to_string()),
            ("prompt", "PIN".to_string()),
            ("ok", "OK".to_string()),
        ]
    );
}

#[test]
fn maps_every_set_command() {
    let mut s = State::default();
    for (cmd, arg) in [
        ("SETTITLE", "Title"),
        ("SETDESC", "Desc"),
        ("SETPROMPT", "Prompt:"),
        ("SETERROR", "Error"),
        ("SETOK", "_Yes"),
        ("SETCANCEL", "_Abort"),
        ("SETNOTOK", "_No"),
        ("SETREPEAT", "Again:"),
        ("SETREPEATERROR", "Mismatch"),
        ("SETTIMEOUT", "30"),
    ] {
        assert!(s.apply(cmd, arg.as_bytes()).unwrap(), "{cmd}");
    }
    let expected: Vec<(&str, String)> = [
        ("v", "2"),
        ("type", "getpin"),
        ("title", "Title"),
        ("desc", "Desc"),
        ("prompt", "Prompt"),
        ("error", "Error"),
        ("ok", "Yes"),
        ("cancel", "Abort"),
        ("notok", "No"),
        ("repeat", "Again"),
        ("repeatError", "Mismatch"),
        ("timeout", "30"),
    ]
    .into_iter()
    .map(|(k, v)| (k, v.to_string()))
    .collect();
    assert_eq!(fields(&s.request(Kind::GetPin)), expected);
}

#[test]
fn confirm_and_message_omit_pin_fields() {
    let mut s = State::default();
    s.apply("SETPROMPT", b"PIN:").unwrap();
    s.apply("SETREPEAT", b"").unwrap();
    s.apply("SETREPEATERROR", b"x").unwrap();
    s.apply("SETDESC", b"Sure?").unwrap();
    for kind in [Kind::Confirm, Kind::Message] {
        let v = fields(&s.request(kind));
        assert!(field(&v, "prompt").is_none() && field(&v, "repeat").is_none());
        assert!(field(&v, "repeatError").is_none());
        assert_eq!(field(&v, "desc"), Some("Sure?"));
    }
    assert_eq!(field(&fields(&s.request(Kind::Confirm)), "type"), Some("confirm"));
    assert_eq!(field(&fields(&s.request(Kind::Message)), "type"), Some("message"));
}

#[test]
fn error_and_repeat_are_one_shot() {
    let mut s = State::default();
    s.apply("SETERROR", b"Bad PIN").unwrap();
    s.apply("SETREPEAT", b"").unwrap();
    s.apply("SETDESC", b"stays").unwrap();
    assert_eq!(s.request(Kind::GetPin).repeat, "Repeat");
    s.after_prompt();
    assert!(s.error.is_empty() && s.repeat.is_empty());
    assert_eq!(s.desc, "stays");
}

#[test]
fn caps_and_validates_timeout() {
    let mut s = State::default();
    s.apply("SETTIMEOUT", b" 45 ").unwrap();
    assert_eq!(s.timeout, 45);
    s.apply("SETTIMEOUT", b"99999999999").unwrap();
    assert_eq!(s.timeout, MAX_TIMEOUT_SECS);
    for bad in [&b"soon"[..], b"-1", b"", b"1.5", b"99999999999999999999999"] {
        assert!(s.apply("SETTIMEOUT", bad).is_err(), "{bad:?}");
    }
    assert_eq!(
        s.timeout, MAX_TIMEOUT_SECS,
        "a rejected value keeps the old one"
    );
}

#[test]
fn sanitizes_texts() {
    let mut s = State::default();
    s.apply(
        "SETDESC",
        "Key of Mallory %E2%80%AEgpj.exe%1B[2J".as_bytes(),
    )
    .unwrap();
    s.apply("SETTITLE", b"a%0Db").unwrap();
    s.apply("SETOK", b"%E2%81%A6_Sign").unwrap();
    assert_eq!(s.desc, "Key of Mallory gpj.exe[2J");
    assert_eq!(s.title, "ab");
    assert_eq!(s.ok, "Sign");
}

#[test]
fn timeout_accepts_a_plus_sign_and_escapes() {
    let mut s = State::default();
    s.apply("SETTIMEOUT", b"+7").unwrap();
    assert_eq!(s.timeout, 7);
    s.apply("SETTIMEOUT", b"%201%32%09").unwrap();
    assert_eq!(s.timeout, 12);
    assert_eq!(s.apply("SETTIMEOUT", b"+").unwrap_err(), "invalid timeout");
    assert_eq!(s.apply("SETTIMEOUT", b"18446744073709551616").unwrap_err(), "invalid timeout");
    s.apply("SETTIMEOUT", b"18446744073709551615").unwrap();
    assert_eq!(s.timeout, MAX_TIMEOUT_SECS);
    s.apply("SETTIMEOUT", b"0").unwrap();
    assert_eq!(s.timeout, 0);
}

#[test]
fn other_commands_are_not_owned() {
    let mut s = State::default();
    for cmd in ["settitle", "GETPIN", "", "SETTITLEX", "SETKEYINFO"] {
        assert_eq!(s.apply(cmd, b"x"), Ok(false), "{cmd}");
    }
    assert!(s.title.is_empty());
}

#[test]
fn prompts_become_placeholders() {
    let mut s = State::default();
    s.apply("SETPROMPT", b"  Passphrase:: ").unwrap();
    s.apply("SETREPEAT", b"Again%3A").unwrap();
    let r = s.request(Kind::GetPin);
    assert_eq!(r.prompt, "Passphrase");
    assert_eq!(r.repeat, "Again");
    assert_eq!(r.v, 2);
}

#[test]
fn requests_never_carry_hidden_characters() {
    let mut s = State::default();
    for cmd in ["SETTITLE", "SETDESC", "SETPROMPT", "SETERROR", "SETOK", "SETCANCEL", "SETNOTOK"] {
        s.apply(cmd, b"a%E2%80%8Fb%07c%C2%85d").unwrap();
    }
    s.apply("SETREPEAT", b"%E2%81%A9").unwrap();
    s.apply("SETREPEATERROR", b"%D8%9Cx").unwrap();
    let r = s.request(Kind::GetPin);
    for text in [&r.title, &r.desc, &r.prompt, &r.error, &r.ok, &r.cancel, &r.notok] {
        assert_eq!(text, "abcd");
    }
    assert_eq!(r.repeat, "Repeat");
    assert_eq!(r.repeat_error, "x");
}

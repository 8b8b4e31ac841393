use pinentry_omarchy::assuan::Writer;
use pinentry_omarchy::request::{Request, State};
use pinentry_omarchy::session::{
    dialog_failed, dispatch, greet, handle_reply, ErrorKind, Info, Response, Step,
};

/// A scripted dialog reply, as the plugin would send it.
fn reply(result: &str, pin: Option<&str>, message: Option<&str>) -> Result<Response, ErrorKind> {
    Ok(Response {
        result: result.to_string(),
        pin: pin.map(|p| p.as_bytes().to_vec()),
        message: message.map(str::to_string),
    })
}

fn info() -> Info {
    Info { version: "0.2.1".to_string(), pid: "4242".to_string() }
}

/// Runs a session over `script`, answering the prompts with `replies` in
/// turn; once they run out, the dialog hangs up. Returns what gpg-agent
/// got and the requests the dialog saw.
fn run(script: &str, replies: Vec<Result<Response, ErrorKind>>) -> (String, Vec<Request>) {
    let info = info();
    let mut replies = replies.into_iter();
    let mut w = Writer::new();
    let mut out = Vec::new();
    let mut requests = Vec::new();
    let mut state = State::default();
    greet(&mut w, &info);
    out.extend(w.take_output());
    for line in script.as_bytes().split_inclusive(|&b| b == b'\n') {
        let step = dispatch(&mut state, line, &info, &mut w);
        out.extend(w.take_output());
        match step {
            Step::Continue => {}
            Step::Close => break,
            Step::Ask { request, timeout: _, prompt } => {
                requests.push(request);
                let answer = replies.next().unwrap_or(Err(ErrorKind::UnexpectedEof));
                handle_reply(&mut w, prompt, answer);
                out.extend(w.take_output());
            }
        }
    }
    (String::from_utf8(out).unwrap(), requests)
}

#[test]
fn getpin_returns_escaped_pin() {
    let (out, requests) = run(
        "SETDESC Hello%0AWorld\nSETPROMPT PIN:\nSETOK _Unlock\nGETPIN\nBYE\n",
        vec![reply("ok", Some("ab%c"), None)],
    );
    let lines: Vec<&str> = out.lines().collect();
    assert!(lines[0].starts_with("OK Pleased to meet you"));
    assert_eq!(&lines[1..], ["OK", "OK", "OK", "D ab%25c", "OK", "OK closing connection"]);

    let req = &requests[0];
    assert_eq!(req.kind, "getpin");
    assert_eq!(req.desc, "Hello\nWorld");
    assert_eq!(req.prompt, "PIN");
    assert_eq!(req.ok, "Unlock");
}

#[test]
fn cancel_timeout_and_repeat() {
    let (out, requests) = run(
        "SETERROR Bad PIN\nGETPIN\nGETPIN\nSETREPEAT Again:\nGETPIN\nGETPIN\n",
        vec![
            reply("cancel", None, None),
            reply("timeout", None, None),
            reply("ok", Some("x"), None),
            reply("ok", None, None),
        ],
    );
    let lines: Vec<&str> = out.lines().skip(1).collect();
    assert_eq!(
        lines,
        [
            "OK",
            "ERR 83886179 Operation cancelled",
            "ERR 83886142 Timeout",
            "OK",
            "S PIN_REPEATED",
            "D x",
            "OK",
            "OK",
        ]
    );

    assert_eq!(requests[0].error, "Bad PIN");
    assert!(requests[1].error.is_empty(), "SETERROR is one-shot");
    assert_eq!(requests[2].repeat, "Again");
    assert!(requests[3].repeat.is_empty(), "SETREPEAT is one-shot");
}

#[test]
fn confirm_and_message() {
    let (out, requests) = run(
        "CONFIRM\nCONFIRM\nCONFIRM\nCONFIRM --one-button\n",
        vec![
            reply("ok", None, None),
            reply("notok", None, None),
            reply("cancel", None, None),
            reply("cancel", None, None),
        ],
    );
    let lines: Vec<&str> = out.lines().skip(1).collect();
    assert_eq!(
        lines,
        [
            "OK",
            "ERR 83886194 Not confirmed",
            "ERR 83886179 Operation cancelled",
            "OK",
        ]
    );
    for request in &requests[..3] {
        assert_eq!(request.kind, "confirm");
    }
    assert_eq!(requests[3].kind, "message");
}

#[test]
fn getinfo_and_unknown_commands() {
    let (out, _requests) = run("GETINFO flavor\nOPTION ttyname=/dev/pts/1\nFROB\n", vec![]);
    let lines: Vec<&str> = out.lines().skip(1).collect();
    assert_eq!(lines, ["D omarchy", "OK", "OK", "ERR 83886355 Unknown IPC command"]);
}

#[test]
fn dialog_gone_counts_as_cancel() {
    let (out, _requests) = run("GETPIN\n", vec![]);
    assert_eq!(out.lines().nth(1), Some("ERR 83886179 Operation cancelled"));
}

#[test]
fn greets_with_the_process_id() {
    let (out, _requests) = run("", vec![]);
    assert_eq!(out, "OK Pleased to meet you, process 4242\n");
}

#[test]
fn getinfo_answers() {
    let (out, _requests) = run(
        "GETINFO version\nGETINFO  pid \nGETINFO ttyinfo\nGETINFO what\n",
        vec![],
    );
    let lines: Vec<&str> = out.lines().skip(1).collect();
    assert_eq!(
        lines,
        ["D 0.2.1", "OK", "D 4242", "OK", "D - - -", "OK", "ERR 83886135 Unknown value for WHAT"]
    );
}

#[test]
fn comments_blank_lines_and_case() {
    let (out, _requests) = run("# a comment\n\n   \nnop\nbye\nGETINFO flavor\n", vec![]);
    let lines: Vec<&str> = out.lines().skip(1).collect();
    assert_eq!(lines, ["OK", "OK closing connection"]);
}

#[test]
fn invalid_timeout_is_an_error() {
    let (out, _requests) = run("SETTIMEOUT soon\nSETTIMEOUT 5\n", vec![]);
    let lines: Vec<&str> = out.lines().skip(1).collect();
    assert_eq!(lines, ["ERR 83886135 invalid timeout", "OK"]);
}

#[test]
fn reset_forgets_the_settings() {
    let (out, requests) = run(
        "SETDESC gone\nSETTIMEOUT 9\nRESET\nMESSAGE\n",
        vec![reply("error", None, Some("whatever"))],
    );
    let lines: Vec<&str> = out.lines().skip(1).collect();
    assert_eq!(lines, ["OK", "OK", "OK", "OK"]);
    assert!(requests[0].desc.is_empty());
    assert_eq!(requests[0].timeout, 0);
    assert_eq!(requests[0].kind, "message");
}

#[test]
fn busy_and_dialog_errors() {
    let (out, _requests) = run(
        "GETPIN\nGETPIN\nGETPIN\nCONFIRM\n",
        vec![
            reply("busy", None, None),
            reply("error", None, Some("bad\nline")),
            reply("error", None, None),
            reply("busy", None, None),
        ],
    );
    let lines: Vec<&str> = out.lines().skip(1).collect();
    assert_eq!(
        lines,
        [
            "ERR 83886166 Another pinentry dialog is open",
            "ERR 83886166 badline",
            "ERR 83886166 Dialog error",
            "ERR 83886166 Another pinentry dialog is open",
        ]
    );
}

#[test]
fn pin_is_percent_decoded_then_escaped() {
    let (out, _requests) = run("GETPIN\nGETPIN\n", vec![
        reply("ok", Some("a%25b%0Ac%C3%A9"), None),
        reply("ok", Some(""), None),
    ]);
    let lines: Vec<&str> = out.lines().skip(1).collect();
    assert_eq!(lines, ["D a%25b%0Acé", "OK", "OK"]);
}

#[test]
fn timeouts_and_failures() {
    let mut w = Writer::new();
    dialog_failed(&mut w, ErrorKind::TimedOut);
    dialog_failed(&mut w, ErrorKind::UnexpectedEof);
    assert_eq!(
        w.take_output(),
        b"ERR 83886142 Timeout\nERR 83886179 Operation cancelled\n"
    );
    let (out, requests) = run("SETTIMEOUT 3\nMESSAGE\n", vec![Err(ErrorKind::TimedOut)]);
    assert_eq!(out.lines().nth(2), Some("ERR 83886142 Timeout"));
    assert_eq!(requests[0].timeout, 3);
}

#[test]
fn every_answer_is_a_well_formed_response_line() {
    let long = "x".repeat(3000);
    let script = format!(
        "SETDESC {long}\nGETPIN\nFROB {long}\nGETINFO pid\nCONFIRM\nSETTIMEOUT {long}\nBYE\n"
    );
    let (out, _requests) = run(
        &script,
        vec![
            reply("ok", Some(&"%0A".repeat(700)), None),
            reply("error", None, Some(&format!("{long}\nOK injected"))),
        ],
    );
    for line in out.as_bytes().split_inclusive(|&b| b == b'\n') {
        assert!(line.len() <= 1000, "{} byte line", line.len());
        let body = &line[..line.len() - 1];
        assert!([&b"OK"[..], b"ERR ", b"D ", b"S "].iter().any(|p| body.starts_with(p)));
        assert!(body.iter().all(|&b| b >= 0x20));
    }
    assert!(out.ends_with("OK closing connection\n"));
}

#[test]
fn error_kinds_that_count_as_a_timeout() {
    let timeouts = [ErrorKind::WouldBlock, ErrorKind::TimedOut];
    let others = [
        ErrorKind::UnexpectedEof,
        ErrorKind::ConnectionReset,
        ErrorKind::ConnectionAborted,
        ErrorKind::BrokenPipe,
        ErrorKind::ConnectionRefused,
        ErrorKind::NotFound,
        ErrorKind::PermissionDenied,
        ErrorKind::InvalidData,
        ErrorKind::Other,
    ];
    for kind in timeouts {
        let mut w = Writer::new();
        dialog_failed(&mut w, kind);
        assert_eq!(w.take_output(), b"ERR 83886142 Timeout\n", "{kind:?}");
    }
    for kind in others {
        let mut w = Writer::new();
        dialog_failed(&mut w, kind);
        assert_eq!(w.take_output(), b"ERR 83886179 Operation cancelled\n", "{kind:?}");
    }
}

#[test]
fn over_long_lines_are_refused() {
    let long = format!("SETDESC {}\n", "x".repeat(992));
    assert_eq!(long.len(), 1001);
    let fits = format!("SETDESC {}\n", "y".repeat(991));
    let (out, requests) = run(&format!("{long}{fits}GETPIN\n"), vec![reply("cancel", None, None)]);
    let lines: Vec<&str> = out.lines().skip(1).collect();
    assert_eq!(lines, ["ERR 83886343 Line too long", "OK", "ERR 83886179 Operation cancelled"]);
    assert_eq!(requests[0].desc, "y".repeat(991));
}

//! The decisions of a pinentry session: what each of gpg-agent's request
//! lines does to the settings and answers, when the dialog is asked, and
//! what its reply is answered with. Reading lines, talking to the dialog
//! and sending the answers are left to the caller, which hands each event
//! in and performs the step that comes back.

use vstd::prelude::*;
use vstd::string::{StrSliceExecFns, StringExecFns};
use vstd::utf8::encode_utf8;

use crate::assuan::{
    is_control_byte, lemma_line_text_keeps, MAX_RESPONSE_LINE,
    lemma_data_lines, lemma_err_line, lemma_ok_line, lemma_response_line, lemma_response_lines_concat,
    lemma_response_lines_empty, lemma_status_line, response_lines,
    data_lines_of, decoded_chunks, lemma_data_lines_decode, percent_encoded, argument_bytes, command_bytes, data_lines, err_line, ok_line, percent_decode_into,
    percent_decoded, split_command, status_line, Writer, ERR_CANCELED, ERR_INV_VALUE,
    ERR_LINE_TOO_LONG, ERR_NOT_CONFIRMED, ERR_PIN_ENTRY, ERR_TIMEOUT, ERR_UNKNOWN_CMD,
    MAX_REQUEST_LINE,
};
use crate::request::{
    applied, lemma_apply_keeps_displayable, lemma_empty_displayable, lemma_request_displayable,
    request_of, Kind, Request, RequestView, State, StateView,
};
use crate::secret::wipe;
use crate::text::{
    ascii_upper, contains_text, from_utf8_lossy, same_text, text_contains, trim, trimmed,
    utf8_lossy,
};

verus! {

/// What the session tells about itself through GETINFO.
pub struct Info {
    pub version: String,
    pub pid: String,
}

pub struct InfoView {
    pub version: Seq<char>,
    pub pid: Seq<char>,
}

impl View for Info {
    type V = InfoView;

    open spec fn view(&self) -> InfoView {
        InfoView { version: self.version@, pid: self.pid@ }
    }
}

/// The dialog's reply: its result ("ok", "cancel", "notok", "timeout",
/// "busy" or "error"), the percent-encoded PIN, and a message.
pub struct Response {
    pub result: String,
    pub pin: Option<Vec<u8>>,
    pub message: Option<String>,
}

pub struct ResponseView {
    pub result: Seq<char>,
    pub pin: Option<Seq<u8>>,
    pub message: Option<Seq<char>>,
}

impl View for Response {
    type V = ResponseView;

    open spec fn view(&self) -> ResponseView {
        ResponseView {
            result: self.result@,
            pin: match self.pin {
                Some(p) => Some(p@),
                None => None,
            },
            message: match self.message {
                Some(m) => Some(m@),
                None => None,
            },
        }
    }
}

/// The kind of I/O error that ended an exchange with the dialog, named as
/// `std::io::ErrorKind` names it; the kinds not listed are `Other`.
#[derive(Clone, Copy, Debug)]
pub enum ErrorKind {
    WouldBlock,
    TimedOut,
    UnexpectedEof,
    ConnectionReset,
    ConnectionAborted,
    BrokenPipe,
    ConnectionRefused,
    NotFound,
    PermissionDenied,
    InvalidData,
    Other,
}

/// Whether the error means that the dialog did not answer in time: a read
/// that would block past its deadline, or one that timed out.
pub open spec fn is_timeout(kind: ErrorKind) -> bool {
    kind is WouldBlock || kind is TimedOut
}

/// The prompt a dialog request was made for.
#[derive(Clone, Copy, Debug)]
pub enum Prompt {
    GetPin { repeat: bool },
    Confirm,
    Message,
}

/// What the caller does after a request line.
pub enum Step {
    /// Read the next line.
    Continue,
    /// End the session.
    Close,
    /// Send `request` to the dialog, waiting up to `timeout` seconds (none
    /// when zero) on top of the dialog's own, and hand its reply to
    /// `handle_reply` with `prompt`.
    Ask { request: Request, timeout: u64, prompt: Prompt },
}

pub enum StepView {
    Continue,
    Close,
    Ask { request: RequestView, timeout: u64, prompt: Prompt },
}

impl View for Step {
    type V = StepView;

    open spec fn view(&self) -> StepView {
        match self {
            Step::Continue => StepView::Continue,
            Step::Close => StepView::Close,
            Step::Ask { request, timeout, prompt } => StepView::Ask {
                request: request@,
                timeout: *timeout,
                prompt: *prompt,
            },
        }
    }
}

/// What a request line does: the settings after it, the response lines
/// it is answered with right away, and the step that follows.
pub struct Effect {
    pub state: StateView,
    pub output: Seq<u8>,
    pub step: StepView,
}

/// The UTF-8 bytes of `s`.
pub open spec fn utf8(s: Seq<char>) -> Seq<u8> {
    encode_utf8(s)
}

/// Commands accepted and ignored: options, the key's cache id, quality
/// bar and passphrase generation (not offered by this dialog).
pub open spec fn is_ignored(cmd: Seq<char>) -> bool {
    ||| cmd == "OPTION"@
    ||| cmd == "SETKEYINFO"@
    ||| cmd == "SETQUALITYBAR"@
    ||| cmd == "SETQUALITYBAR_TT"@
    ||| cmd == "SETGENPIN"@
    ||| cmd == "SETGENPIN_TT"@
    ||| cmd == "SETREPEATOK"@
    ||| cmd == "SETCONSTRAINTS"@
    ||| cmd == "CLEARPASSPHRASE"@
    ||| cmd == "NOP"@
    ||| cmd == "HELP"@
}

/// The settings after a prompt: SETERROR and SETREPEAT are used up.
pub open spec fn after_prompt_of(s: StateView) -> StateView {
    StateView { error: Seq::empty(), repeat: Seq::empty(), ..s }
}

/// Asking the dialog for `kind` with the settings `s`.
pub open spec fn prompt_effect(s: StateView, kind: Kind, prompt: Prompt) -> Effect {
    Effect {
        state: after_prompt_of(s),
        output: Seq::empty(),
        step: StepView::Ask { request: request_of(s, kind), timeout: s.timeout, prompt },
    }
}

/// The answer to GETINFO `what`.
pub open spec fn getinfo_lines(what: Seq<char>, info: InfoView) -> Seq<u8> {
    let w = trimmed(what);
    if w == "version"@ {
        data_lines(utf8(info.version)) + ok_line(None)
    } else if w == "pid"@ {
        data_lines(utf8(info.pid)) + ok_line(None)
    } else if w == "flavor"@ {
        data_lines(utf8("omarchy"@)) + ok_line(None)
    } else if w == "ttyinfo"@ {
        data_lines(utf8("- - -"@)) + ok_line(None)
    } else {
        err_line(ERR_INV_VALUE, utf8("Unknown value for WHAT"@))
    }
}

/// What a command that is not SET* does.
pub open spec fn command_effect(s: StateView, cmd: Seq<char>, arg: Seq<u8>, info: InfoView) -> Effect {
    if cmd == "GETPIN"@ {
        prompt_effect(s, Kind::GetPin, Prompt::GetPin { repeat: s.repeat.len() > 0 })
    } else if cmd == "CONFIRM"@ {
        if text_contains(utf8_lossy(arg), "--one-button"@) {
            prompt_effect(s, Kind::Message, Prompt::Message)
        } else {
            prompt_effect(s, Kind::Confirm, Prompt::Confirm)
        }
    } else if cmd == "MESSAGE"@ {
        prompt_effect(s, Kind::Message, Prompt::Message)
    } else if cmd == "GETINFO"@ {
        Effect { state: s, output: getinfo_lines(utf8_lossy(arg), info), step: StepView::Continue }
    } else if cmd == "RESET"@ {
        Effect { state: StateView::empty(), output: ok_line(None), step: StepView::Continue }
    } else if cmd == "BYE"@ {
        Effect {
            state: s,
            output: ok_line(Some(utf8("closing connection"@))),
            step: StepView::Close,
        }
    } else if is_ignored(cmd) {
        Effect { state: s, output: ok_line(None), step: StepView::Continue }
    } else {
        Effect {
            state: s,
            output: err_line(ERR_UNKNOWN_CMD, utf8("Unknown IPC command"@)),
            step: StepView::Continue,
        }
    }
}

/// What the command `cmd` with argument `arg` does with the settings `s`.
pub open spec fn request_effect(s: StateView, cmd: Seq<char>, arg: Seq<u8>, info: InfoView) -> Effect {
    if cmd.len() == 0 || cmd[0] == '#' {
        Effect { state: s, output: Seq::empty(), step: StepView::Continue }
    } else {
        match applied(s, cmd, arg) {
            Ok(Some(v)) => Effect { state: v, output: ok_line(None), step: StepView::Continue },
            Err(_) => Effect {
                state: s,
                output: err_line(ERR_INV_VALUE, utf8("invalid timeout"@)),
                step: StepView::Continue,
            },
            Ok(None) => command_effect(s, cmd, arg, info),
        }
    }
}

/// What the request line `line` does with the settings `s`. A line longer
/// than Assuan allows is refused, and changes nothing.
pub open spec fn line_effect(s: StateView, line: Seq<u8>, info: InfoView) -> Effect {
    if line.len() > MAX_REQUEST_LINE {
        Effect {
            state: s,
            output: err_line(ERR_LINE_TOO_LONG, utf8("Line too long"@)),
            step: StepView::Continue,
        }
    } else {
        request_effect(s, ascii_upper(utf8_lossy(command_bytes(line))), argument_bytes(line), info)
    }
}

/// How the dialog's reply is answered, whatever the prompt was, once
/// "ok" (and for CONFIRM "notok") are dealt with.
pub open spec fn outcome_lines(r: ResponseView) -> Seq<u8> {
    if r.result == "cancel"@ {
        err_line(ERR_CANCELED, utf8("Operation cancelled"@))
    } else if r.result == "timeout"@ {
        err_line(ERR_TIMEOUT, utf8("Timeout"@))
    } else if r.result == "busy"@ {
        err_line(ERR_PIN_ENTRY, utf8("Another pinentry dialog is open"@))
    } else {
        err_line(
            ERR_PIN_ENTRY,
            utf8(
                match r.message {
                    Some(m) => m,
                    None => "Dialog error"@,
                },
            ),
        )
    }
}

/// The answer when the exchange with the dialog failed: there is no
/// answer, so the request counts as cancelled, or as timed out.
pub open spec fn failure_lines(kind: ErrorKind) -> Seq<u8> {
    if is_timeout(kind) {
        err_line(ERR_TIMEOUT, utf8("Timeout"@))
    } else {
        err_line(ERR_CANCELED, utf8("Operation cancelled"@))
    }
}

/// The PIN in a reply, percent-decoded; empty when there is none.
pub open spec fn reply_pin(r: ResponseView) -> Seq<u8> {
    match r.pin {
        Some(p) => percent_decoded(p),
        None => Seq::empty(),
    }
}

/// The answer to GETPIN.
pub open spec fn getpin_lines(repeat: bool, reply: Result<ResponseView, ErrorKind>) -> Seq<u8> {
    match reply {
        Err(f) => failure_lines(f),
        Ok(r) => if r.result == "ok"@ {
            (if repeat {
                status_line(utf8("PIN_REPEATED"@))
            } else {
                Seq::empty()
            }) + (if reply_pin(r).len() > 0 {
                data_lines(reply_pin(r))
            } else {
                Seq::empty()
            }) + ok_line(None)
        } else {
            outcome_lines(r)
        },
    }
}

/// The answer to CONFIRM (or to MESSAGE, which is always OK once shown).
pub open spec fn confirm_lines(kind: Kind, reply: Result<ResponseView, ErrorKind>) -> Seq<u8> {
    match reply {
        Err(f) => failure_lines(f),
        Ok(r) => if kind is Message {
            ok_line(None)
        } else if r.result == "ok"@ {
            ok_line(None)
        } else if r.result == "notok"@ {
            err_line(ERR_NOT_CONFIRMED, utf8("Not confirmed"@))
        } else {
            outcome_lines(r)
        },
    }
}

pub open spec fn reply_view(reply: Result<Response, ErrorKind>) -> Result<ResponseView, ErrorKind> {
    match reply {
        Ok(r) => Ok(r@),
        Err(f) => Err(f),
    }
}

/// The answer to the dialog's reply to a request made for `prompt`.
pub open spec fn reply_lines(prompt: Prompt, reply: Result<ResponseView, ErrorKind>) -> Seq<u8> {
    match prompt {
        Prompt::GetPin { repeat } => getpin_lines(repeat, reply),
        Prompt::Confirm => confirm_lines(Kind::Confirm, reply),
        Prompt::Message => confirm_lines(Kind::Message, reply),
    }
}

/// The greeting that opens a session.
pub open spec fn greeting(info: InfoView) -> Seq<u8> {
    ok_line(Some(utf8("Pleased to meet you, process "@ + info.pid)))
}

/// Opens the session.
pub fn greet(w: &mut Writer, info: &Info)
    ensures
        final(w)@ == old(w)@ + greeting(info@),
{
    let mut text = String::from_str("Pleased to meet you, process ");
    text.append(info.pid.as_str());
    w.ok(Some(text.as_str()));
}

/// Answers an exchange with the dialog that failed. The shell went away
/// mid-session (restart, crash): there is no answer, so the request counts
/// as cancelled.
pub fn dialog_failed(w: &mut Writer, err: ErrorKind)
    ensures
        final(w)@ == old(w)@ + failure_lines(err),
{
    match err {
        ErrorKind::WouldBlock | ErrorKind::TimedOut => w.err(ERR_TIMEOUT, "Timeout"),
        _ => w.err(ERR_CANCELED, "Operation cancelled"),
    }
}

fn outcome(w: &mut Writer, result: &str, message: Option<String>)
    ensures
        final(w)@ == old(w)@ + outcome_lines(
            ResponseView {
                result: result@,
                pin: None,
                message: match message {
                    Some(m) => Some(m@),
                    None => None,
                },
            },
        ),
{
    if same_text(result, "cancel") {
        w.err(ERR_CANCELED, "Operation cancelled");
    } else if same_text(result, "timeout") {
        w.err(ERR_TIMEOUT, "Timeout");
    } else if same_text(result, "busy") {
        w.err(ERR_PIN_ENTRY, "Another pinentry dialog is open");
    } else {
        match message {
            Some(m) => w.err(ERR_PIN_ENTRY, m.as_str()),
            None => w.err(ERR_PIN_ENTRY, "Dialog error"),
        }
    }
}

/// Answers GETPIN with the dialog's reply. The PIN's copies are wiped once
/// sent.
pub fn getpin(w: &mut Writer, repeat: bool, reply: Result<Response, ErrorKind>)
    ensures
        final(w)@ == old(w)@ + getpin_lines(repeat, reply_view(reply)),
{
    let response = match reply {
        Ok(r) => r,
        Err(f) => {
            dialog_failed(w, f);
            return ;
        },
    };
    let ghost r = response@;
    let Response { result, pin, message } = response;
    let mut raw = match pin {
        Some(p) => p,
        None => Vec::new(),
    };
    if same_text(result.as_str(), "ok") {
        let ghost start = w@;
        if repeat {
            w.status("PIN_REPEATED");
        }
        let mut decoded: Vec<u8> = Vec::new();
        percent_decode_into(raw.as_slice(), &mut decoded);
        assert(decoded@ =~= reply_pin(r));
        wipe(&mut raw);
        if decoded.len() > 0 {
            w.data(decoded.as_slice());
        }
        wipe(&mut decoded);
        w.ok(None);
        assert(w@ =~= start + getpin_lines(repeat, Ok(r)));
    } else {
        wipe(&mut raw);
        outcome(w, result.as_str(), message);
    }
}

/// Answers CONFIRM (or MESSAGE, for `Kind::Message`) with the dialog's
/// reply.
pub fn confirm(w: &mut Writer, kind: Kind, reply: Result<Response, ErrorKind>)
    ensures
        final(w)@ == old(w)@ + confirm_lines(kind, reply_view(reply)),
{
    let response = match reply {
        Ok(r) => r,
        Err(f) => {
            dialog_failed(w, f);
            return ;
        },
    };
    let Response { result, pin, message } = response;
    if let Some(mut p) = pin {
        // A PIN has no business in this reply; it is wiped all the same.
        wipe(&mut p);
    }
    if let Kind::Message = kind {
        w.ok(None);
        return ;
    }
    if same_text(result.as_str(), "ok") {
        w.ok(None);
    } else if same_text(result.as_str(), "notok") {
        w.err(ERR_NOT_CONFIRMED, "Not confirmed");
    } else {
        outcome(w, result.as_str(), message);
    }
}

/// Answers the dialog's reply to the request made for `prompt`.
pub fn handle_reply(w: &mut Writer, prompt: Prompt, reply: Result<Response, ErrorKind>)
    ensures
        final(w)@ == old(w)@ + reply_lines(prompt, reply_view(reply)),
{
    match prompt {
        Prompt::GetPin { repeat } => getpin(w, repeat, reply),
        Prompt::Confirm => confirm(w, Kind::Confirm, reply),
        Prompt::Message => confirm(w, Kind::Message, reply),
    }
}

/// Answers GETINFO `what`.
pub fn getinfo(w: &mut Writer, what: &str, info: &Info)
    ensures
        final(w)@ == old(w)@ + getinfo_lines(what@, info@),
{
    let ghost start = w@;
    let key = trim(what);
    let k = key.as_str();
    if same_text(k, "version") {
        w.data(info.version.as_str().as_bytes());
    } else if same_text(k, "pid") {
        w.data(info.pid.as_str().as_bytes());
    } else if same_text(k, "flavor") {
        w.data("omarchy".as_bytes());
    } else if same_text(k, "ttyinfo") {
        w.data("- - -".as_bytes());
    } else {
        w.err(ERR_INV_VALUE, "Unknown value for WHAT");
        return ;
    }
    w.ok(None);
    assert(w@ =~= start + getinfo_lines(what@, info@));
}

/// Asks the dialog for `kind`; the one-shot settings are used up.
fn ask_dialog(state: &mut State, kind: Kind, prompt: Prompt) -> (step: Step)
    ensures
        final(state)@ == prompt_effect(old(state)@, kind, prompt).state,
        step@ == prompt_effect(old(state)@, kind, prompt).step,
{
    let request = state.request(kind);
    let timeout = state.timeout;
    state.after_prompt();
    Step::Ask { request, timeout, prompt }
}

fn is_ignored_command(cmd: &str) -> (r: bool)
    ensures
        r == is_ignored(cmd@),
{
    same_text(cmd, "OPTION") || same_text(cmd, "SETKEYINFO") || same_text(cmd, "SETQUALITYBAR")
        || same_text(cmd, "SETQUALITYBAR_TT") || same_text(cmd, "SETGENPIN") || same_text(
        cmd,
        "SETGENPIN_TT",
    ) || same_text(cmd, "SETREPEATOK") || same_text(cmd, "SETCONSTRAINTS") || same_text(
        cmd,
        "CLEARPASSPHRASE",
    ) || same_text(cmd, "NOP") || same_text(cmd, "HELP")
}

/// Handles one request line from gpg-agent: updates the settings, answers
/// what can be answered right away, and says what comes next. A line
/// longer than `MAX_REQUEST_LINE` is answered with an error and ignored.
pub fn dispatch(state: &mut State, line: &[u8], info: &Info, w: &mut Writer) -> (step: Step)
    ensures
        final(state)@ == line_effect(old(state)@, line@, info@).state,
        final(w)@ == old(w)@ + line_effect(old(state)@, line@, info@).output,
        step@ == line_effect(old(state)@, line@, info@).step,
{
    if line.len() > MAX_REQUEST_LINE {
        w.err(ERR_LINE_TOO_LONG, "Line too long");
        return Step::Continue;
    }
    let (cmd, arg) = split_command(line);
    run_command(state, cmd.as_str(), arg, info, w)
}

/// Carries out the (upper-cased) command `cmd` with its raw argument.
pub fn run_command(state: &mut State, cmd: &str, arg: &[u8], info: &Info, w: &mut Writer) -> (step:
    Step)
    ensures
        final(state)@ == request_effect(old(state)@, cmd@, arg@, info@).state,
        final(w)@ == old(w)@ + request_effect(old(state)@, cmd@, arg@, info@).output,
        step@ == request_effect(old(state)@, cmd@, arg@, info@).step,
{
    let ghost start = w@;
    let c = cmd;
    if c.is_empty() {
        assert(w@ =~= start + Seq::<u8>::empty());
        return Step::Continue;
    }
    if c.get_char(0) == '#' {
        assert(w@ =~= start + Seq::<u8>::empty());
        return Step::Continue;
    }
    match state.apply(c, arg) {
        Ok(true) => {
            w.ok(None);
            return Step::Continue;
        },
        Err(msg) => {
            w.err(ERR_INV_VALUE, msg);
            return Step::Continue;
        },
        Ok(false) => {},
    }
    if same_text(c, "GETPIN") {
        let repeat = !state.repeat.as_str().is_empty();
        assert(w@ =~= start + Seq::<u8>::empty());
        ask_dialog(state, Kind::GetPin, Prompt::GetPin { repeat })
    } else if same_text(c, "CONFIRM") {
        let text = from_utf8_lossy(arg);
        assert(w@ =~= start + Seq::<u8>::empty());
        if contains_text(text.as_str(), "--one-button") {
            ask_dialog(state, Kind::Message, Prompt::Message)
        } else {
            ask_dialog(state, Kind::Confirm, Prompt::Confirm)
        }
    } else if same_text(c, "MESSAGE") {
        assert(w@ =~= start + Seq::<u8>::empty());
        ask_dialog(state, Kind::Message, Prompt::Message)
    } else if same_text(c, "GETINFO") {
        let what = from_utf8_lossy(arg);
        getinfo(w, what.as_str(), info);
        Step::Continue
    } else if same_text(c, "RESET") {
        *state = State::default();
        w.ok(None);
        Step::Continue
    } else if same_text(c, "BYE") {
        w.ok(Some("closing connection"));
        Step::Close
    } else if is_ignored_command(c) {
        w.ok(None);
        Step::Continue
    } else {
        w.err(ERR_UNKNOWN_CMD, "Unknown IPC command");
        Step::Continue
    }
}

/// Whenever a request line makes the session ask the dialog, SETERROR and
/// SETREPEAT are used up by that prompt, and every other setting stays.
pub proof fn lemma_prompt_is_one_shot(s: StateView, cmd: Seq<char>, arg: Seq<u8>, info: InfoView)
    ensures
        request_effect(s, cmd, arg, info).step is Ask ==> request_effect(s, cmd, arg, info).state
            == after_prompt_of(s),
        after_prompt_of(s).error.len() == 0 && after_prompt_of(s).repeat.len() == 0,
        after_prompt_of(s).desc == s.desc && after_prompt_of(s).title == s.title
            && after_prompt_of(s).prompt == s.prompt && after_prompt_of(s).ok == s.ok
            && after_prompt_of(s).cancel == s.cancel && after_prompt_of(s).notok == s.notok
            && after_prompt_of(s).repeat_error == s.repeat_error && after_prompt_of(s).timeout
            == s.timeout,
{
}

/// A session whose settings are displayable keeps them so, and every
/// request it sends the dialog is free of hidden characters.
pub proof fn lemma_session_displayable(s: StateView, cmd: Seq<char>, arg: Seq<u8>, info: InfoView)
    requires
        s.displayable(),
    ensures
        request_effect(s, cmd, arg, info).state.displayable(),
        request_effect(s, cmd, arg, info).step matches StepView::Ask { request, .. }
            ==> request.displayable(),
{
    lemma_apply_keeps_displayable(s, cmd, arg);
    lemma_empty_displayable();
    lemma_request_displayable(s, Kind::GetPin);
    lemma_request_displayable(s, Kind::Confirm);
    lemma_request_displayable(s, Kind::Message);
}

/// The PIN of an "ok" reply reaches gpg-agent intact: it is sent in "D"
/// lines, between the optional PIN_REPEATED status and the final OK, and
/// decoding those lines gives back exactly the (percent-decoded) PIN.
pub proof fn lemma_pin_reaches_agent(repeat: bool, r: ResponseView)
    requires
        r.result == "ok"@,
        reply_pin(r).len() > 0,
    ensures
        getpin_lines(repeat, Ok(r)) == (if repeat {
            status_line(utf8("PIN_REPEATED"@))
        } else {
            Seq::empty()
        }) + data_lines_of(percent_encoded(reply_pin(r))) + ok_line(None),
        decoded_chunks(percent_encoded(reply_pin(r))) == reply_pin(r),
{
    lemma_data_lines_decode(reply_pin(r));
}

/// A request line that makes the session ask the dialog, from displayable
/// settings, makes a displayable request and leaves the settings
/// displayable.
pub proof fn lemma_line_displayable(s: StateView, line: Seq<u8>, info: InfoView)
    requires
        s.displayable(),
    ensures
        line_effect(s, line, info).state.displayable(),
        line_effect(s, line, info).step matches StepView::Ask { request, .. }
            ==> request.displayable(),
{
    lemma_session_displayable(
        s,
        ascii_upper(utf8_lossy(command_bytes(line))),
        argument_bytes(line),
        info,
    );
}

/// The settings after the request lines `lines`, one after the other. The
/// dialog's replies change no setting.
pub open spec fn settings_after(s: StateView, lines: Seq<Seq<u8>>, info: InfoView) -> StateView
    decreases lines.len(),
{
    if lines.len() == 0 {
        s
    } else {
        line_effect(settings_after(s, lines.drop_last(), info), lines.last(), info).state
    }
}

proof fn lemma_settings_after_displayable(s: StateView, lines: Seq<Seq<u8>>, info: InfoView)
    requires
        s.displayable(),
    ensures
        settings_after(s, lines, info).displayable(),
    decreases lines.len(),
{
    if lines.len() > 0 {
        lemma_settings_after_displayable(s, lines.drop_last(), info);
        lemma_line_displayable(settings_after(s, lines.drop_last(), info), lines.last(), info);
    }
}

/// Whatever gpg-agent sends over a whole session, every request the session
/// makes for the dialog is free of hidden characters: the request made for
/// the line `lines[i]` is made from the settings that the lines before it
/// left.
pub proof fn lemma_session_requests_displayable(lines: Seq<Seq<u8>>, info: InfoView, i: int)
    requires
        0 <= i < lines.len(),
    ensures
        line_effect(settings_after(StateView::empty(), lines.take(i), info), lines[i], info).step
            matches StepView::Ask { request, .. } ==> request.displayable(),
{
    lemma_empty_displayable();
    lemma_settings_after_displayable(StateView::empty(), lines.take(i), info);
    lemma_line_displayable(settings_after(StateView::empty(), lines.take(i), info), lines[i], info);
}

/// What a request line is answered with right away is a run of well-formed
/// response lines.
pub proof fn lemma_line_output_well_formed(s: StateView, line: Seq<u8>, info: InfoView)
    ensures
        response_lines(line_effect(s, line, info).output),
{
    lemma_response_lines_empty();
    lemma_ok_line(None);
    lemma_response_line(ok_line(None));
    lemma_ok_line(Some(utf8("closing connection"@)));
    lemma_response_line(ok_line(Some(utf8("closing connection"@))));
    lemma_err_line(ERR_LINE_TOO_LONG, utf8("Line too long"@));
    lemma_response_line(err_line(ERR_LINE_TOO_LONG, utf8("Line too long"@)));
    lemma_err_line(ERR_INV_VALUE, utf8("invalid timeout"@));
    lemma_response_line(err_line(ERR_INV_VALUE, utf8("invalid timeout"@)));
    lemma_err_line(ERR_UNKNOWN_CMD, utf8("Unknown IPC command"@));
    lemma_response_line(err_line(ERR_UNKNOWN_CMD, utf8("Unknown IPC command"@)));
    let what = utf8_lossy(argument_bytes(line));
    lemma_getinfo_well_formed(what, info);
}

proof fn lemma_data_then_ok(data: Seq<u8>)
    ensures
        response_lines(data_lines(data) + ok_line(None)),
{
    lemma_data_lines(data);
    lemma_ok_line(None);
    lemma_response_line(ok_line(None));
    lemma_response_lines_concat(data_lines(data), ok_line(None));
}

proof fn lemma_getinfo_well_formed(what: Seq<char>, info: InfoView)
    ensures
        response_lines(getinfo_lines(what, info)),
{
    lemma_data_then_ok(utf8(info.version));
    lemma_data_then_ok(utf8(info.pid));
    lemma_data_then_ok(utf8("omarchy"@));
    lemma_data_then_ok(utf8("- - -"@));
    lemma_err_line(ERR_INV_VALUE, utf8("Unknown value for WHAT"@));
    lemma_response_line(err_line(ERR_INV_VALUE, utf8("Unknown value for WHAT"@)));
}

proof fn lemma_err_well_formed(code: u32, msg: Seq<u8>)
    ensures
        response_lines(err_line(code, msg)),
{
    lemma_err_line(code, msg);
    lemma_response_line(err_line(code, msg));
}

/// What the dialog's reply is answered with is a run of well-formed
/// response lines.
pub proof fn lemma_reply_well_formed(prompt: Prompt, reply: Result<ResponseView, ErrorKind>)
    ensures
        response_lines(reply_lines(prompt, reply)),
{
    lemma_ok_line(None);
    lemma_response_line(ok_line(None));
    lemma_err_well_formed(ERR_TIMEOUT, utf8("Timeout"@));
    lemma_err_well_formed(ERR_CANCELED, utf8("Operation cancelled"@));
    lemma_err_well_formed(ERR_NOT_CONFIRMED, utf8("Not confirmed"@));
    lemma_err_well_formed(ERR_PIN_ENTRY, utf8("Another pinentry dialog is open"@));
    lemma_err_well_formed(ERR_PIN_ENTRY, utf8("Dialog error"@));
    if let Ok(r) = reply {
        if let Some(m) = r.message {
            lemma_err_well_formed(ERR_PIN_ENTRY, utf8(m));
        }
        if let Prompt::GetPin { repeat } = prompt {
            let status = if repeat {
                status_line(utf8("PIN_REPEATED"@))
            } else {
                Seq::empty()
            };
            let data = if reply_pin(r).len() > 0 {
                data_lines(reply_pin(r))
            } else {
                Seq::empty()
            };
            lemma_status_line(utf8("PIN_REPEATED"@));
            lemma_response_line(status_line(utf8("PIN_REPEATED"@)));
            lemma_response_lines_empty();
            lemma_data_lines(reply_pin(r));
            lemma_response_lines_concat(status, data);
            lemma_response_lines_concat(status + data, ok_line(None));
        }
    }
}

/// An "ok" reply to GETPIN is answered with the optional PIN_REPEATED
/// status, then, when the reply carries a PIN `p` that is not empty once
/// percent-decoded, "D" lines that decode back to exactly the whole
/// percent-decoded `p`, then OK. Without a PIN, no "D" line is sent.
pub proof fn lemma_whole_pin_sent(repeat: bool, r: ResponseView)
    requires
        r.result == "ok"@,
    ensures
        ({
            let status = if repeat {
                status_line(utf8("PIN_REPEATED"@))
            } else {
                Seq::empty()
            };
            &&& (r.pin is Some && percent_decoded(r.pin->0).len() > 0) ==> (getpin_lines(
                repeat,
                Ok(r),
            ) == status + data_lines_of(percent_encoded(percent_decoded(r.pin->0))) + ok_line(
                None,
            ) && decoded_chunks(percent_encoded(percent_decoded(r.pin->0))) == percent_decoded(
                r.pin->0,
            ))
            &&& (r.pin is None || percent_decoded(r.pin->0).len() == 0) ==> getpin_lines(
                repeat,
                Ok(r),
            ) == status + ok_line(None)
        }),
{
    if let Some(p) = r.pin {
        lemma_data_lines_decode(percent_decoded(p));
    }
    let status = if repeat {
        status_line(utf8("PIN_REPEATED"@))
    } else {
        Seq::empty()
    };
    assert(status + Seq::<u8>::empty() =~= status);
}

/// RESET forgets every setting: no texts and no timeout are left, and it is
/// answered OK; whatever the settings and the argument were.
pub proof fn lemma_reset(s: StateView, arg: Seq<u8>, info: InfoView)
    ensures
        ({
            let e = request_effect(s, "RESET"@, arg, info);
            &&& e.state.title.len() == 0 && e.state.desc.len() == 0 && e.state.prompt.len() == 0
            &&& e.state.error.len() == 0 && e.state.ok.len() == 0 && e.state.cancel.len() == 0
            &&& e.state.notok.len() == 0 && e.state.repeat.len() == 0
            &&& e.state.repeat_error.len() == 0 && e.state.timeout == 0
            &&& e.output == ok_line(None)
            &&& e.step is Continue
        }),
{
    reveal_strlit("RESET");
    reveal_strlit("SETTITLE");
    reveal_strlit("SETDESC");
    reveal_strlit("SETPROMPT");
    reveal_strlit("SETERROR");
    reveal_strlit("SETOK");
    reveal_strlit("SETCANCEL");
    reveal_strlit("SETNOTOK");
    reveal_strlit("SETREPEAT");
    reveal_strlit("SETREPEATERROR");
    reveal_strlit("SETTIMEOUT");
    reveal_strlit("GETPIN");
    reveal_strlit("CONFIRM");
    reveal_strlit("MESSAGE");
    reveal_strlit("GETINFO");
    let c = "RESET"@;
    assert(c.len() == 5 && c[0] == 'R');
    assert(c != "SETTITLE"@ && c != "SETDESC"@ && c != "SETPROMPT"@ && c != "SETERROR"@) by {
        assert("SETTITLE"@.len() == 8 && "SETDESC"@.len() == 7);
        assert("SETPROMPT"@.len() == 9 && "SETERROR"@.len() == 8);
    }
    assert(c != "SETOK"@) by {
        assert("SETOK"@[0] == 'S');
    }
    assert(c != "SETCANCEL"@ && c != "SETNOTOK"@ && c != "SETREPEAT"@) by {
        assert("SETCANCEL"@.len() == 9 && "SETNOTOK"@.len() == 8 && "SETREPEAT"@.len() == 9);
    }
    assert(c != "SETREPEATERROR"@ && c != "SETTIMEOUT"@) by {
        assert("SETREPEATERROR"@.len() == 14 && "SETTIMEOUT"@.len() == 10);
    }
    assert(c != "GETPIN"@ && c != "CONFIRM"@ && c != "MESSAGE"@ && c != "GETINFO"@) by {
        assert("GETPIN"@.len() == 6 && "CONFIRM"@.len() == 7);
        assert("MESSAGE"@.len() == 7 && "GETINFO"@.len() == 7);
    }
}

/// How the dialog's reply is answered. A failed exchange is a timeout when
/// the read would block or timed out, a cancellation otherwise. MESSAGE is
/// answered OK whatever the dialog says. For GETPIN and CONFIRM, "cancel",
/// "timeout" and "busy" give their own errors; CONFIRM's "ok" is OK and its
/// "notok" is "Not confirmed"; any other result is a pinentry error with
/// the dialog's message, or "Dialog error" without one.
pub proof fn lemma_reply_results(p: Prompt, r: ResponseView, e: ErrorKind)
    ensures
        reply_lines(p, Err(e)) == if e is WouldBlock || e is TimedOut {
            err_line(ERR_TIMEOUT, utf8("Timeout"@))
        } else {
            err_line(ERR_CANCELED, utf8("Operation cancelled"@))
        },
        p is Message ==> reply_lines(p, Ok(r)) == ok_line(None),
        !(p is Message) && r.result == "timeout"@ ==> reply_lines(p, Ok(r)) == err_line(
            ERR_TIMEOUT,
            utf8("Timeout"@),
        ),
        !(p is Message) && r.result == "cancel"@ ==> reply_lines(p, Ok(r)) == err_line(
            ERR_CANCELED,
            utf8("Operation cancelled"@),
        ),
        !(p is Message) && r.result == "busy"@ ==> reply_lines(p, Ok(r)) == err_line(
            ERR_PIN_ENTRY,
            utf8("Another pinentry dialog is open"@),
        ),
        p is Confirm && r.result == "ok"@ ==> reply_lines(p, Ok(r)) == ok_line(None),
        p is Confirm && r.result == "notok"@ ==> reply_lines(p, Ok(r)) == err_line(
            ERR_NOT_CONFIRMED,
            utf8("Not confirmed"@),
        ),
        !(p is Message) && r.result != "ok"@ && r.result != "notok"@ && r.result != "cancel"@
            && r.result != "timeout"@ && r.result != "busy"@ ==> reply_lines(p, Ok(r))
            == err_line(
            ERR_PIN_ENTRY,
            utf8(
                match r.message {
                    Some(m) => m,
                    None => "Dialog error"@,
                },
            ),
        ),
{
    reveal_strlit("ok");
    reveal_strlit("notok");
    reveal_strlit("cancel");
    reveal_strlit("timeout");
    reveal_strlit("busy");
    assert("ok"@.len() == 2 && "notok"@.len() == 5 && "cancel"@.len() == 6);
    assert("timeout"@.len() == 7 && "busy"@.len() == 4);
}

/// The command names are all different, none is empty and none starts a
/// comment.
pub proof fn lemma_command_names()
    ensures
        "HELP"@.len() > 0 && "HELP"@[0] != '#',
        "NOP"@.len() > 0 && "NOP"@[0] != '#',
        "CLEARPASSPHRASE"@.len() > 0 && "CLEARPASSPHRASE"@[0] != '#',
        "SETCONSTRAINTS"@.len() > 0 && "SETCONSTRAINTS"@[0] != '#',
        "SETREPEATOK"@.len() > 0 && "SETREPEATOK"@[0] != '#',
        "SETGENPIN_TT"@.len() > 0 && "SETGENPIN_TT"@[0] != '#',
        "SETGENPIN"@.len() > 0 && "SETGENPIN"@[0] != '#',
        "SETQUALITYBAR_TT"@.len() > 0 && "SETQUALITYBAR_TT"@[0] != '#',
        "SETQUALITYBAR"@.len() > 0 && "SETQUALITYBAR"@[0] != '#',
        "SETKEYINFO"@.len() > 0 && "SETKEYINFO"@[0] != '#',
        "OPTION"@.len() > 0 && "OPTION"@[0] != '#',
        "BYE"@.len() > 0 && "BYE"@[0] != '#',
        "RESET"@.len() > 0 && "RESET"@[0] != '#',
        "GETINFO"@.len() > 0 && "GETINFO"@[0] != '#',
        "MESSAGE"@.len() > 0 && "MESSAGE"@[0] != '#',
        "CONFIRM"@.len() > 0 && "CONFIRM"@[0] != '#',
        "GETPIN"@.len() > 0 && "GETPIN"@[0] != '#',
        "SETTIMEOUT"@.len() > 0 && "SETTIMEOUT"@[0] != '#',
        "SETREPEATERROR"@.len() > 0 && "SETREPEATERROR"@[0] != '#',
        "SETREPEAT"@.len() > 0 && "SETREPEAT"@[0] != '#',
        "SETNOTOK"@.len() > 0 && "SETNOTOK"@[0] != '#',
        "SETCANCEL"@.len() > 0 && "SETCANCEL"@[0] != '#',
        "SETOK"@.len() > 0 && "SETOK"@[0] != '#',
        "SETERROR"@.len() > 0 && "SETERROR"@[0] != '#',
        "SETPROMPT"@.len() > 0 && "SETPROMPT"@[0] != '#',
        "SETDESC"@.len() > 0 && "SETDESC"@[0] != '#',
        "SETTITLE"@.len() > 0 && "SETTITLE"@[0] != '#',
        "SETDESC"@ != "SETTITLE"@,
        "SETPROMPT"@ != "SETTITLE"@,
        "SETPROMPT"@ != "SETDESC"@,
        "SETERROR"@ != "SETTITLE"@,
        "SETERROR"@ != "SETDESC"@,
        "SETERROR"@ != "SETPROMPT"@,
        "SETOK"@ != "SETTITLE"@,
        "SETOK"@ != "SETDESC"@,
        "SETOK"@ != "SETPROMPT"@,
        "SETOK"@ != "SETERROR"@,
        "SETCANCEL"@ != "SETTITLE"@,
        "SETCANCEL"@ != "SETDESC"@,
        "SETCANCEL"@ != "SETPROMPT"@,
        "SETCANCEL"@ != "SETERROR"@,
        "SETCANCEL"@ != "SETOK"@,
        "SETNOTOK"@ != "SETTITLE"@,
        "SETNOTOK"@ != "SETDESC"@,
        "SETNOTOK"@ != "SETPROMPT"@,
        "SETNOTOK"@ != "SETERROR"@,
        "SETNOTOK"@ != "SETOK"@,
        "SETNOTOK"@ != "SETCANCEL"@,
        "SETREPEAT"@ != "SETTITLE"@,
        "SETREPEAT"@ != "SETDESC"@,
        "SETREPEAT"@ != "SETPROMPT"@,
        "SETREPEAT"@ != "SETERROR"@,
        "SETREPEAT"@ != "SETOK"@,
        "SETREPEAT"@ != "SETCANCEL"@,
        "SETREPEAT"@ != "SETNOTOK"@,
        "SETREPEATERROR"@ != "SETTITLE"@,
        "SETREPEATERROR"@ != "SETDESC"@,
        "SETREPEATERROR"@ != "SETPROMPT"@,
        "SETREPEATERROR"@ != "SETERROR"@,
        "SETREPEATERROR"@ != "SETOK"@,
        "SETREPEATERROR"@ != "SETCANCEL"@,
        "SETREPEATERROR"@ != "SETNOTOK"@,
        "SETREPEATERROR"@ != "SETREPEAT"@,
        "SETTIMEOUT"@ != "SETTITLE"@,
        "SETTIMEOUT"@ != "SETDESC"@,
        "SETTIMEOUT"@ != "SETPROMPT"@,
        "SETTIMEOUT"@ != "SETERROR"@,
        "SETTIMEOUT"@ != "SETOK"@,
        "SETTIMEOUT"@ != "SETCANCEL"@,
        "SETTIMEOUT"@ != "SETNOTOK"@,
        "SETTIMEOUT"@ != "SETREPEAT"@,
        "SETTIMEOUT"@ != "SETREPEATERROR"@,
        "GETPIN"@ != "SETTITLE"@,
        "GETPIN"@ != "SETDESC"@,
        "GETPIN"@ != "SETPROMPT"@,
        "GETPIN"@ != "SETERROR"@,
        "GETPIN"@ != "SETOK"@,
        "GETPIN"@ != "SETCANCEL"@,
        "GETPIN"@ != "SETNOTOK"@,
        "GETPIN"@ != "SETREPEAT"@,
        "GETPIN"@ != "SETREPEATERROR"@,
        "GETPIN"@ != "SETTIMEOUT"@,
        "CONFIRM"@ != "SETTITLE"@,
        "CONFIRM"@ != "SETDESC"@,
        "CONFIRM"@ != "SETPROMPT"@,
        "CONFIRM"@ != "SETERROR"@,
        "CONFIRM"@ != "SETOK"@,
        "CONFIRM"@ != "SETCANCEL"@,
        "CONFIRM"@ != "SETNOTOK"@,
        "CONFIRM"@ != "SETREPEAT"@,
        "CONFIRM"@ != "SETREPEATERROR"@,
        "CONFIRM"@ != "SETTIMEOUT"@,
        "CONFIRM"@ != "GETPIN"@,
        "MESSAGE"@ != "SETTITLE"@,
        "MESSAGE"@ != "SETDESC"@,
        "MESSAGE"@ != "SETPROMPT"@,
        "MESSAGE"@ != "SETERROR"@,
        "MESSAGE"@ != "SETOK"@,
        "MESSAGE"@ != "SETCANCEL"@,
        "MESSAGE"@ != "SETNOTOK"@,
        "MESSAGE"@ != "SETREPEAT"@,
        "MESSAGE"@ != "SETREPEATERROR"@,
        "MESSAGE"@ != "SETTIMEOUT"@,
        "MESSAGE"@ != "GETPIN"@,
        "MESSAGE"@ != "CONFIRM"@,
        "GETINFO"@ != "SETTITLE"@,
        "GETINFO"@ != "SETDESC"@,
        "GETINFO"@ != "SETPROMPT"@,
        "GETINFO"@ != "SETERROR"@,
        "GETINFO"@ != "SETOK"@,
        "GETINFO"@ != "SETCANCEL"@,
        "GETINFO"@ != "SETNOTOK"@,
        "GETINFO"@ != "SETREPEAT"@,
        "GETINFO"@ != "SETREPEATERROR"@,
        "GETINFO"@ != "SETTIMEOUT"@,
        "GETINFO"@ != "GETPIN"@,
        "GETINFO"@ != "CONFIRM"@,
        "GETINFO"@ != "MESSAGE"@,
        "RESET"@ != "SETTITLE"@,
        "RESET"@ != "SETDESC"@,
        "RESET"@ != "SETPROMPT"@,
        "RESET"@ != "SETERROR"@,
        "RESET"@ != "SETOK"@,
        "RESET"@ != "SETCANCEL"@,
        "RESET"@ != "SETNOTOK"@,
        "RESET"@ != "SETREPEAT"@,
        "RESET"@ != "SETREPEATERROR"@,
        "RESET"@ != "SETTIMEOUT"@,
        "RESET"@ != "GETPIN"@,
        "RESET"@ != "CONFIRM"@,
        "RESET"@ != "MESSAGE"@,
        "RESET"@ != "GETINFO"@,
        "BYE"@ != "SETTITLE"@,
        "BYE"@ != "SETDESC"@,
        "BYE"@ != "SETPROMPT"@,
        "BYE"@ != "SETERROR"@,
        "BYE"@ != "SETOK"@,
        "BYE"@ != "SETCANCEL"@,
        "BYE"@ != "SETNOTOK"@,
        "BYE"@ != "SETREPEAT"@,
        "BYE"@ != "SETREPEATERROR"@,
        "BYE"@ != "SETTIMEOUT"@,
        "BYE"@ != "GETPIN"@,
        "BYE"@ != "CONFIRM"@,
        "BYE"@ != "MESSAGE"@,
        "BYE"@ != "GETINFO"@,
        "BYE"@ != "RESET"@,
        "OPTION"@ != "SETTITLE"@,
        "OPTION"@ != "SETDESC"@,
        "OPTION"@ != "SETPROMPT"@,
        "OPTION"@ != "SETERROR"@,
        "OPTION"@ != "SETOK"@,
        "OPTION"@ != "SETCANCEL"@,
        "OPTION"@ != "SETNOTOK"@,
        "OPTION"@ != "SETREPEAT"@,
        "OPTION"@ != "SETREPEATERROR"@,
        "OPTION"@ != "SETTIMEOUT"@,
        "OPTION"@ != "GETPIN"@,
        "OPTION"@ != "CONFIRM"@,
        "OPTION"@ != "MESSAGE"@,
        "OPTION"@ != "GETINFO"@,
        "OPTION"@ != "RESET"@,
        "OPTION"@ != "BYE"@,
        "SETKEYINFO"@ != "SETTITLE"@,
        "SETKEYINFO"@ != "SETDESC"@,
        "SETKEYINFO"@ != "SETPROMPT"@,
        "SETKEYINFO"@ != "SETERROR"@,
        "SETKEYINFO"@ != "SETOK"@,
        "SETKEYINFO"@ != "SETCANCEL"@,
        "SETKEYINFO"@ != "SETNOTOK"@,
        "SETKEYINFO"@ != "SETREPEAT"@,
        "SETKEYINFO"@ != "SETREPEATERROR"@,
        "SETKEYINFO"@ != "SETTIMEOUT"@,
        "SETKEYINFO"@ != "GETPIN"@,
        "SETKEYINFO"@ != "CONFIRM"@,
        "SETKEYINFO"@ != "MESSAGE"@,
        "SETKEYINFO"@ != "GETINFO"@,
        "SETKEYINFO"@ != "RESET"@,
        "SETKEYINFO"@ != "BYE"@,
        "SETKEYINFO"@ != "OPTION"@,
        "SETQUALITYBAR"@ != "SETTITLE"@,
        "SETQUALITYBAR"@ != "SETDESC"@,
        "SETQUALITYBAR"@ != "SETPROMPT"@,
        "SETQUALITYBAR"@ != "SETERROR"@,
        "SETQUALITYBAR"@ != "SETOK"@,
        "SETQUALITYBAR"@ != "SETCANCEL"@,
        "SETQUALITYBAR"@ != "SETNOTOK"@,
        "SETQUALITYBAR"@ != "SETREPEAT"@,
        "SETQUALITYBAR"@ != "SETREPEATERROR"@,
        "SETQUALITYBAR"@ != "SETTIMEOUT"@,
        "SETQUALITYBAR"@ != "GETPIN"@,
        "SETQUALITYBAR"@ != "CONFIRM"@,
        "SETQUALITYBAR"@ != "MESSAGE"@,
        "SETQUALITYBAR"@ != "GETINFO"@,
        "SETQUALITYBAR"@ != "RESET"@,
        "SETQUALITYBAR"@ != "BYE"@,
        "SETQUALITYBAR"@ != "OPTION"@,
        "SETQUALITYBAR"@ != "SETKEYINFO"@,
        "SETQUALITYBAR_TT"@ != "SETTITLE"@,
        "SETQUALITYBAR_TT"@ != "SETDESC"@,
        "SETQUALITYBAR_TT"@ != "SETPROMPT"@,
        "SETQUALITYBAR_TT"@ != "SETERROR"@,
        "SETQUALITYBAR_TT"@ != "SETOK"@,
        "SETQUALITYBAR_TT"@ != "SETCANCEL"@,
        "SETQUALITYBAR_TT"@ != "SETNOTOK"@,
        "SETQUALITYBAR_TT"@ != "SETREPEAT"@,
        "SETQUALITYBAR_TT"@ != "SETREPEATERROR"@,
        "SETQUALITYBAR_TT"@ != "SETTIMEOUT"@,
        "SETQUALITYBAR_TT"@ != "GETPIN"@,
        "SETQUALITYBAR_TT"@ != "CONFIRM"@,
        "SETQUALITYBAR_TT"@ != "MESSAGE"@,
        "SETQUALITYBAR_TT"@ != "GETINFO"@,
        "SETQUALITYBAR_TT"@ != "RESET"@,
        "SETQUALITYBAR_TT"@ != "BYE"@,
        "SETQUALITYBAR_TT"@ != "OPTION"@,
        "SETQUALITYBAR_TT"@ != "SETKEYINFO"@,
        "SETQUALITYBAR_TT"@ != "SETQUALITYBAR"@,
        "SETGENPIN"@ != "SETTITLE"@,
        "SETGENPIN"@ != "SETDESC"@,
        "SETGENPIN"@ != "SETPROMPT"@,
        "SETGENPIN"@ != "SETERROR"@,
        "SETGENPIN"@ != "SETOK"@,
        "SETGENPIN"@ != "SETCANCEL"@,
        "SETGENPIN"@ != "SETNOTOK"@,
        "SETGENPIN"@ != "SETREPEAT"@,
        "SETGENPIN"@ != "SETREPEATERROR"@,
        "SETGENPIN"@ != "SETTIMEOUT"@,
        "SETGENPIN"@ != "GETPIN"@,
        "SETGENPIN"@ != "CONFIRM"@,
        "SETGENPIN"@ != "MESSAGE"@,
        "SETGENPIN"@ != "GETINFO"@,
        "SETGENPIN"@ != "RESET"@,
        "SETGENPIN"@ != "BYE"@,
        "SETGENPIN"@ != "OPTION"@,
        "SETGENPIN"@ != "SETKEYINFO"@,
        "SETGENPIN"@ != "SETQUALITYBAR"@,
        "SETGENPIN"@ != "SETQUALITYBAR_TT"@,
        "SETGENPIN_TT"@ != "SETTITLE"@,
        "SETGENPIN_TT"@ != "SETDESC"@,
        "SETGENPIN_TT"@ != "SETPROMPT"@,
        "SETGENPIN_TT"@ != "SETERROR"@,
        "SETGENPIN_TT"@ != "SETOK"@,
        "SETGENPIN_TT"@ != "SETCANCEL"@,
        "SETGENPIN_TT"@ != "SETNOTOK"@,
        "SETGENPIN_TT"@ != "SETREPEAT"@,
        "SETGENPIN_TT"@ != "SETREPEATERROR"@,
        "SETGENPIN_TT"@ != "SETTIMEOUT"@,
        "SETGENPIN_TT"@ != "GETPIN"@,
        "SETGENPIN_TT"@ != "CONFIRM"@,
        "SETGENPIN_TT"@ != "MESSAGE"@,
        "SETGENPIN_TT"@ != "GETINFO"@,
        "SETGENPIN_TT"@ != "RESET"@,
        "SETGENPIN_TT"@ != "BYE"@,
        "SETGENPIN_TT"@ != "OPTION"@,
        "SETGENPIN_TT"@ != "SETKEYINFO"@,
        "SETGENPIN_TT"@ != "SETQUALITYBAR"@,
        "SETGENPIN_TT"@ != "SETQUALITYBAR_TT"@,
        "SETGENPIN_TT"@ != "SETGENPIN"@,
        "SETREPEATOK"@ != "SETTITLE"@,
        "SETREPEATOK"@ != "SETDESC"@,
        "SETREPEATOK"@ != "SETPROMPT"@,
        "SETREPEATOK"@ != "SETERROR"@,
        "SETREPEATOK"@ != "SETOK"@,
        "SETREPEATOK"@ != "SETCANCEL"@,
        "SETREPEATOK"@ != "SETNOTOK"@,
        "SETREPEATOK"@ != "SETREPEAT"@,
        "SETREPEATOK"@ != "SETREPEATERROR"@,
        "SETREPEATOK"@ != "SETTIMEOUT"@,
        "SETREPEATOK"@ != "GETPIN"@,
        "SETREPEATOK"@ != "CONFIRM"@,
        "SETREPEATOK"@ != "MESSAGE"@,
        "SETREPEATOK"@ != "GETINFO"@,
        "SETREPEATOK"@ != "RESET"@,
        "SETREPEATOK"@ != "BYE"@,
        "SETREPEATOK"@ != "OPTION"@,
        "SETREPEATOK"@ != "SETKEYINFO"@,
        "SETREPEATOK"@ != "SETQUALITYBAR"@,
        "SETREPEATOK"@ != "SETQUALITYBAR_TT"@,
        "SETREPEATOK"@ != "SETGENPIN"@,
        "SETREPEATOK"@ != "SETGENPIN_TT"@,
        "SETCONSTRAINTS"@ != "SETTITLE"@,
        "SETCONSTRAINTS"@ != "SETDESC"@,
        "SETCONSTRAINTS"@ != "SETPROMPT"@,
        "SETCONSTRAINTS"@ != "SETERROR"@,
        "SETCONSTRAINTS"@ != "SETOK"@,
        "SETCONSTRAINTS"@ != "SETCANCEL"@,
        "SETCONSTRAINTS"@ != "SETNOTOK"@,
        "SETCONSTRAINTS"@ != "SETREPEAT"@,
        "SETCONSTRAINTS"@ != "SETREPEATERROR"@,
        "SETCONSTRAINTS"@ != "SETTIMEOUT"@,
        "SETCONSTRAINTS"@ != "GETPIN"@,
        "SETCONSTRAINTS"@ != "CONFIRM"@,
        "SETCONSTRAINTS"@ != "MESSAGE"@,
        "SETCONSTRAINTS"@ != "GETINFO"@,
        "SETCONSTRAINTS"@ != "RESET"@,
        "SETCONSTRAINTS"@ != "BYE"@,
        "SETCONSTRAINTS"@ != "OPTION"@,
        "SETCONSTRAINTS"@ != "SETKEYINFO"@,
        "SETCONSTRAINTS"@ != "SETQUALITYBAR"@,
        "SETCONSTRAINTS"@ != "SETQUALITYBAR_TT"@,
        "SETCONSTRAINTS"@ != "SETGENPIN"@,
        "SETCONSTRAINTS"@ != "SETGENPIN_TT"@,
        "SETCONSTRAINTS"@ != "SETREPEATOK"@,
        "CLEARPASSPHRASE"@ != "SETTITLE"@,
        "CLEARPASSPHRASE"@ != "SETDESC"@,
        "CLEARPASSPHRASE"@ != "SETPROMPT"@,
        "CLEARPASSPHRASE"@ != "SETERROR"@,
        "CLEARPASSPHRASE"@ != "SETOK"@,
        "CLEARPASSPHRASE"@ != "SETCANCEL"@,
        "CLEARPASSPHRASE"@ != "SETNOTOK"@,
        "CLEARPASSPHRASE"@ != "SETREPEAT"@,
        "CLEARPASSPHRASE"@ != "SETREPEATERROR"@,
        "CLEARPASSPHRASE"@ != "SETTIMEOUT"@,
        "CLEARPASSPHRASE"@ != "GETPIN"@,
        "CLEARPASSPHRASE"@ != "CONFIRM"@,
        "CLEARPASSPHRASE"@ != "MESSAGE"@,
        "CLEARPASSPHRASE"@ != "GETINFO"@,
        "CLEARPASSPHRASE"@ != "RESET"@,
        "CLEARPASSPHRASE"@ != "BYE"@,
        "CLEARPASSPHRASE"@ != "OPTION"@,
        "CLEARPASSPHRASE"@ != "SETKEYINFO"@,
        "CLEARPASSPHRASE"@ != "SETQUALITYBAR"@,
        "CLEARPASSPHRASE"@ != "SETQUALITYBAR_TT"@,
        "CLEARPASSPHRASE"@ != "SETGENPIN"@,
        "CLEARPASSPHRASE"@ != "SETGENPIN_TT"@,
        "CLEARPASSPHRASE"@ != "SETREPEATOK"@,
        "CLEARPASSPHRASE"@ != "SETCONSTRAINTS"@,
        "NOP"@ != "SETTITLE"@,
        "NOP"@ != "SETDESC"@,
        "NOP"@ != "SETPROMPT"@,
        "NOP"@ != "SETERROR"@,
        "NOP"@ != "SETOK"@,
        "NOP"@ != "SETCANCEL"@,
        "NOP"@ != "SETNOTOK"@,
        "NOP"@ != "SETREPEAT"@,
        "NOP"@ != "SETREPEATERROR"@,
        "NOP"@ != "SETTIMEOUT"@,
        "NOP"@ != "GETPIN"@,
        "NOP"@ != "CONFIRM"@,
        "NOP"@ != "MESSAGE"@,
        "NOP"@ != "GETINFO"@,
        "NOP"@ != "RESET"@,
        "NOP"@ != "BYE"@,
        "NOP"@ != "OPTION"@,
        "NOP"@ != "SETKEYINFO"@,
        "NOP"@ != "SETQUALITYBAR"@,
        "NOP"@ != "SETQUALITYBAR_TT"@,
        "NOP"@ != "SETGENPIN"@,
        "NOP"@ != "SETGENPIN_TT"@,
        "NOP"@ != "SETREPEATOK"@,
        "NOP"@ != "SETCONSTRAINTS"@,
        "NOP"@ != "CLEARPASSPHRASE"@,
        "HELP"@ != "SETTITLE"@,
        "HELP"@ != "SETDESC"@,
        "HELP"@ != "SETPROMPT"@,
        "HELP"@ != "SETERROR"@,
        "HELP"@ != "SETOK"@,
        "HELP"@ != "SETCANCEL"@,
        "HELP"@ != "SETNOTOK"@,
        "HELP"@ != "SETREPEAT"@,
        "HELP"@ != "SETREPEATERROR"@,
        "HELP"@ != "SETTIMEOUT"@,
        "HELP"@ != "GETPIN"@,
        "HELP"@ != "CONFIRM"@,
        "HELP"@ != "MESSAGE"@,
        "HELP"@ != "GETINFO"@,
        "HELP"@ != "RESET"@,
        "HELP"@ != "BYE"@,
        "HELP"@ != "OPTION"@,
        "HELP"@ != "SETKEYINFO"@,
        "HELP"@ != "SETQUALITYBAR"@,
        "HELP"@ != "SETQUALITYBAR_TT"@,
        "HELP"@ != "SETGENPIN"@,
        "HELP"@ != "SETGENPIN_TT"@,
        "HELP"@ != "SETREPEATOK"@,
        "HELP"@ != "SETCONSTRAINTS"@,
        "HELP"@ != "CLEARPASSPHRASE"@,
        "HELP"@ != "NOP"@,
{
    reveal_strlit("SETTITLE");
    reveal_strlit("SETDESC");
    reveal_strlit("SETPROMPT");
    reveal_strlit("SETERROR");
    reveal_strlit("SETOK");
    reveal_strlit("SETCANCEL");
    reveal_strlit("SETNOTOK");
    reveal_strlit("SETREPEAT");
    reveal_strlit("SETREPEATERROR");
    reveal_strlit("SETTIMEOUT");
    reveal_strlit("GETPIN");
    reveal_strlit("CONFIRM");
    reveal_strlit("MESSAGE");
    reveal_strlit("GETINFO");
    reveal_strlit("RESET");
    reveal_strlit("BYE");
    reveal_strlit("OPTION");
    reveal_strlit("SETKEYINFO");
    reveal_strlit("SETQUALITYBAR");
    reveal_strlit("SETQUALITYBAR_TT");
    reveal_strlit("SETGENPIN");
    reveal_strlit("SETGENPIN_TT");
    reveal_strlit("SETREPEATOK");
    reveal_strlit("SETCONSTRAINTS");
    reveal_strlit("CLEARPASSPHRASE");
    reveal_strlit("NOP");
    reveal_strlit("HELP");
    assert("SETTITLE"@.len() == 8 && "SETTITLE"@[0] == 'S');
    assert("SETDESC"@.len() == 7 && "SETDESC"@[0] == 'S');
    assert("SETPROMPT"@.len() == 9 && "SETPROMPT"@[0] == 'S');
    assert("SETERROR"@.len() == 8 && "SETERROR"@[0] == 'S');
    assert("SETOK"@.len() == 5 && "SETOK"@[0] == 'S');
    assert("SETCANCEL"@.len() == 9 && "SETCANCEL"@[0] == 'S');
    assert("SETNOTOK"@.len() == 8 && "SETNOTOK"@[0] == 'S');
    assert("SETREPEAT"@.len() == 9 && "SETREPEAT"@[0] == 'S');
    assert("SETREPEATERROR"@.len() == 14 && "SETREPEATERROR"@[0] == 'S');
    assert("SETTIMEOUT"@.len() == 10 && "SETTIMEOUT"@[0] == 'S');
    assert("GETPIN"@.len() == 6 && "GETPIN"@[0] == 'G');
    assert("CONFIRM"@.len() == 7 && "CONFIRM"@[0] == 'C');
    assert("MESSAGE"@.len() == 7 && "MESSAGE"@[0] == 'M');
    assert("GETINFO"@.len() == 7 && "GETINFO"@[0] == 'G');
    assert("RESET"@.len() == 5 && "RESET"@[0] == 'R');
    assert("BYE"@.len() == 3 && "BYE"@[0] == 'B');
    assert("OPTION"@.len() == 6 && "OPTION"@[0] == 'O');
    assert("SETKEYINFO"@.len() == 10 && "SETKEYINFO"@[0] == 'S');
    assert("SETQUALITYBAR"@.len() == 13 && "SETQUALITYBAR"@[0] == 'S');
    assert("SETQUALITYBAR_TT"@.len() == 16 && "SETQUALITYBAR_TT"@[0] == 'S');
    assert("SETGENPIN"@.len() == 9 && "SETGENPIN"@[0] == 'S');
    assert("SETGENPIN_TT"@.len() == 12 && "SETGENPIN_TT"@[0] == 'S');
    assert("SETREPEATOK"@.len() == 11 && "SETREPEATOK"@[0] == 'S');
    assert("SETCONSTRAINTS"@.len() == 14 && "SETCONSTRAINTS"@[0] == 'S');
    assert("CLEARPASSPHRASE"@.len() == 15 && "CLEARPASSPHRASE"@[0] == 'C');
    assert("NOP"@.len() == 3 && "NOP"@[0] == 'N');
    assert("HELP"@.len() == 4 && "HELP"@[0] == 'H');
    assert("SETERROR"@[3] != "SETTITLE"@[3]);
    assert("SETCANCEL"@[3] != "SETPROMPT"@[3]);
    assert("SETNOTOK"@[3] != "SETTITLE"@[3]);
    assert("SETNOTOK"@[3] != "SETERROR"@[3]);
    assert("SETREPEAT"@[3] != "SETPROMPT"@[3]);
    assert("SETREPEAT"@[3] != "SETCANCEL"@[3]);
    assert("SETKEYINFO"@[3] != "SETTIMEOUT"@[3]);
    assert("SETGENPIN"@[3] != "SETPROMPT"@[3]);
    assert("SETGENPIN"@[3] != "SETCANCEL"@[3]);
    assert("SETGENPIN"@[3] != "SETREPEAT"@[3]);
    assert("SETCONSTRAINTS"@[3] != "SETREPEATERROR"@[3]);
}

/// GETPIN, CONFIRM and MESSAGE answer nothing right away and ask the dialog:
/// GETPIN for a PIN (noting whether a repeat prompt is set), CONFIRM for a
/// confirmation (a message with "--one-button"), MESSAGE for a message.
/// The request is made from the settings as they were, with their
/// timeout; then SETERROR and SETREPEAT are used up and the rest stays.
pub proof fn lemma_prompt_commands(s: StateView, arg: Seq<u8>, info: InfoView)
    ensures
        ({
            let kept = StateView { error: Seq::empty(), repeat: Seq::empty(), ..s };
            let getpin = request_effect(s, "GETPIN"@, arg, info);
            let confirm = request_effect(s, "CONFIRM"@, arg, info);
            let message = request_effect(s, "MESSAGE"@, arg, info);
            let one_button = text_contains(utf8_lossy(arg), "--one-button"@);
            &&& getpin.state == kept && getpin.output.len() == 0
            &&& getpin.step == StepView::Ask {
                request: request_of(s, Kind::GetPin),
                timeout: s.timeout,
                prompt: Prompt::GetPin { repeat: s.repeat.len() > 0 },
            }
            &&& confirm.state == kept && confirm.output.len() == 0
            &&& !one_button ==> confirm.step == StepView::Ask {
                request: request_of(s, Kind::Confirm),
                timeout: s.timeout,
                prompt: Prompt::Confirm,
            }
            &&& one_button ==> confirm.step == StepView::Ask {
                request: request_of(s, Kind::Message),
                timeout: s.timeout,
                prompt: Prompt::Message,
            }
            &&& message.state == kept && message.output.len() == 0
            &&& message.step == StepView::Ask {
                request: request_of(s, Kind::Message),
                timeout: s.timeout,
                prompt: Prompt::Message,
            }
        }),
{
    lemma_command_names();
}

/// BYE answers "OK closing connection" and ends the session; the commands
/// accepted and ignored answer OK; a command nobody knows answers "Unknown
/// IPC command"; an empty command or a comment answers nothing. None of
/// them changes a setting.
pub proof fn lemma_other_commands(s: StateView, cmd: Seq<char>, arg: Seq<u8>, info: InfoView)
    ensures
        request_effect(s, "BYE"@, arg, info) == (Effect {
            state: s,
            output: ok_line(Some(utf8("closing connection"@))),
            step: StepView::Close,
        }),
        is_ignored(cmd) ==> request_effect(s, cmd, arg, info) == (Effect {
            state: s,
            output: ok_line(None),
            step: StepView::Continue,
        }),
        (cmd.len() == 0 || cmd[0] == '#') ==> request_effect(s, cmd, arg, info) == (Effect {
            state: s,
            output: Seq::empty(),
            step: StepView::Continue,
        }),
        (cmd.len() > 0 && cmd[0] != '#' && !is_ignored(cmd) && cmd != "SETTITLE"@ && cmd
            != "SETDESC"@ && cmd != "SETPROMPT"@ && cmd != "SETERROR"@ && cmd != "SETOK"@ && cmd
            != "SETCANCEL"@ && cmd != "SETNOTOK"@ && cmd != "SETREPEAT"@ && cmd
            != "SETREPEATERROR"@ && cmd != "SETTIMEOUT"@ && cmd != "GETPIN"@ && cmd != "CONFIRM"@
            && cmd != "MESSAGE"@ && cmd != "GETINFO"@ && cmd != "RESET"@ && cmd != "BYE"@)
            ==> request_effect(s, cmd, arg, info) == (Effect {
            state: s,
            output: err_line(ERR_UNKNOWN_CMD, utf8("Unknown IPC command"@)),
            step: StepView::Continue,
        }),
{
    lemma_command_names();
}

/// A SET* command that is carried out is answered OK; a SETTIMEOUT that is
/// refused is answered "invalid timeout" and changes nothing.
pub proof fn lemma_set_answers(s: StateView, cmd: Seq<char>, arg: Seq<u8>, info: InfoView)
    requires
        cmd.len() > 0,
        cmd[0] != '#',
    ensures
        applied(s, cmd, arg) matches Ok(Some(v)) ==> request_effect(s, cmd, arg, info) == (Effect {
            state: v,
            output: ok_line(None),
            step: StepView::Continue,
        }),
        applied(s, cmd, arg) is Err ==> request_effect(s, cmd, arg, info) == (Effect {
            state: s,
            output: err_line(ERR_INV_VALUE, utf8("invalid timeout"@)),
            step: StepView::Continue,
        }),
{
}

/// GETINFO answers the version, the process id, the flavor "omarchy" and
/// the tty info "- - -" in "D" lines followed by OK, and anything else with
/// an error; it changes no setting.
pub proof fn lemma_getinfo(s: StateView, arg: Seq<u8>, info: InfoView)
    ensures
        ({
            let e = request_effect(s, "GETINFO"@, arg, info);
            let what = trimmed(utf8_lossy(arg));
            &&& e.state == s && e.step is Continue
            &&& what == "version"@ ==> e.output == data_lines(encode_utf8(info.version)) + ok_line(
                None,
            )
            &&& what == "pid"@ ==> e.output == data_lines(encode_utf8(info.pid)) + ok_line(None)
            &&& what == "flavor"@ ==> e.output == data_lines(encode_utf8("omarchy"@)) + ok_line(
                None,
            )
            &&& what == "ttyinfo"@ ==> e.output == data_lines(encode_utf8("- - -"@)) + ok_line(
                None,
            )
            &&& (what != "version"@ && what != "pid"@ && what != "flavor"@ && what
                != "ttyinfo"@) ==> e.output == err_line(
                ERR_INV_VALUE,
                encode_utf8("Unknown value for WHAT"@),
            )
        }),
{
    lemma_command_names();
    reveal_strlit("version");
    reveal_strlit("pid");
    reveal_strlit("flavor");
    reveal_strlit("ttyinfo");
    assert("version"@.len() == 7 && "pid"@.len() == 3 && "flavor"@.len() == 6);
    assert("ttyinfo"@.len() == 7 && "ttyinfo"@[0] != "version"@[0]);
}

/// A request line longer than Assuan allows is answered "Line too long" and
/// changes nothing; any other line is handled as its command and argument.
pub proof fn lemma_line_length(s: StateView, line: Seq<u8>, info: InfoView)
    ensures
        line.len() > MAX_REQUEST_LINE ==> line_effect(s, line, info) == (Effect {
            state: s,
            output: err_line(ERR_LINE_TOO_LONG, encode_utf8("Line too long"@)),
            step: StepView::Continue,
        }),
        line.len() <= MAX_REQUEST_LINE ==> line_effect(s, line, info) == request_effect(
            s,
            ascii_upper(utf8_lossy(command_bytes(line))),
            argument_bytes(line),
            info,
        ),
{
}

/// The session opens with "OK Pleased to meet you, process " and the
/// process id (when it holds no control byte and fits the line).
pub proof fn lemma_greeting(info: InfoView)
    ensures
        ({
            let text = encode_utf8("Pleased to meet you, process "@ + info.pid);
            (text.len() + 4 <= MAX_RESPONSE_LINE && forall|i: int|
                0 <= i < text.len() ==> !is_control_byte(#[trigger] text[i])) ==> greeting(info)
                == seq![0x4fu8, 0x4bu8, 0x20u8] + text + seq![10u8]
        }),
{
    let text = encode_utf8("Pleased to meet you, process "@ + info.pid);
    if text.len() + 4 <= MAX_RESPONSE_LINE && forall|i: int|
        0 <= i < text.len() ==> !is_control_byte(#[trigger] text[i]) {
        lemma_line_text_keeps(text, MAX_RESPONSE_LINE - 4);
    }
}

} // verus!

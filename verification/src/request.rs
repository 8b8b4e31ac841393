//! The dialog settings gathered from gpg-agent's SET* commands, and the
//! request they make for the dialog.

use vstd::prelude::*;
use vstd::string::StringExecFns;

use crate::assuan::{
    is_hidden, mnemonic_free, percent_decode, percent_decoded, sanitize_display, strip_mnemonic,
    without_hidden,
};
use crate::text::{
    parse_u64, parsed_u64, same_text, trim, trim_end, trim_prompt, trim_start, trimmed,
    utf8_lossy, without_trailing_colons,
};

verus! {

/// Protocol version spoken with the plugin; a plugin from another version
/// rejects the request instead of misreading the PIN.
pub const PROTOCOL_VERSION: u32 = 2;

/// Longest SETTIMEOUT honoured (one day). Keeps the plugin's millisecond
/// timer and our read deadline in range.
pub const MAX_TIMEOUT_SECS: u64 = 86_400;

/// Dialog settings accumulated from SET* commands until the next
/// GETPIN / CONFIRM / MESSAGE.
pub struct State {
    pub title: String,
    pub desc: String,
    pub prompt: String,
    pub error: String,
    pub ok: String,
    pub cancel: String,
    pub notok: String,
    pub repeat: String,
    pub repeat_error: String,
    pub timeout: u64,
}

/// The settings of a `State`, as texts.
pub struct StateView {
    pub title: Seq<char>,
    pub desc: Seq<char>,
    pub prompt: Seq<char>,
    pub error: Seq<char>,
    pub ok: Seq<char>,
    pub cancel: Seq<char>,
    pub notok: Seq<char>,
    pub repeat: Seq<char>,
    pub repeat_error: Seq<char>,
    pub timeout: u64,
}

impl View for State {
    type V = StateView;

    open spec fn view(&self) -> StateView {
        StateView {
            title: self.title@,
            desc: self.desc@,
            prompt: self.prompt@,
            error: self.error@,
            ok: self.ok@,
            cancel: self.cancel@,
            notok: self.notok@,
            repeat: self.repeat@,
            repeat_error: self.repeat_error@,
            timeout: self.timeout,
        }
    }
}

/// Text free of the characters that could disguise what the dialog shows.
pub open spec fn displayable(s: Seq<char>) -> bool {
    forall|i: int| 0 <= i < s.len() ==> !is_hidden(#[trigger] s[i])
}

impl StateView {
    /// No settings: what a session starts with, and what RESET restores.
    pub open spec fn empty() -> StateView {
        StateView {
            title: Seq::empty(),
            desc: Seq::empty(),
            prompt: Seq::empty(),
            error: Seq::empty(),
            ok: Seq::empty(),
            cancel: Seq::empty(),
            notok: Seq::empty(),
            repeat: Seq::empty(),
            repeat_error: Seq::empty(),
            timeout: 0,
        }
    }

    /// Every text setting is displayable.
    pub open spec fn displayable(self) -> bool {
        &&& displayable(self.title)
        &&& displayable(self.desc)
        &&& displayable(self.prompt)
        &&& displayable(self.error)
        &&& displayable(self.ok)
        &&& displayable(self.cancel)
        &&& displayable(self.notok)
        &&& displayable(self.repeat)
        &&& displayable(self.repeat_error)
    }
}

/// The text that a SET* command's argument sets: percent-decoded, read as
/// UTF-8, and stripped of hidden characters.
pub open spec fn display_text(arg: Seq<u8>) -> Seq<char> {
    without_hidden(utf8_lossy(percent_decoded(arg)))
}

/// The number of seconds that SETTIMEOUT's argument gives, if it is one.
pub open spec fn timeout_value(arg: Seq<u8>) -> Option<u64> {
    parsed_u64(trimmed(utf8_lossy(percent_decoded(arg))))
}

/// What a command does to the settings: `Ok(Some(..))` with the new
/// settings for the SET* commands, `Ok(None)` for the commands that are
/// not SET*, `Err(())` for a SETTIMEOUT without a number.
pub open spec fn applied(s: StateView, cmd: Seq<char>, arg: Seq<u8>) -> Result<
    Option<StateView>,
    (),
> {
    let text = display_text(arg);
    if cmd == "SETTITLE"@ {
        Ok(Some(StateView { title: text, ..s }))
    } else if cmd == "SETDESC"@ {
        Ok(Some(StateView { desc: text, ..s }))
    } else if cmd == "SETPROMPT"@ {
        Ok(Some(StateView { prompt: text, ..s }))
    } else if cmd == "SETERROR"@ {
        Ok(Some(StateView { error: text, ..s }))
    } else if cmd == "SETOK"@ {
        Ok(Some(StateView { ok: mnemonic_free(text), ..s }))
    } else if cmd == "SETCANCEL"@ {
        Ok(Some(StateView { cancel: mnemonic_free(text), ..s }))
    } else if cmd == "SETNOTOK"@ {
        Ok(Some(StateView { notok: mnemonic_free(text), ..s }))
    } else if cmd == "SETREPEAT"@ {
        Ok(
            Some(
                StateView {
                    repeat: if text.len() == 0 {
                        "Repeat"@
                    } else {
                        text
                    },
                    ..s
                },
            ),
        )
    } else if cmd == "SETREPEATERROR"@ {
        Ok(Some(StateView { repeat_error: text, ..s }))
    } else if cmd == "SETTIMEOUT"@ {
        match timeout_value(arg) {
            Some(secs) => Ok(
                Some(
                    StateView {
                        timeout: if secs < MAX_TIMEOUT_SECS {
                            secs
                        } else {
                            MAX_TIMEOUT_SECS
                        },
                        ..s
                    },
                ),
            ),
            None => Err(()),
        }
    } else {
        Ok(None)
    }
}

/// What the dialog is asked to do.
#[derive(Clone, Copy, Debug)]
pub enum Kind {
    GetPin,
    Confirm,
    Message,
}

/// One request for the dialog. The program around the library sends it
/// as a line of JSON, leaving out the empty texts and a zero timeout.
pub struct Request {
    pub v: u32,
    pub kind: String,
    pub title: String,
    pub desc: String,
    pub prompt: String,
    pub error: String,
    pub ok: String,
    pub cancel: String,
    pub notok: String,
    pub repeat: String,
    pub repeat_error: String,
    pub timeout: u64,
}

/// The fields of a `Request`, as texts.
pub struct RequestView {
    pub v: u32,
    pub kind: Seq<char>,
    pub title: Seq<char>,
    pub desc: Seq<char>,
    pub prompt: Seq<char>,
    pub error: Seq<char>,
    pub ok: Seq<char>,
    pub cancel: Seq<char>,
    pub notok: Seq<char>,
    pub repeat: Seq<char>,
    pub repeat_error: Seq<char>,
    pub timeout: u64,
}

impl View for Request {
    type V = RequestView;

    open spec fn view(&self) -> RequestView {
        RequestView {
            v: self.v,
            kind: self.kind@,
            title: self.title@,
            desc: self.desc@,
            prompt: self.prompt@,
            error: self.error@,
            ok: self.ok@,
            cancel: self.cancel@,
            notok: self.notok@,
            repeat: self.repeat@,
            repeat_error: self.repeat_error@,
            timeout: self.timeout,
        }
    }
}

impl RequestView {
    /// Every text field is displayable.
    pub open spec fn displayable(self) -> bool {
        &&& displayable(self.kind)
        &&& displayable(self.title)
        &&& displayable(self.desc)
        &&& displayable(self.prompt)
        &&& displayable(self.error)
        &&& displayable(self.ok)
        &&& displayable(self.cancel)
        &&& displayable(self.notok)
        &&& displayable(self.repeat)
        &&& displayable(self.repeat_error)
    }
}

/// The name a request kind goes by in the protocol.
pub open spec fn kind_name(kind: Kind) -> Seq<char> {
    match kind {
        Kind::GetPin => "getpin"@,
        Kind::Confirm => "confirm"@,
        Kind::Message => "message"@,
    }
}

/// A prompt as a placeholder: trimmed, and without the colon that
/// terminal pinentries end it with.
pub open spec fn placeholder(s: Seq<char>) -> Seq<char> {
    without_trailing_colons(trimmed(s))
}

/// The request that the settings `s` make for a dialog of kind `kind`.
/// Only GETPIN carries the prompt, the repeat prompt and its error.
pub open spec fn request_of(s: StateView, kind: Kind) -> RequestView {
    let getpin = kind is GetPin;
    RequestView {
        v: PROTOCOL_VERSION,
        kind: kind_name(kind),
        title: s.title,
        desc: s.desc,
        prompt: if getpin {
            placeholder(s.prompt)
        } else {
            Seq::empty()
        },
        error: s.error,
        ok: s.ok,
        cancel: s.cancel,
        notok: s.notok,
        repeat: if getpin {
            placeholder(s.repeat)
        } else {
            Seq::empty()
        },
        repeat_error: if getpin {
            s.repeat_error
        } else {
            Seq::empty()
        },
        timeout: s.timeout,
    }
}

impl Default for State {
    fn default() -> (s: Self)
        ensures
            s@ == StateView::empty(),
    {
        State {
            title: String::new(),
            desc: String::new(),
            prompt: String::new(),
            error: String::new(),
            ok: String::new(),
            cancel: String::new(),
            notok: String::new(),
            repeat: String::new(),
            repeat_error: String::new(),
            timeout: 0,
        }
    }
}

fn text_of(arg: &[u8]) -> (t: String)
    ensures
        t@ == display_text(arg@),
{
    sanitize_display(percent_decode(arg).as_str())
}

impl State {
    /// Applies a SET* command. Returns false for commands this module
    /// doesn't own.
    pub fn apply(&mut self, cmd: &str, arg: &[u8]) -> (r: Result<bool, &'static str>)
        ensures
            match applied(old(self)@, cmd@, arg@) {
                Ok(Some(v)) => r == Ok::<bool, &'static str>(true) && final(self)@ == v,
                Ok(None) => r == Ok::<bool, &'static str>(false) && final(self)@ == old(self)@,
                Err(_) => r is Err && r->Err_0@ == "invalid timeout"@ && final(self)@ == old(
                    self,
                )@,
            },
    {
        if same_text(cmd, "SETTITLE") {
            self.title = text_of(arg);
        } else if same_text(cmd, "SETDESC") {
            self.desc = text_of(arg);
        } else if same_text(cmd, "SETPROMPT") {
            self.prompt = text_of(arg);
        } else if same_text(cmd, "SETERROR") {
            self.error = text_of(arg);
        } else if same_text(cmd, "SETOK") {
            self.ok = strip_mnemonic(text_of(arg).as_str());
        } else if same_text(cmd, "SETCANCEL") {
            self.cancel = strip_mnemonic(text_of(arg).as_str());
        } else if same_text(cmd, "SETNOTOK") {
            self.notok = strip_mnemonic(text_of(arg).as_str());
        } else if same_text(cmd, "SETREPEAT") {
            let prompt = text_of(arg);
            self.repeat = if prompt.as_str().is_empty() {
                String::from_str("Repeat")
            } else {
                prompt
            };
        } else if same_text(cmd, "SETREPEATERROR") {
            self.repeat_error = text_of(arg);
        } else if same_text(cmd, "SETTIMEOUT") {
            let text = trim(percent_decode(arg).as_str());
            match parse_u64(text.as_str()) {
                Some(secs) => {
                    self.timeout = if secs < MAX_TIMEOUT_SECS {
                        secs
                    } else {
                        MAX_TIMEOUT_SECS
                    };
                },
                None => {
                    return Err("invalid timeout");
                },
            }
        } else {
            return Ok(false);
        }
        Ok(true)
    }

    pub fn request(&self, kind: Kind) -> (r: Request)
        ensures
            r@ == request_of(self@, kind),
    {
        let (name, getpin) = match kind {
            Kind::GetPin => (String::from_str("getpin"), true),
            Kind::Confirm => (String::from_str("confirm"), false),
            Kind::Message => (String::from_str("message"), false),
        };
        // The prompt usually ends with a colon for terminal pinentries; as a
        // placeholder it reads better without one.
        Request {
            v: PROTOCOL_VERSION,
            kind: name,
            title: self.title.clone(),
            desc: self.desc.clone(),
            prompt: if getpin {
                trim_prompt(self.prompt.as_str())
            } else {
                String::new()
            },
            error: self.error.clone(),
            ok: self.ok.clone(),
            cancel: self.cancel.clone(),
            notok: self.notok.clone(),
            repeat: if getpin {
                trim_prompt(self.repeat.as_str())
            } else {
                String::new()
            },
            repeat_error: if getpin {
                self.repeat_error.clone()
            } else {
                String::new()
            },
            timeout: self.timeout,
        }
    }

    /// SETERROR and SETREPEAT apply to the next prompt only, as in the
    /// upstream pinentry.
    pub fn after_prompt(&mut self)
        ensures
            final(self)@ == (StateView {
                error: Seq::empty(),
                repeat: Seq::empty(),
                ..old(self)@
            }),
    {
        self.error = String::new();
        self.repeat = String::new();
    }
}

proof fn lemma_without_hidden_displayable(s: Seq<char>)
    ensures
        displayable(without_hidden(s)),
    decreases s.len(),
{
    if s.len() > 0 {
        lemma_without_hidden_displayable(s.drop_last());
    }
}

proof fn lemma_mnemonic_free_displayable(s: Seq<char>)
    requires
        displayable(s),
    ensures
        displayable(mnemonic_free(s)),
    decreases s.len(),
{
    if s.len() > 0 {
        assert(displayable(s.skip(1)));
        lemma_mnemonic_free_displayable(s.skip(1));
        if s.len() >= 2 {
            assert(displayable(s.skip(2)));
            lemma_mnemonic_free_displayable(s.skip(2));
        }
        let m = mnemonic_free(s);
        assert(!is_hidden(s[0]));
        assert(!is_hidden('_'));
        if s[0] == '_' && s.len() >= 2 && s[1] == '_' {
            assert forall|i: int| 0 <= i < m.len() implies !is_hidden(#[trigger] m[i]) by {
                if i > 0 {
                    assert(m[i] == mnemonic_free(s.skip(2))[i - 1]);
                }
            }
        } else if s[0] != '_' {
            assert forall|i: int| 0 <= i < m.len() implies !is_hidden(#[trigger] m[i]) by {
                if i > 0 {
                    assert(m[i] == mnemonic_free(s.skip(1))[i - 1]);
                }
            }
        }
    }
}

proof fn lemma_trim_displayable(s: Seq<char>)
    requires
        displayable(s),
    ensures
        displayable(trim_start(s)),
        displayable(trim_end(s)),
        displayable(without_trailing_colons(s)),
    decreases s.len(),
{
    if s.len() > 0 {
        assert(displayable(s.skip(1)));
        assert(displayable(s.drop_last()));
        lemma_trim_displayable(s.skip(1));
        lemma_trim_displayable(s.drop_last());
    }
}

proof fn lemma_names_displayable()
    ensures
        displayable("Repeat"@),
        displayable("getpin"@),
        displayable("confirm"@),
        displayable("message"@),
{
    reveal_strlit("Repeat");
    reveal_strlit("getpin");
    reveal_strlit("confirm");
    reveal_strlit("message");
}

/// No SET* command brings a hidden character into displayable settings:
/// texts are stripped of them before they are kept.
pub proof fn lemma_apply_keeps_displayable(s: StateView, cmd: Seq<char>, arg: Seq<u8>)
    requires
        s.displayable(),
    ensures
        applied(s, cmd, arg) matches Ok(Some(v)) ==> v.displayable(),
{
    let text = display_text(arg);
    lemma_without_hidden_displayable(utf8_lossy(percent_decoded(arg)));
    lemma_mnemonic_free_displayable(text);
    lemma_names_displayable();
}

/// The settings start displayable.
pub proof fn lemma_empty_displayable()
    ensures
        StateView::empty().displayable(),
{
}

/// A request made from displayable settings carries no hidden character
/// in any of its texts.
pub proof fn lemma_request_displayable(s: StateView, kind: Kind)
    requires
        s.displayable(),
    ensures
        request_of(s, kind).displayable(),
{
    lemma_names_displayable();
    lemma_trim_displayable(s.prompt);
    lemma_trim_displayable(trim_start(s.prompt));
    lemma_trim_displayable(trimmed(s.prompt));
    lemma_trim_displayable(s.repeat);
    lemma_trim_displayable(trim_start(s.repeat));
    lemma_trim_displayable(trimmed(s.repeat));
}

/// SETTIMEOUT never sets more than a day, and a rejected value keeps the
/// one before.
pub proof fn lemma_timeout_capped(s: StateView, arg: Seq<u8>)
    ensures
        applied(s, "SETTIMEOUT"@, arg) matches Ok(Some(v)) ==> v.timeout <= MAX_TIMEOUT_SECS,
        applied(s, "SETTIMEOUT"@, arg) is Err <==> timeout_value(arg) is None,
{
    reveal_strlit("SETTIMEOUT");
    reveal_strlit("SETTITLE");
    reveal_strlit("SETDESC");
    reveal_strlit("SETPROMPT");
    reveal_strlit("SETERROR");
    reveal_strlit("SETOK");
    reveal_strlit("SETCANCEL");
    reveal_strlit("SETNOTOK");
    reveal_strlit("SETREPEAT");
    reveal_strlit("SETREPEATERROR");
    let t = "SETTIMEOUT"@;
    assert(t.len() == 10);
    assert(t != "SETTITLE"@ && t != "SETDESC"@ && t != "SETPROMPT"@ && t != "SETERROR"@);
    assert(t != "SETOK"@ && t != "SETCANCEL"@ && t != "SETNOTOK"@ && t != "SETREPEAT"@);
    assert(t != "SETREPEATERROR"@);
}

/// The SET* command names are all different.
proof fn lemma_set_commands_distinct()
    ensures
        "SETDESC"@ != "SETTITLE"@,
        "SETPROMPT"@ != "SETTITLE"@,
        "SETPROMPT"@ != "SETDESC"@,
        "SETERROR"@ != "SETTITLE"@,
        "SETERROR"@ != "SETDESC"@,
        "SETERROR"@ != "SETPROMPT"@,
        "SETOK"@ != "SETTITLE"@,
        "SETOK"@ != "SETDESC"@,
        "SETOK"@ != "SETPROMPT"@,
        "SETOK"@ != "SETERROR"@,
        "SETCANCEL"@ != "SETTITLE"@,
        "SETCANCEL"@ != "SETDESC"@,
        "SETCANCEL"@ != "SETPROMPT"@,
        "SETCANCEL"@ != "SETERROR"@,
        "SETCANCEL"@ != "SETOK"@,
        "SETNOTOK"@ != "SETTITLE"@,
        "SETNOTOK"@ != "SETDESC"@,
        "SETNOTOK"@ != "SETPROMPT"@,
        "SETNOTOK"@ != "SETERROR"@,
        "SETNOTOK"@ != "SETOK"@,
        "SETNOTOK"@ != "SETCANCEL"@,
        "SETREPEAT"@ != "SETTITLE"@,
        "SETREPEAT"@ != "SETDESC"@,
        "SETREPEAT"@ != "SETPROMPT"@,
        "SETREPEAT"@ != "SETERROR"@,
        "SETREPEAT"@ != "SETOK"@,
        "SETREPEAT"@ != "SETCANCEL"@,
        "SETREPEAT"@ != "SETNOTOK"@,
        "SETREPEATERROR"@ != "SETTITLE"@,
        "SETREPEATERROR"@ != "SETDESC"@,
        "SETREPEATERROR"@ != "SETPROMPT"@,
        "SETREPEATERROR"@ != "SETERROR"@,
        "SETREPEATERROR"@ != "SETOK"@,
        "SETREPEATERROR"@ != "SETCANCEL"@,
        "SETREPEATERROR"@ != "SETNOTOK"@,
        "SETREPEATERROR"@ != "SETREPEAT"@,
        "SETTIMEOUT"@ != "SETTITLE"@,
        "SETTIMEOUT"@ != "SETDESC"@,
        "SETTIMEOUT"@ != "SETPROMPT"@,
        "SETTIMEOUT"@ != "SETERROR"@,
        "SETTIMEOUT"@ != "SETOK"@,
        "SETTIMEOUT"@ != "SETCANCEL"@,
        "SETTIMEOUT"@ != "SETNOTOK"@,
        "SETTIMEOUT"@ != "SETREPEAT"@,
        "SETTIMEOUT"@ != "SETREPEATERROR"@,
{
    reveal_strlit("SETTITLE");
    reveal_strlit("SETDESC");
    reveal_strlit("SETPROMPT");
    reveal_strlit("SETERROR");
    reveal_strlit("SETOK");
    reveal_strlit("SETCANCEL");
    reveal_strlit("SETNOTOK");
    reveal_strlit("SETREPEAT");
    reveal_strlit("SETREPEATERROR");
    reveal_strlit("SETTIMEOUT");
    assert("SETTITLE"@.len() == 8);
    assert("SETDESC"@.len() == 7);
    assert("SETPROMPT"@.len() == 9);
    assert("SETERROR"@.len() == 8);
    assert("SETOK"@.len() == 5);
    assert("SETCANCEL"@.len() == 9);
    assert("SETNOTOK"@.len() == 8);
    assert("SETREPEAT"@.len() == 9);
    assert("SETREPEATERROR"@.len() == 14);
    assert("SETTIMEOUT"@.len() == 10);
    assert("SETERROR"@[3] != "SETTITLE"@[3]);
    assert("SETCANCEL"@[3] != "SETPROMPT"@[3]);
    assert("SETNOTOK"@[3] != "SETTITLE"@[3]);
    assert("SETNOTOK"@[3] != "SETERROR"@[3]);
    assert("SETREPEAT"@[3] != "SETPROMPT"@[3]);
    assert("SETREPEAT"@[3] != "SETCANCEL"@[3]);
}

/// Stripping hidden characters keeps a text that has none.
pub proof fn lemma_without_hidden_keeps_displayable(s: Seq<char>)
    requires
        displayable(s),
    ensures
        without_hidden(s) == s,
    decreases s.len(),
{
    if s.len() > 0 {
        assert(displayable(s.drop_last()));
        lemma_without_hidden_keeps_displayable(s.drop_last());
        assert(s.drop_last().push(s.last()) =~= s);
    }
}

/// The text SET* commands keep: the argument percent-decoded, read as
/// UTF-8, and stripped of hidden characters; the button labels also lose
/// their mnemonic underscores, and an empty repeat prompt reads "Repeat".
/// Each command sets its own field and leaves every other one as it was.
pub proof fn lemma_apply_texts(s: StateView, arg: Seq<u8>)
    ensures
        ({
            let t = without_hidden(utf8_lossy(percent_decoded(arg)));
            &&& applied(s, "SETTITLE"@, arg) == Ok::<Option<StateView>, ()>(Some(StateView { title: t, ..s }))
            &&& applied(s, "SETDESC"@, arg) == Ok::<Option<StateView>, ()>(Some(StateView { desc: t, ..s }))
            &&& applied(s, "SETPROMPT"@, arg) == Ok::<Option<StateView>, ()>(Some(StateView { prompt: t, ..s }))
            &&& applied(s, "SETERROR"@, arg) == Ok::<Option<StateView>, ()>(Some(StateView { error: t, ..s }))
            &&& applied(s, "SETREPEATERROR"@, arg) == Ok::<Option<StateView>, ()>(
                Some(StateView { repeat_error: t, ..s }),
            )
            &&& applied(s, "SETOK"@, arg) == Ok::<Option<StateView>, ()>(
                Some(StateView { ok: mnemonic_free(t), ..s }),
            )
            &&& applied(s, "SETCANCEL"@, arg) == Ok::<Option<StateView>, ()>(
                Some(StateView { cancel: mnemonic_free(t), ..s }),
            )
            &&& applied(s, "SETNOTOK"@, arg) == Ok::<Option<StateView>, ()>(
                Some(StateView { notok: mnemonic_free(t), ..s }),
            )
            &&& applied(s, "SETREPEAT"@, arg) == Ok::<Option<StateView>, ()>(
                Some(
                    StateView {
                        repeat: if t.len() == 0 {
                            "Repeat"@
                        } else {
                            t
                        },
                        ..s
                    },
                ),
            )
        }),
{
    lemma_set_commands_distinct();
}

/// A text without hidden characters is kept exactly as it was sent
/// (decoded) by SETTITLE, SETDESC, SETPROMPT, SETERROR and SETREPEATERROR:
/// nothing else is removed from it.
pub proof fn lemma_plain_text_kept(s: StateView, arg: Seq<u8>)
    requires
        displayable(utf8_lossy(percent_decoded(arg))),
    ensures
        ({
            let t = utf8_lossy(percent_decoded(arg));
            &&& applied(s, "SETTITLE"@, arg) matches Ok(Some(v)) && v.title == t
            &&& applied(s, "SETDESC"@, arg) matches Ok(Some(v)) && v.desc == t
            &&& applied(s, "SETPROMPT"@, arg) matches Ok(Some(v)) && v.prompt == t
            &&& applied(s, "SETERROR"@, arg) matches Ok(Some(v)) && v.error == t
            &&& applied(s, "SETREPEATERROR"@, arg) matches Ok(Some(v)) && v.repeat_error == t
        }),
{
    lemma_without_hidden_keeps_displayable(utf8_lossy(percent_decoded(arg)));
    lemma_apply_texts(s, arg);
}

/// Every request, whatever its kind, carries the protocol version and the
/// settings' title, description, error, button labels and timeout as they
/// are. Only GETPIN carries the prompt, the repeat prompt (both trimmed of
/// whitespace and trailing colons) and the repeat error.
pub proof fn lemma_request_fields(s: StateView, kind: Kind)
    ensures
        request_of(s, kind).v == 2,
        request_of(s, kind).title == s.title,
        request_of(s, kind).desc == s.desc,
        request_of(s, kind).error == s.error,
        request_of(s, kind).ok == s.ok,
        request_of(s, kind).cancel == s.cancel,
        request_of(s, kind).notok == s.notok,
        request_of(s, kind).timeout == s.timeout,
        kind is GetPin ==> request_of(s, kind).kind == "getpin"@ && request_of(s, kind).prompt
            == without_trailing_colons(trimmed(s.prompt)) && request_of(s, kind).repeat
            == without_trailing_colons(trimmed(s.repeat)) && request_of(s, kind).repeat_error
            == s.repeat_error,
        kind is Confirm ==> request_of(s, kind).kind == "confirm"@,
        kind is Message ==> request_of(s, kind).kind == "message"@,
        !(kind is GetPin) ==> request_of(s, kind).prompt.len() == 0 && request_of(s, kind).repeat.len()
            == 0 && request_of(s, kind).repeat_error.len() == 0,
{
}

/// SETTIMEOUT keeps the number of seconds its argument spells (once
/// percent-decoded, read as UTF-8 and trimmed), but never more than a day,
/// and changes no other setting; an argument that is no such number is
/// refused and changes nothing.
pub proof fn lemma_timeout_set(s: StateView, arg: Seq<u8>)
    ensures
        MAX_TIMEOUT_SECS == 86_400,
        applied(s, "SETTIMEOUT"@, arg) == match parsed_u64(trimmed(utf8_lossy(percent_decoded(arg)))) {
            Some(n) => Ok::<Option<StateView>, ()>(
                Some(
                    StateView {
                        timeout: if n <= 86_400 {
                            n
                        } else {
                            86_400
                        },
                        ..s
                    },
                ),
            ),
            None => Err(()),
        },
{
    lemma_set_commands_distinct();
}

/// Commands other than the SET* ones are not this module's: they leave the
/// settings alone.
pub proof fn lemma_not_owned(s: StateView, cmd: Seq<char>, arg: Seq<u8>)
    requires
        cmd != "SETTITLE"@ && cmd != "SETDESC"@ && cmd != "SETPROMPT"@ && cmd != "SETERROR"@,
        cmd != "SETOK"@ && cmd != "SETCANCEL"@ && cmd != "SETNOTOK"@ && cmd != "SETREPEAT"@,
        cmd != "SETREPEATERROR"@ && cmd != "SETTIMEOUT"@,
    ensures
        applied(s, cmd, arg) == Ok::<Option<StateView>, ()>(None),
{
}

} // verus!

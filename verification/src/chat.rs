//! The chat screen: a transcript of user and assistant messages, a streamed reply in
//! progress, and the capped history sent to the model.
//!
//! The input line lives in the front end's editor; this state keeps a copy of its text,
//! which the front end refreshes after each edit it performs.

use vstd::prelude::*;
use crate::keys::{KeyCode, KeyInput};
use crate::text::{concat, normalized_newlines, normalize_newlines, trimmed, trim, str_eq, chars_of, push_all};
use crate::command_popup::is_prefix;
use crate::bounded::{last_n, lemma_last_n_push};

verus! {

/// Who said a message on screen.
#[derive(Clone, Copy, Debug, PartialEq, Eq, Structural)]
pub enum Speaker {
    User,
    Assistant,
    Error,
}

/// The role of a message sent to the model.
#[derive(Clone, Copy, Debug, PartialEq, Eq, Structural)]
pub enum Role {
    User,
    Assistant,
}

/// A message on screen.
#[derive(Debug)]
pub struct VisibleMessage {
    pub speaker: Speaker,
    pub content: String,
}

/// A message of the conversation sent to the model.
#[derive(Debug)]
pub struct ChatTurn {
    pub role: Role,
    pub content: String,
}

/// A stored chat message, as loaded to resume a conversation.
#[derive(Debug)]
pub struct ChatMessageRow {
    pub id: String,
    pub meeting_id: String,
    pub role: String,
    pub content: String,
    pub created_at: String,
}

/// Whether a reply is being streamed, and what has arrived of it.
#[derive(Debug)]
pub enum StreamState {
    Idle,
    Streaming(String),
}

/// How the transcript should scroll.
#[derive(Clone, Copy, Debug, PartialEq, Eq, Structural)]
pub enum Scroll {
    Up,
    Down,
    PageUp,
    PageDown,
    ToBottom,
}

/// What the chat asks its front end to do.
#[derive(Debug)]
pub enum Effect {
    Exit,
    Submit { prompt: String, history: Vec<ChatTurn> },
    Persist { meeting_id: String, message_id: String, role: Role, content: String },
    GenerateTitle { prompt: String, response: String },
    UpdateTitle { meeting_id: String, title: String },
    /// Clear the input editor.
    ResetInput,
    /// Insert this text at the input editor's cursor.
    InsertIntoInput(String),
    /// Let the input editor handle this key.
    EditInput(KeyInput),
    ScrollTranscript(Scroll),
}

/// What happened.
pub enum Action {
    Key(KeyInput),
    Paste(String),
    StreamChunk(String),
    StreamCompleted(Option<String>),
    StreamFailed(String),
    TitleGenerated(String),
}

/// How many messages of history are sent to the model.
pub const MAX_HISTORY: usize = 20;

/// The state of the chat screen.
pub struct App {
    pub model: String,
    pub meeting: Option<String>,
    pub meeting_id: String,
    pub api_history: Vec<ChatTurn>,
    pub max_history: usize,
    pub transcript: Vec<VisibleMessage>,
    pub input: String,
    pub stream: StreamState,
    pub last_error: Option<String>,
    pub autoscroll: bool,
    pub terminal_title: Option<String>,
    pub title_requested: bool,
}

/// A hex digit as `uuid` writes it: `0` to `9` or `a` to `f`.
pub open spec fn is_lower_hex(c: char) -> bool {
    ('0' <= c && c <= '9') || ('a' <= c && c <= 'f')
}

/// The text of a random (version 4) uuid as `Uuid::to_string` writes it: 36 characters,
/// hyphens at 8, 13, 18 and 23, lowercase hex digits elsewhere, the version digit `4` at
/// 14 and one of `8`, `9`, `a`, `b` (the RFC 4122 variant) at 19.
pub open spec fn is_v4_uuid_text(s: Seq<char>) -> bool {
    &&& s.len() == 36
    &&& forall|i: int|
        0 <= i < 36 ==> if i == 8 || i == 13 || i == 18 || i == 23 {
            s[i] == '-'
        } else {
            is_lower_hex(#[trigger] s[i])
        }
    &&& s[14] == '4'
    &&& (s[19] == '8' || s[19] == '9' || s[19] == 'a' || s[19] == 'b')
}

/// Calls `uuid::Uuid::new_v4` and formats it with `to_string`. The id is random; the
/// contract claims only its form: the lowercase hyphenated text of a version 4 uuid.
#[verifier::external_body]
fn new_message_id() -> (r: String)
    ensures
        is_v4_uuid_text(r@),
{
    uuid::Uuid::new_v4().to_string()
}

/// The text a finished stream leaves: the final text when it extends what was streamed.
pub open spec fn completed_text(streamed: Seq<char>, final_text: Option<Seq<char>>) -> Seq<char> {
    match final_text {
        Some(f) => if is_prefix(streamed, f) && f.len() > streamed.len() {
            f
        } else {
            streamed
        },
        None => streamed,
    }
}

/// The text of a message that was streamed so far.
pub open spec fn streamed_text(s: StreamState) -> Seq<char> {
    match s {
        StreamState::Streaming(b) => b@,
        StreamState::Idle => Seq::empty(),
    }
}

pub open spec fn opt_string_view(s: Option<String>) -> Option<Seq<char>> {
    match s {
        Some(v) => Some(v@),
        None => None,
    }
}

/// Two histories hold the same roles and texts, in the same order.
pub open spec fn same_turns(a: Seq<ChatTurn>, b: Seq<ChatTurn>) -> bool {
    &&& a.len() == b.len()
    &&& forall|j: int| 0 <= j < a.len() ==> (#[trigger] a[j]).role == b[j].role && a[j].content@ == b[j].content@
}


/// Index of the first user message, or -1.
pub open spec fn first_user(t: Seq<VisibleMessage>) -> int
    decreases t.len(),
{
    if t.len() == 0 {
        -1
    } else if first_user(t.drop_last()) >= 0 {
        first_user(t.drop_last())
    } else if t.last().speaker == Speaker::User {
        t.len() - 1
    } else {
        -1
    }
}

/// The speaker a stored role names: `user`, `assistant`, anything else an error.
pub open spec fn role_speaker(role: Seq<char>) -> Speaker {
    if role == "user"@ {
        Speaker::User
    } else if role == "assistant"@ {
        Speaker::Assistant
    } else {
        Speaker::Error
    }
}

/// The messages that stored rows show on screen.
pub open spec fn rows_messages(rows: Seq<ChatMessageRow>) -> Seq<VisibleMessage> {
    rows.map_values(|m: ChatMessageRow| VisibleMessage { speaker: role_speaker(m.role@), content: m.content })
}

/// The turns that stored rows add to the model history: those of the user and the assistant.
pub open spec fn rows_turns(rows: Seq<ChatMessageRow>) -> Seq<ChatTurn>
    decreases rows.len(),
{
    if rows.len() == 0 {
        Seq::empty()
    } else {
        let m = rows.last();
        let earlier = rows_turns(rows.drop_last());
        match role_speaker(m.role@) {
            Speaker::User => earlier.push(ChatTurn { role: Role::User, content: m.content }),
            Speaker::Assistant => earlier.push(ChatTurn { role: Role::Assistant, content: m.content }),
            Speaker::Error => earlier,
        }
    }
}

/// `f` extends `b`: it starts with `b` and is longer.
fn extends(f: &str, b: &str) -> (r: bool)
    ensures
        r == (is_prefix(b@, f@) && f@.len() > b@.len()),
{
    let fv = chars_of(f);
    let bv = chars_of(b);
    if fv.len() <= bv.len() {
        return false;
    }
    let mut i: usize = 0;
    while i < bv.len()
        invariant
            i <= bv@.len() < fv@.len(),
            fv@ == f@,
            bv@ == b@,
            forall|j: int| 0 <= j < i ==> fv@[j] == bv@[j],
        decreases bv.len() - i,
    {
        if fv[i] != bv[i] {
            assert(f@.take(b@.len() as int)[i as int] != b@[i as int]);
            return false;
        }
        i += 1;
    }
    assert(f@.take(b@.len() as int) =~= b@);
    true
}

/// `e` stores `content`, said in `role`, under `meeting_id`, with a fresh message id.
pub open spec fn is_persist(e: Effect, meeting_id: Seq<char>, role: Role, content: Seq<char>) -> bool {
    e matches Effect::Persist { meeting_id: m, message_id: id, role: r, content: c } && m@ == meeting_id && r
        == role && c@ == content && is_v4_uuid_text(id@)
}

/// `e` sends `prompt` to the model with `history` before it.
pub open spec fn is_submit(e: Effect, prompt: Seq<char>, history: Seq<ChatTurn>) -> bool {
    e matches Effect::Submit { prompt: p, history: h } && p@ == prompt && same_turns(h@, history)
}

/// `e` asks for a title from the first user message and the reply.
pub open spec fn is_generate_title(e: Effect, prompt: Seq<char>, response: Seq<char>) -> bool {
    e matches Effect::GenerateTitle { prompt: p, response: q } && p@ == prompt && q@ == response
}

fn one(e: Effect) -> (r: Vec<Effect>)
    ensures
        r@ == seq![e],
{
    let mut r = Vec::new();
    r.push(e);
    r
}

/// The first user message of a prefix that holds one is the first of the whole.
pub proof fn lemma_first_user_prefix(t: Seq<VisibleMessage>, k: int)
    requires
        0 <= k <= t.len(),
        first_user(t.take(k)) >= 0,
    ensures
        first_user(t) == first_user(t.take(k)),
    decreases t.len() - k,
{
    if k < t.len() {
        assert(t.take(k + 1).drop_last() =~= t.take(k));
        lemma_first_user_prefix(t, k + 1);
    } else {
        assert(t.take(k) =~= t);
    }
}

/// The name a role is stored under.
pub fn role_text(role: Role) -> (r: &'static str)
    ensures
        r@ == match role {
            Role::User => "user"@,
            Role::Assistant => "assistant"@,
        },
        role_speaker(r@) == match role {
            Role::User => Speaker::User,
            Role::Assistant => Speaker::Assistant,
        },
{
    proof {
        reveal_strlit("user");
        reveal_strlit("assistant");
        assert("assistant"@ != "user"@) by {
            assert("assistant"@.len() != "user"@.len());
        }
    }
    match role {
        Role::User => "user",
        Role::Assistant => "assistant",
    }
}

/// The prompt that asks the model for a short title of a conversation.
pub fn title_prompt(prompt: &str, response: &str) -> (r: String)
    ensures
        r@ == "Generate a short title (3-5 words) for this conversation. Reply with ONLY the title, no quotes or punctuation.\n\nUser: "@
            + prompt@ + "\nAssistant: "@ + response@,
{
    let mut r = concat(
        "Generate a short title (3-5 words) for this conversation. Reply with ONLY the title, no quotes or punctuation.\n\nUser: ",
        prompt,
    );
    push_all(&mut r, "\nAssistant: ");
    push_all(&mut r, response);
    r
}

/// The title a model's answer gives: trimmed, and none when nothing is left.
pub fn accepted_title(answer: &str) -> (r: Option<String>)
    ensures
        trim(answer@).len() == 0 ==> r is None,
        trim(answer@).len() > 0 ==> (r matches Some(t) && t@ == trim(answer@)),
{
    let t = trimmed(answer);
    if t.as_str().is_empty() {
        None
    } else {
        Some(t)
    }
}

fn copy_turn(t: &ChatTurn) -> (r: ChatTurn)
    ensures
        r.role == t.role && r.content@ == t.content@,
{
    ChatTurn { role: t.role, content: t.content.clone() }
}

impl App {
    /// History is within its cap.
    pub open spec fn wf(&self) -> bool {
        self.api_history@.len() <= self.max_history
    }

    /// The identity of the chat: its model, meeting and history cap.
    pub open spec fn same_chat(self, next: Self) -> bool {
        &&& next.model == self.model
        &&& next.meeting == self.meeting
        &&& next.meeting_id == self.meeting_id
        &&& next.max_history == self.max_history
    }

    /// What submitting the input line does.
    pub open spec fn submit_post(self, next: Self, r: Seq<Effect>) -> bool {
        let content = trim(self.input@);
        if content.len() == 0 {
            r.len() == 0 && next == self
        } else {
            &&& self.same_chat(next)
            &&& next.input@.len() == 0
            &&& next.last_error is None
            &&& next.stream is Streaming
            &&& streamed_text(next.stream).len() == 0
            &&& next.autoscroll
            &&& next.terminal_title == self.terminal_title
            &&& next.title_requested == self.title_requested
            &&& next.transcript@.len() == self.transcript@.len() + 1
            &&& next.transcript@.drop_last() == self.transcript@
            &&& next.transcript@.last().speaker == Speaker::User
            &&& next.transcript@.last().content@ == content
            &&& next.api_history@ == last_n(
                self.api_history@.push(ChatTurn { role: Role::User, content: next.transcript@.last().content }),
                self.max_history as nat,
            )
            &&& r.len() == 3
            &&& is_persist(r[0], self.meeting_id@, Role::User, content)
            &&& is_submit(r[1], content, last_n(self.api_history@, self.max_history as nat))
            &&& r[2] is ResetInput
        }
    }

    /// What the end of a reply stream does, given the final text the model reported.
    pub open spec fn finish_post(self, final_text: Option<Seq<char>>, next: Self, r: Seq<Effect>) -> bool {
        let text = completed_text(streamed_text(self.stream), final_text);
        &&& self.same_chat(next)
        &&& next.stream is Idle
        &&& next.input == self.input
        &&& next.autoscroll == self.autoscroll
        &&& next.terminal_title == self.terminal_title
        &&& next.transcript@.len() == self.transcript@.len() + 1
        &&& next.transcript@.drop_last() == self.transcript@
        &&& if text.len() == 0 {
            &&& next.transcript@.last().speaker == Speaker::Error
            &&& next.transcript@.last().content@ == "No response content received from the model."@
            &&& next.last_error matches Some(e) && e@ == "Empty response from model"@
            &&& next.api_history == self.api_history
            &&& next.title_requested == self.title_requested
            &&& r.len() == 0
        } else {
            &&& next.transcript@.last().speaker == Speaker::Assistant
            &&& next.transcript@.last().content@ == text
            &&& next.last_error == self.last_error
            &&& next.api_history@ == last_n(
                self.api_history@.push(
                    ChatTurn { role: Role::Assistant, content: next.transcript@.last().content },
                ),
                self.max_history as nat,
            )
            &&& next.title_requested
            &&& r.len() >= 1
            &&& is_persist(r[0], self.meeting_id@, Role::Assistant, text)
            &&& if !self.title_requested && first_user(self.transcript@) >= 0 {
                &&& r.len() == 2
                &&& is_generate_title(r[1], self.transcript@[first_user(self.transcript@)].content@, text)
            } else {
                r.len() == 1
            }
        }
    }

    /// What a failed reply stream does: what arrived of it is kept, then the error is shown.
    pub open spec fn fail_post(self, error: Seq<char>, next: Self, r: Seq<Effect>) -> bool {
        let partial = streamed_text(self.stream);
        let n = self.transcript@.len();
        &&& self.same_chat(next)
        &&& next.stream is Idle
        &&& next.input == self.input
        &&& next.autoscroll == self.autoscroll
        &&& next.terminal_title == self.terminal_title
        &&& next.title_requested == self.title_requested
        &&& next.last_error matches Some(e) && e@ == error
        &&& next.transcript@.last().speaker == Speaker::Error
        &&& next.transcript@.last().content@ == error
        &&& if partial.len() > 0 {
            &&& next.transcript@.len() == n + 2
            &&& next.transcript@.subrange(0, n as int) == self.transcript@
            &&& next.transcript@[n as int].speaker == Speaker::Assistant
            &&& next.transcript@[n as int].content@ == partial
            &&& next.api_history@ == last_n(
                self.api_history@.push(ChatTurn { role: Role::Assistant, content: next.transcript@[n as int].content }),
                self.max_history as nat,
            )
            &&& r.len() == 1
            &&& is_persist(r[0], self.meeting_id@, Role::Assistant, partial)
        } else {
            &&& next.transcript@.len() == n + 1
            &&& next.transcript@.drop_last() == self.transcript@
            &&& next.api_history == self.api_history
            &&& r.len() == 0
        }
    }

    /// What a key press does.
    pub open spec fn key_post(self, key: KeyInput, next: Self, r: Seq<Effect>) -> bool {
        if key.is_ctrl_c() {
            r == seq![Effect::Exit] && next == self
        } else if key.code == KeyCode::PageUp {
            r == seq![Effect::ScrollTranscript(Scroll::PageUp)] && next == App { autoscroll: false, ..self }
        } else if key.code == KeyCode::PageDown {
            r == seq![Effect::ScrollTranscript(Scroll::PageDown)] && next == self
        } else if key.code == KeyCode::Up && key.modifiers.control {
            r == seq![Effect::ScrollTranscript(Scroll::Up)] && next == App { autoscroll: false, ..self }
        } else if key.code == KeyCode::Down && key.modifiers.control {
            r == seq![Effect::ScrollTranscript(Scroll::Down)] && next == self
        } else if self.stream is Streaming {
            r.len() == 0 && next == self
        } else if key.code == KeyCode::Enter {
            self.submit_post(next, r)
        } else {
            r == seq![Effect::EditInput(key)] && next == self
        }
    }

    /// What pasting text does: its line breaks are made uniform and it goes into the input
    /// line, unless a reply is streaming.
    pub open spec fn paste_post(self, pasted: Seq<char>, next: Self, r: Seq<Effect>) -> bool {
        &&& next == self
        &&& if self.stream is Streaming {
            r.len() == 0
        } else {
            &&& r.len() == 1
            &&& r[0] matches Effect::InsertIntoInput(t) && t@ == normalize_newlines(pasted)
        }
    }

    /// What a piece of a streamed reply does: it is appended to what arrived, and the
    /// transcript follows it while it scrolls automatically.
    pub open spec fn chunk_post(self, chunk: Seq<char>, next: Self, r: Seq<Effect>) -> bool {
        &&& next.stream is Streaming <==> self.stream is Streaming
        &&& self.stream is Streaming ==> streamed_text(next.stream) == streamed_text(self.stream) + chunk
        &&& next == App { stream: next.stream, ..self }
        &&& r == if self.autoscroll {
            seq![Effect::ScrollTranscript(Scroll::ToBottom)]
        } else {
            Seq::empty()
        }
    }

    /// What a generated title does: it is shown and stored.
    pub open spec fn title_post(self, title: Seq<char>, next: Self, r: Seq<Effect>) -> bool {
        &&& next.terminal_title matches Some(t) && t@ == title
        &&& next == App { terminal_title: next.terminal_title, ..self }
        &&& r.len() == 1
        &&& r[0] matches Effect::UpdateTitle { meeting_id: m, title: t } && m@ == self.meeting_id@ && t@ == title
    }

    /// A new chat with `model`, about `meeting`, stored under `meeting_id`.
    pub fn new(model: String, meeting: Option<String>, meeting_id: String) -> (r: Self)
        ensures
            r.wf(),
            r.model == model,
            r.meeting == meeting,
            r.meeting_id == meeting_id,
            r.api_history@.len() == 0,
            r.max_history == MAX_HISTORY,
            r.transcript@.len() == 0,
            r.input@.len() == 0,
            r.stream is Idle,
            r.last_error is None,
            r.autoscroll,
            r.terminal_title is None,
            !r.title_requested,
    {
        App {
            model,
            meeting,
            meeting_id,
            api_history: Vec::new(),
            max_history: MAX_HISTORY,
            transcript: Vec::new(),
            input: String::new(),
            stream: StreamState::Idle,
            last_error: None,
            autoscroll: true,
            terminal_title: None,
            title_requested: false,
        }
    }

    /// Records the input editor's current text.
    pub fn set_input(&mut self, text: String)
        ensures
            final(self).input == text,
            final(self).wf() == old(self).wf(),
    {
        self.input = text;
    }

    /// A reply is being streamed.
    pub fn streaming(&self) -> (r: bool)
        ensures
            r == (self.stream is Streaming),
    {
        match self.stream {
            StreamState::Streaming(_) => true,
            StreamState::Idle => false,
        }
    }

    /// What has arrived of the reply being streamed.
    pub fn pending_assistant(&self) -> (r: &str)
        ensures
            r@ == streamed_text(self.stream),
    {
        proof {
            reveal_strlit("");
        }
        match &self.stream {
            StreamState::Streaming(buf) => buf.as_str(),
            StreamState::Idle => "",
        }
    }

    /// The status line: the last error, else whether a reply is streaming.
    pub fn status(&self) -> (r: String)
        ensures
            r@ == match self.last_error {
                Some(e) => "Error: "@ + e@,
                None => if self.stream is Streaming {
                    "Streaming response..."@
                } else {
                    "Ready"@
                },
            },
    {
        match &self.last_error {
            Some(err) => concat("Error: ", err.as_str()),
            None => if self.streaming() {
                "Streaming response...".to_owned()
            } else {
                "Ready".to_owned()
            },
        }
    }

    /// The title to show: the generated one, or `chat`.
    pub fn title_text(&self) -> (r: String)
        ensures
            r@ == match self.terminal_title {
                Some(t) => t@,
                None => "chat"@,
            },
    {
        match &self.terminal_title {
            Some(t) => t.clone(),
            None => "chat".to_owned(),
        }
    }

    /// Appends `message` to the model history, keeping only the last `max_history` messages.
    pub fn push_api_history(&mut self, message: ChatTurn)
        requires
            old(self).wf(),
        ensures
            final(self).wf(),
            final(self).api_history@ == last_n(old(self).api_history@.push(message), old(self).max_history as nat),
            final(self).max_history == old(self).max_history,
            final(self).transcript == old(self).transcript,
            final(self).stream == old(self).stream,
            final(self).last_error == old(self).last_error,
            final(self).title_requested == old(self).title_requested,
            final(self).meeting_id == old(self).meeting_id,
            final(self).input == old(self).input,
            final(self).autoscroll == old(self).autoscroll,
            final(self).terminal_title == old(self).terminal_title,
            final(self).model == old(self).model,
            final(self).meeting == old(self).meeting,
    {
        self.api_history.push(message);
        if self.api_history.len() > self.max_history {
            let excess = self.api_history.len() - self.max_history;
            let kept = self.api_history.split_off(excess);
            self.api_history = kept;
        }
    }

    /// Shows stored messages after those on screen and adds the user's and the assistant's
    /// to the model history; a title is no longer asked for once anything is on screen.
    pub fn load_history(&mut self, messages: Vec<ChatMessageRow>)
        requires
            old(self).wf(),
        ensures
            final(self).wf(),
            final(self).transcript@ == old(self).transcript@ + rows_messages(messages@),
            final(self).api_history@ == last_n(
                old(self).api_history@ + rows_turns(messages@),
                old(self).max_history as nat,
            ),
            final(self).title_requested == (old(self).title_requested || final(self).transcript@.len() > 0),
            final(self).max_history == old(self).max_history,
            final(self).stream == old(self).stream,
            final(self).last_error == old(self).last_error,
            final(self).input == old(self).input,
            final(self).autoscroll == old(self).autoscroll,
            final(self).terminal_title == old(self).terminal_title,
            final(self).meeting_id == old(self).meeting_id,
            final(self).model == old(self).model,
            final(self).meeting == old(self).meeting,
    {
        let ghost t0 = self.transcript@;
        let ghost h0 = self.api_history@;
        let ghost prev = *self;
        let n = self.max_history;
        proof {
            assert(messages@.take(0) =~= Seq::<ChatMessageRow>::empty());
            assert(rows_messages(messages@.take(0)) =~= Seq::<VisibleMessage>::empty());
            assert(t0 + Seq::<VisibleMessage>::empty() =~= t0);
            assert(h0 + Seq::<ChatTurn>::empty() =~= h0);
        }
        let mut i: usize = 0;
        while i < messages.len()
            invariant
                i <= messages@.len(),
                self.wf(),
                self.max_history == n == prev.max_history,
                h0.len() <= n,
                self.transcript@ == t0 + rows_messages(messages@.take(i as int)),
                self.api_history@ == last_n(h0 + rows_turns(messages@.take(i as int)), n as nat),
                self.title_requested == prev.title_requested,
                self.stream == prev.stream,
                self.last_error == prev.last_error,
                self.input == prev.input,
                self.autoscroll == prev.autoscroll,
                self.terminal_title == prev.terminal_title,
                self.meeting_id == prev.meeting_id,
                self.model == prev.model,
                self.meeting == prev.meeting,
            decreases messages.len() - i,
        {
            let msg = &messages[i];
            let speaker = if str_eq(msg.role.as_str(), "user") {
                Speaker::User
            } else if str_eq(msg.role.as_str(), "assistant") {
                Speaker::Assistant
            } else {
                Speaker::Error
            };
            let ghost before = self.api_history@;
            self.transcript.push(VisibleMessage { speaker, content: msg.content.clone() });
            let ghost taken = messages@.take(i as int);
            let ghost next = messages@.take(i + 1);
            proof {
                assert(next.drop_last() =~= taken);
                assert(next.last() == messages@[i as int]);
                assert(rows_messages(next) =~= rows_messages(taken).push(
                    VisibleMessage { speaker: role_speaker(msg.role@), content: msg.content },
                ));
            }
            match speaker {
                Speaker::User => {
                    let turn = ChatTurn { role: Role::User, content: msg.content.clone() };
                    proof {
                        lemma_last_n_push(h0 + rows_turns(taken), turn, n as nat);
                        assert((h0 + rows_turns(taken)).push(turn) =~= h0 + rows_turns(next));
                    }
                    self.push_api_history(turn);
                },
                Speaker::Assistant => {
                    let turn = ChatTurn { role: Role::Assistant, content: msg.content.clone() };
                    proof {
                        lemma_last_n_push(h0 + rows_turns(taken), turn, n as nat);
                        assert((h0 + rows_turns(taken)).push(turn) =~= h0 + rows_turns(next));
                    }
                    self.push_api_history(turn);
                },
                Speaker::Error => {
                    assert(rows_turns(next) == rows_turns(taken));
                },
            }
            proof {
                assert(self.transcript@ =~= t0 + rows_messages(next));
            }
            i += 1;
        }
        proof {
            assert(messages@.take(messages@.len() as int) =~= messages@);
        }
        if self.transcript.len() > 0 {
            self.title_requested = true;
        }
    }

    /// Sends the trimmed input line, unless it is blank.
    fn submit_input(&mut self) -> (r: Vec<Effect>)
        requires
            old(self).wf(),
        ensures
            final(self).wf(),
            old(self).submit_post(*final(self), r@),
    {
        let content = trimmed(self.input.as_str());
        if content.as_str().is_empty() {
            return Vec::new();
        }
        let ghost prev = *self;
        self.input = String::new();
        self.last_error = None;
        self.stream = StreamState::Streaming(String::new());
        self.autoscroll = true;
        self.transcript.push(VisibleMessage { speaker: Speaker::User, content: content.clone() });
        let history = self.working_history();
        self.push_api_history(ChatTurn { role: Role::User, content: content.clone() });
        let message_id = new_message_id();
        let mut effects = Vec::new();
        effects.push(Effect::Persist {
            meeting_id: self.meeting_id.clone(),
            message_id,
            role: Role::User,
            content: content.clone(),
        });
        effects.push(Effect::Submit { prompt: content, history });
        effects.push(Effect::ResetInput);
        proof {
            assert(self.transcript@.drop_last() =~= prev.transcript@);
        }
        effects
    }

    /// Ends the reply stream: the reply is shown, stored and added to the history, and the
    /// first reply also asks for a title; an empty reply is shown as an error.
    fn finish_stream(&mut self, final_text: Option<String>) -> (r: Vec<Effect>)
        requires
            old(self).wf(),
        ensures
            final(self).wf(),
            old(self).finish_post(opt_string_view(final_text), *final(self), r@),
    {
        let ghost prev = *self;
        let mut buffer = match &self.stream {
            StreamState::Streaming(buf) => buf.clone(),
            StreamState::Idle => String::new(),
        };
        self.stream = StreamState::Idle;
        match &final_text {
            Some(f) => {
                if extends(f.as_str(), buffer.as_str()) {
                    buffer = f.clone();
                }
            },
            None => {},
        }
        if buffer.as_str().is_empty() {
            self.last_error = Some("Empty response from model".to_owned());
            self.transcript.push(
                VisibleMessage {
                    speaker: Speaker::Error,
                    content: "No response content received from the model.".to_owned(),
                },
            );
            proof {
                assert(self.transcript@.drop_last() =~= prev.transcript@);
            }
            return Vec::new();
        }
        let first = self.first_user_index();
        self.transcript.push(VisibleMessage { speaker: Speaker::Assistant, content: buffer.clone() });
        let message_id = new_message_id();
        let mut effects = Vec::new();
        effects.push(Effect::Persist {
            meeting_id: self.meeting_id.clone(),
            message_id,
            role: Role::Assistant,
            content: buffer.clone(),
        });
        if !self.title_requested {
            self.title_requested = true;
            match first {
                Some(k) => {
                    effects.push(Effect::GenerateTitle {
                        prompt: self.transcript[k].content.clone(),
                        response: buffer.clone(),
                    });
                },
                None => {},
            }
        }
        self.push_api_history(ChatTurn { role: Role::Assistant, content: buffer });
        proof {
            assert(self.transcript@.drop_last() =~= prev.transcript@);
        }
        effects
    }

    /// Position of the first message the user wrote.
    fn first_user_index(&self) -> (r: Option<usize>)
        ensures
            match r {
                Some(k) => k == first_user(self.transcript@) && 0 <= k < self.transcript@.len(),
                None => first_user(self.transcript@) < 0,
            },
    {
        let mut i: usize = 0;
        while i < self.transcript.len()
            invariant
                i <= self.transcript@.len(),
                first_user(self.transcript@.take(i as int)) < 0,
            decreases self.transcript.len() - i,
        {
            proof {
                assert(self.transcript@.take(i + 1).drop_last() =~= self.transcript@.take(i as int));
            }
            if self.transcript[i].speaker == Speaker::User {
                proof {
                    lemma_first_user_prefix(self.transcript@, i + 1);
                }
                return Some(i);
            }
            i += 1;
        }
        proof {
            assert(self.transcript@.take(i as int) =~= self.transcript@);
        }
        None
    }

    /// Ends the reply stream on an error: what arrived is kept and stored, then the error
    /// is shown.
    fn fail_stream(&mut self, error: String) -> (r: Vec<Effect>)
        requires
            old(self).wf(),
        ensures
            final(self).wf(),
            old(self).fail_post(error@, *final(self), r@),
    {
        let ghost prev = *self;
        let buffer = match &self.stream {
            StreamState::Streaming(buf) => buf.clone(),
            StreamState::Idle => String::new(),
        };
        self.stream = StreamState::Idle;
        let mut effects = Vec::new();
        if !buffer.as_str().is_empty() {
            self.transcript.push(VisibleMessage { speaker: Speaker::Assistant, content: buffer.clone() });
            let message_id = new_message_id();
            self.push_api_history(ChatTurn { role: Role::Assistant, content: buffer.clone() });
            effects.push(Effect::Persist {
                meeting_id: self.meeting_id.clone(),
                message_id,
                role: Role::Assistant,
                content: buffer,
            });
        }
        let ghost mid = self.transcript@;
        self.last_error = Some(error.clone());
        self.transcript.push(VisibleMessage { speaker: Speaker::Error, content: error });
        proof {
            assert(self.transcript@.drop_last() =~= mid);
            assert(self.transcript@.subrange(0, prev.transcript@.len() as int) =~= prev.transcript@);
        }
        effects
    }

    fn handle_key(&mut self, key: KeyInput) -> (r: Vec<Effect>)
        requires
            old(self).wf(),
        ensures
            final(self).wf(),
            old(self).key_post(key, *final(self), r@),
    {
        if key.is_ctrl_char('c') {
            return one(Effect::Exit);
        }
        match key.code {
            KeyCode::PageUp => {
                self.autoscroll = false;
                return one(Effect::ScrollTranscript(Scroll::PageUp));
            },
            KeyCode::PageDown => {
                return one(Effect::ScrollTranscript(Scroll::PageDown));
            },
            KeyCode::Up => {
                if key.modifiers.control {
                    self.autoscroll = false;
                    return one(Effect::ScrollTranscript(Scroll::Up));
                }
            },
            KeyCode::Down => {
                if key.modifiers.control {
                    return one(Effect::ScrollTranscript(Scroll::Down));
                }
            },
            _ => {},
        }
        if self.streaming() {
            return Vec::new();
        }
        match key.code {
            KeyCode::Enter => self.submit_input(),
            _ => one(Effect::EditInput(key)),
        }
    }

    fn handle_paste(&mut self, pasted: String) -> (r: Vec<Effect>)
        requires
            old(self).wf(),
        ensures
            final(self).wf(),
            old(self).paste_post(pasted@, *final(self), r@),
    {
        if self.streaming() {
            return Vec::new();
        }
        one(Effect::InsertIntoInput(normalized_newlines(pasted.as_str())))
    }

    /// Applies one event to the chat and says what the front end should do.
    pub fn dispatch(&mut self, action: Action) -> (r: Vec<Effect>)
        requires
            old(self).wf(),
        ensures
            final(self).wf(),
            match action {
                Action::Key(key) => old(self).key_post(key, *final(self), r@),
                Action::Paste(p) => old(self).paste_post(p@, *final(self), r@),
                Action::StreamChunk(c) => old(self).chunk_post(c@, *final(self), r@),
                Action::StreamCompleted(f) => old(self).finish_post(opt_string_view(f), *final(self), r@),
                Action::StreamFailed(e) => old(self).fail_post(e@, *final(self), r@),
                Action::TitleGenerated(t) => old(self).title_post(t@, *final(self), r@),
            },
    {
        match action {
            Action::Key(key) => self.handle_key(key),
            Action::Paste(p) => self.handle_paste(p),
            Action::StreamChunk(chunk) => {
                match &self.stream {
                    StreamState::Streaming(buf) => {
                        let mut b = buf.clone();
                        push_all(&mut b, chunk.as_str());
                        self.stream = StreamState::Streaming(b);
                    },
                    StreamState::Idle => {},
                }
                if self.autoscroll {
                    one(Effect::ScrollTranscript(Scroll::ToBottom))
                } else {
                    Vec::new()
                }
            },
            Action::StreamCompleted(f) => self.finish_stream(f),
            Action::StreamFailed(e) => self.fail_stream(e),
            Action::TitleGenerated(title) => {
                self.terminal_title = Some(title.clone());
                one(Effect::UpdateTitle { meeting_id: self.meeting_id.clone(), title })
            },
        }
    }

    /// The messages of history sent along with a prompt: the last `max_history`.
    pub fn working_history(&self) -> (r: Vec<ChatTurn>)
        ensures
            same_turns(r@, last_n(self.api_history@, self.max_history as nat)),
    {
        let n = self.api_history.len();
        let skip = if n > self.max_history {
            n - self.max_history
        } else {
            0
        };
        let mut r: Vec<ChatTurn> = Vec::new();
        let mut i = skip;
        while i < n
            invariant
                skip <= i <= n == self.api_history@.len(),
                skip == if n > self.max_history { n - self.max_history } else { 0 },
                same_turns(r@, self.api_history@.subrange(skip as int, i as int)),
            decreases n - i,
        {
            r.push(copy_turn(&self.api_history[i]));
            i += 1;
        }
        proof {
            assert(self.api_history@.subrange(skip as int, n as int) =~= last_n(self.api_history@, self.max_history as nat));
        }
        r
    }
}

/// The history sent to the model never exceeds its cap, and what was added last is kept
/// at its end; pushing messages one at a time keeps the newest of all of them.
pub proof fn law_history_capped(h: Seq<ChatTurn>, m: ChatTurn, cap: nat)
    requires
        cap > 0,
    ensures
        last_n(h.push(m), cap).len() <= cap,
        last_n(h.push(m), cap).last() == m,
        last_n(last_n(h, cap).push(m), cap) == last_n(h.push(m), cap),
{
    lemma_last_n_push(h, m, cap);
}

} // verus!

//! The meeting view: a transcript beside a memo notepad, driven by vim-like modes.
//!
//! The memo text itself lives in the front end's editor; this state keeps a copy of it,
//! which the front end refreshes after each edit it performs.

use vstd::prelude::*;
use crate::keys::{KeyCode, KeyInput, KeyModifiers};
use crate::text::{concat, normalized_newlines, normalize_newlines, trimmed, trim, str_eq};

verus! {

/// Which pane has the keyboard.
#[derive(Clone, Copy, Debug, PartialEq, Eq, Structural)]
pub enum Mode {
    Normal,
    Insert,
    Command,
}

pub const DEFAULT_NOTEPAD_WIDTH_PERCENT: u16 = 60;
pub const MIN_NOTEPAD_WIDTH_PERCENT: u16 = 40;
pub const MAX_NOTEPAD_WIDTH_PERCENT: u16 = 75;

/// The stored meeting fields that the view shows.
#[derive(Debug, Clone)]
pub struct MeetingHeader {
    pub title: Option<String>,
    pub created_at: String,
}

/// How the transcript should scroll.
#[derive(Clone, Copy, Debug, PartialEq, Eq, Structural)]
pub enum Scroll {
    Up,
    Down,
    ToTop,
    ToBottom,
}

/// What the view asks its front end to do.
#[derive(Debug)]
pub enum Effect {
    SaveMemo { meeting_id: String, memo: String },
    Exit,
    /// Replace the editor's content with this text.
    ResetMemo(String),
    /// Insert this text at the editor's cursor.
    InsertIntoMemo(String),
    /// Let the editor handle this key.
    EditMemo(KeyInput),
    ScrollTranscript(Scroll),
}

/// What happened.
pub enum Action<S> {
    Key(KeyInput),
    Paste(String),
    Loaded { meeting: MeetingHeader, segments: Vec<S>, memo: Option<String> },
    LoadError(String),
    Saved,
    SaveError(String),
}

/// The state of the view; `S` is a transcript segment, kept for display only.
pub struct App<S> {
    pub meeting_id: String,
    pub title: String,
    pub created_at: String,
    pub segments: Vec<S>,
    pub memo_text: String,
    pub mode: Mode,
    pub command_buffer: String,
    pub notepad_width_percent: u16,
    pub loading: bool,
    pub error: Option<String>,
    pub memo_dirty: bool,
    pub save_message: Option<&'static str>,
    pub exit_after_save: bool,
}

/// `(width + delta)` clamped to the allowed notepad widths.
pub open spec fn clamp_width(width: int, delta: int) -> int {
    let w = width + delta;
    if w < MIN_NOTEPAD_WIDTH_PERCENT as int {
        MIN_NOTEPAD_WIDTH_PERCENT as int
    } else if w > MAX_NOTEPAD_WIDTH_PERCENT as int {
        MAX_NOTEPAD_WIDTH_PERCENT as int
    } else {
        w
    }
}

/// The commands that close the view.
pub open spec fn is_quit_command(cmd: Seq<char>) -> bool {
    cmd == "q"@ || cmd == "quit"@ || cmd == "q!"@ || cmd == "quit!"@
}

/// The commands that save the memo.
pub open spec fn is_write_command(cmd: Seq<char>) -> bool {
    cmd == "w"@ || cmd == "write"@
}

impl<S> App<S> {
    /// The notepad width is within its bounds.
    pub open spec fn wf(&self) -> bool {
        MIN_NOTEPAD_WIDTH_PERCENT <= self.notepad_width_percent <= MAX_NOTEPAD_WIDTH_PERCENT
    }

    /// The fields that keys and commands never touch are as in `other`.
    pub open spec fn same_content(&self, other: &Self) -> bool {
        &&& self.meeting_id == other.meeting_id
        &&& self.title == other.title
        &&& self.created_at == other.created_at
        &&& self.segments == other.segments
        &&& self.loading == other.loading
    }

    /// What running the typed `:` command does: `q`, `quit` and their `!` forms leave;
    /// `w` and `write` save the memo, and `wq` saves it and leaves once it is saved; any
    /// other command is reported as unknown. The command line is cleared either way.
    pub open spec fn command_outcome(self, next: Self, effects: Seq<Effect>) -> bool {
        let cmd = trim(self.command_buffer@);
        &&& next.wf() == self.wf()
        &&& next.command_buffer@.len() == 0
        &&& next.mode == Mode::Normal
        &&& next.same_content(&self)
        &&& next.memo_text == self.memo_text
        &&& next.memo_dirty == self.memo_dirty
        &&& next.save_message == self.save_message
        &&& next.notepad_width_percent == self.notepad_width_percent
        &&& if is_quit_command(cmd) {
            &&& effects.len() == 1 && effects[0] is Exit
            &&& next.exit_after_save == self.exit_after_save
            &&& next.error == self.error
        } else if is_write_command(cmd) || cmd == "wq"@ {
            &&& effects.len() == 1
            &&& effects[0] matches Effect::SaveMemo { meeting_id, memo } && meeting_id == self.meeting_id
                && memo == self.memo_text
            &&& next.exit_after_save == (self.exit_after_save || cmd == "wq"@)
            &&& next.error == self.error
        } else {
            &&& effects.len() == 0
            &&& next.exit_after_save == self.exit_after_save
            &&& next.error matches Some(e) && e@ == "Unknown command: :"@ + cmd
        }
    }

    /// What a key does while a `:` command is typed: Enter runs it, Esc drops it,
    /// Backspace erases its last character or leaves the command line when it is empty,
    /// and a character is typed into it; other keys do nothing.
    pub open spec fn command_key_post(self, key: KeyInput, next: Self, effects: Seq<Effect>) -> bool {
        &&& next.wf() == self.wf()
        &&& next.same_content(&self)
        &&& next.memo_text == self.memo_text
        &&& key.code == KeyCode::Enter ==> self.command_outcome(next, effects)
        &&& key.code == KeyCode::Esc ==> next == App::<S> {
            mode: Mode::Normal,
            command_buffer: next.command_buffer,
            ..self
        } && next.command_buffer@.len() == 0 && effects.len() == 0
        &&& key.code == KeyCode::Backspace ==> effects.len() == 0 && if self.command_buffer@.len() == 0 {
            next == App::<S> { mode: Mode::Normal, ..self }
        } else {
            next == App::<S> { command_buffer: next.command_buffer, ..self }
                && next.command_buffer@ == self.command_buffer@.drop_last()
        }
        &&& key.code matches KeyCode::Char(ch) ==> effects.len() == 0 && next == App::<S> {
            command_buffer: next.command_buffer,
            ..self
        } && next.command_buffer@ == self.command_buffer@.push(ch)
        &&& !(key.code is Enter || key.code is Esc || key.code is Backspace || key.code is Char) ==> effects.len()
            == 0 && next == self
    }

    /// What a finished save does: the memo is clean, "saved" is shown, and a pending
    /// `:wq` leaves.
    pub open spec fn saved_post(self, next: Self, effects: Seq<Effect>) -> bool {
        &&& !next.memo_dirty
        &&& next.save_message == Some("saved")
        &&& !next.exit_after_save
        &&& if self.exit_after_save {
            effects.len() == 1 && effects[0] is Exit
        } else {
            effects.len() == 0
        }
    }

    /// What a failed save does: the failure is shown and a pending `:wq` no longer leaves.
    pub open spec fn save_failed_post(self, msg: Seq<char>, next: Self, effects: Seq<Effect>) -> bool {
        &&& !next.exit_after_save
        &&& next.error matches Some(e) && e@ == "save failed: "@ + msg
        &&& effects.len() == 0
    }

    /// A view of `meeting_id`, loading.
    pub fn new(meeting_id: String) -> (r: Self)
        ensures
            r.wf(),
            r.meeting_id == meeting_id,
            r.title@.len() == 0 && r.created_at@.len() == 0 && r.segments@.len() == 0,
            r.memo_text@.len() == 0,
            r.mode == Mode::Normal,
            r.command_buffer@.len() == 0,
            r.notepad_width_percent == DEFAULT_NOTEPAD_WIDTH_PERCENT,
            r.loading,
            r.error is None,
            !r.memo_dirty,
            r.save_message is None,
            !r.exit_after_save,
    {
        App {
            meeting_id,
            title: String::new(),
            created_at: String::new(),
            segments: Vec::new(),
            memo_text: String::new(),
            mode: Mode::Normal,
            command_buffer: String::new(),
            notepad_width_percent: DEFAULT_NOTEPAD_WIDTH_PERCENT,
            loading: true,
            error: None,
            memo_dirty: false,
            save_message: None,
            exit_after_save: false,
        }
    }

    /// Records the editor's current text.
    pub fn sync_memo(&mut self, text: String)
        ensures
            final(self).memo_text == text,
            final(self).wf() == old(self).wf(),
            final(self).mode == old(self).mode,
            final(self).same_content(old(self)),
    {
        self.memo_text = text;
    }

    pub fn memo_focused(&self) -> (r: bool)
        ensures
            r == (self.mode == Mode::Insert),
    {
        self.mode == Mode::Insert
    }

    pub fn transcript_focused(&self) -> (r: bool)
        ensures
            r == (self.mode == Mode::Normal),
    {
        self.mode == Mode::Normal
    }

    pub fn error(&self) -> (r: Option<&str>)
        ensures
            match r {
                Some(e) => self.error is Some && e@ == self.error.unwrap()@,
                None => self.error is None,
            },
    {
        match &self.error {
            Some(e) => Some(e.as_str()),
            None => None,
        }
    }

    fn adjust_notepad_width(&mut self, delta: i16)
        requires
            old(self).wf(),
            -2 <= delta <= 2,
        ensures
            final(self).wf(),
            final(self).notepad_width_percent as int == clamp_width(
                old(self).notepad_width_percent as int,
                delta as int,
            ),
            final(self).mode == old(self).mode,
            final(self).command_buffer == old(self).command_buffer,
            final(self).memo_text == old(self).memo_text,
            final(self).memo_dirty == old(self).memo_dirty,
            final(self).save_message == old(self).save_message,
            final(self).exit_after_save == old(self).exit_after_save,
            final(self).error == old(self).error,
            final(self).same_content(old(self)),
    {
        let w = self.notepad_width_percent as i16 + delta;
        let next = if w < MIN_NOTEPAD_WIDTH_PERCENT as i16 {
            MIN_NOTEPAD_WIDTH_PERCENT as i16
        } else if w > MAX_NOTEPAD_WIDTH_PERCENT as i16 {
            MAX_NOTEPAD_WIDTH_PERCENT as i16
        } else {
            w
        };
        self.notepad_width_percent = next as u16;
    }

    /// Runs the typed `:` command.
    fn execute_command(&mut self) -> (effects: Vec<Effect>)
        requires
            old(self).wf(),
        ensures
            final(self).wf(),
            old(self).command_outcome(*final(self), effects@),
    {
        let cmd = trimmed(self.command_buffer.as_str());
        self.command_buffer = String::new();
        self.mode = Mode::Normal;
        let c = cmd.as_str();
        if str_eq(c, "q") || str_eq(c, "quit") || str_eq(c, "q!") || str_eq(c, "quit!") {
            let mut effects = Vec::new();
            effects.push(Effect::Exit);
            effects
        } else if str_eq(c, "w") || str_eq(c, "write") || str_eq(c, "wq") {
            if str_eq(c, "wq") {
                self.exit_after_save = true;
            }
            let mut effects = Vec::new();
            effects.push(Effect::SaveMemo { meeting_id: self.meeting_id.clone(), memo: self.memo_text.clone() });
            effects
        } else {
            self.error = Some(concat("Unknown command: :", c));
            Vec::new()
        }
    }

    /// Handles a key in command mode.
    fn handle_command_key(&mut self, key: KeyInput) -> (effects: Vec<Effect>)
        requires
            old(self).wf(),
            old(self).mode == Mode::Command,
        ensures
            final(self).wf(),
            old(self).command_key_post(key, *final(self), effects@),
    {
        match key.code {
            KeyCode::Esc => {
                self.mode = Mode::Normal;
                self.command_buffer = String::new();
                Vec::new()
            },
            KeyCode::Enter => self.execute_command(),
            KeyCode::Backspace => {
                let v = crate::text::chars_of(self.command_buffer.as_str());
                if v.len() == 0 {
                    self.mode = Mode::Normal;
                } else {
                    self.command_buffer = crate::text::string_from_chars(v.as_slice(), 0, v.len() - 1);
                    assert(v@.subrange(0, v@.len() - 1) =~= v@.drop_last());
                }
                Vec::new()
            },
            KeyCode::Char(c) => {
                crate::text::push_char(&mut self.command_buffer, c);
                Vec::new()
            },
            _ => Vec::new(),
        }
    }

    /// What a key does: Ctrl+C leaves; Ctrl+Left and Ctrl+Right resize the notepad outside
    /// command mode; in normal mode the mode keys switch modes and the motion keys scroll the
    /// transcript; command mode edits and runs the command line; insert mode edits the memo.
    pub open spec fn key_post(self, key: KeyInput, next: Self, effects: Seq<Effect>) -> bool {
        &&& (key.is_ctrl_c() ==> effects.len() == 1 && effects[0] is Exit && next == self)
        &&& (!key.is_ctrl_c() && key.modifiers.control && self.mode != Mode::Command
            && (key.code == KeyCode::Left || key.code == KeyCode::Right) ==> {
            &&& effects.len() == 0
            &&& next.notepad_width_percent as int == clamp_width(
                self.notepad_width_percent as int,
                if key.code == KeyCode::Left { -2 } else { 2 },
            )
            &&& next.mode == self.mode
        })
        &&& (!key.is_ctrl_c() && self.mode == Mode::Normal && !(key.modifiers.control
            && (key.code == KeyCode::Left || key.code == KeyCode::Right)) ==> {
            &&& key.code == KeyCode::Char(':') ==> next.mode == Mode::Command
                && next.command_buffer@.len() == 0 && next.save_message is None
                && effects.len() == 0
            &&& (key.code == KeyCode::Char('i') || key.code == KeyCode::Char('a') || key.code
                == KeyCode::Tab) ==> next.mode == Mode::Insert && next.save_message is None
                && effects.len() == 0
            &&& (key.code == KeyCode::Char('j') || key.code == KeyCode::Down) ==> effects == seq![
                Effect::ScrollTranscript(Scroll::Down),
            ] && next.mode == Mode::Normal
            &&& (key.code == KeyCode::Char('k') || key.code == KeyCode::Up) ==> effects == seq![
                Effect::ScrollTranscript(Scroll::Up),
            ] && next.mode == Mode::Normal
            &&& key.code == KeyCode::Char('G') ==> effects == seq![Effect::ScrollTranscript(Scroll::ToBottom)]
            &&& key.code == KeyCode::Char('g') ==> effects == seq![Effect::ScrollTranscript(Scroll::ToTop)]
            &&& (key.code == KeyCode::Char('j') || key.code == KeyCode::Down || key.code == KeyCode::Char('k')
                || key.code == KeyCode::Up || key.code == KeyCode::Char('G') || key.code == KeyCode::Char('g')
                || !(key.code == KeyCode::Char(':') || key.code == KeyCode::Char('i') || key.code
                == KeyCode::Char('a') || key.code == KeyCode::Tab)) ==> next == self
            &&& !(key.code == KeyCode::Char(':') || key.code == KeyCode::Char('i') || key.code == KeyCode::Char('a')
                || key.code == KeyCode::Tab || key.code == KeyCode::Char('j') || key.code == KeyCode::Down
                || key.code == KeyCode::Char('k') || key.code == KeyCode::Up || key.code == KeyCode::Char('G')
                || key.code == KeyCode::Char('g')) ==> effects.len() == 0
        })
        &&& (!key.is_ctrl_c() && self.mode == Mode::Command ==> self.command_key_post(key, next, effects))
        &&& (!key.is_ctrl_c() && self.mode == Mode::Insert && !(key.modifiers.control
            && (key.code == KeyCode::Left || key.code == KeyCode::Right)) ==> {
            if key.code == KeyCode::Esc || key.code == KeyCode::Tab {
                next.mode == Mode::Normal && effects.len() == 0
                    && next.memo_dirty == self.memo_dirty
            } else if key.modifiers.control && key.code == KeyCode::Char('u') {
                &&& next.mode == Mode::Insert && next.memo_dirty && next.memo_text@.len() == 0
                &&& effects.len() == 1
                &&& effects[0] matches Effect::ResetMemo(t) && t@.len() == 0
            } else {
                next.mode == Mode::Insert && next.memo_dirty && effects == seq![Effect::EditMemo(key)]
            }
        })
    }

    /// Handles a key.
    pub fn handle_key(&mut self, key: KeyInput) -> (effects: Vec<Effect>)
        requires
            old(self).wf(),
        ensures
            final(self).wf(),
            final(self).same_content(old(self)),
            old(self).key_post(key, *final(self), effects@),
    {
        if key.is_ctrl_char('c') {
            let mut effects = Vec::new();
            effects.push(Effect::Exit);
            return effects;
        }
        if key.modifiers.control && (self.mode == Mode::Normal || self.mode == Mode::Insert) {
            match key.code {
                KeyCode::Left => {
                    self.adjust_notepad_width(-2);
                    return Vec::new();
                },
                KeyCode::Right => {
                    self.adjust_notepad_width(2);
                    return Vec::new();
                },
                _ => {},
            }
        }
        match self.mode {
            Mode::Normal => {
                let mut effects = Vec::new();
                match key.code {
                    KeyCode::Char(':') => {
                        self.mode = Mode::Command;
                        self.command_buffer = String::new();
                        self.save_message = None;
                    },
                    KeyCode::Char('i') | KeyCode::Char('a') | KeyCode::Tab => {
                        self.mode = Mode::Insert;
                        self.save_message = None;
                    },
                    KeyCode::Char('j') | KeyCode::Down => {
                        effects.push(Effect::ScrollTranscript(Scroll::Down));
                    },
                    KeyCode::Char('k') | KeyCode::Up => {
                        effects.push(Effect::ScrollTranscript(Scroll::Up));
                    },
                    KeyCode::Char('G') => {
                        effects.push(Effect::ScrollTranscript(Scroll::ToBottom));
                    },
                    KeyCode::Char('g') => {
                        effects.push(Effect::ScrollTranscript(Scroll::ToTop));
                    },
                    _ => {},
                }
                effects
            },
            Mode::Insert => {
                if key.code == KeyCode::Esc || key.code == KeyCode::Tab {
                    self.mode = Mode::Normal;
                    return Vec::new();
                }
                let mut effects = Vec::new();
                if key.is_ctrl_char('u') {
                    self.memo_text = String::new();
                    self.memo_dirty = true;
                    effects.push(Effect::ResetMemo(String::new()));
                    return effects;
                }
                self.memo_dirty = true;
                effects.push(Effect::EditMemo(key));
                effects
            },
            Mode::Command => self.handle_command_key(key),
        }
    }

    /// What pasted text does: in insert mode it goes into the memo with its line endings
    /// normalized; otherwise it is ignored.
    pub open spec fn paste_post(self, pasted: Seq<char>, next: Self, effects: Seq<Effect>) -> bool {
        &&& next.mode == self.mode
        &&& self.mode != Mode::Insert ==> effects.len() == 0 && next == self
        &&& self.mode == Mode::Insert ==> {
            &&& next.memo_dirty
            &&& effects.len() == 1
            &&& effects[0] matches Effect::InsertIntoMemo(t) && t@ == normalize_newlines(pasted)
        }
    }

    /// Handles pasted text: inserted into the memo in insert mode, ignored otherwise.
    pub fn handle_paste(&mut self, pasted: String) -> (effects: Vec<Effect>)
        requires
            old(self).wf(),
        ensures
            final(self).wf(),
            final(self).same_content(old(self)),
            old(self).paste_post(pasted@, *final(self), effects@),
    {
        if self.mode != Mode::Insert {
            return Vec::new();
        }
        let text = normalized_newlines(pasted.as_str());
        self.memo_dirty = true;
        let mut effects = Vec::new();
        effects.push(Effect::InsertIntoMemo(text));
        effects
    }

    /// Handles an action.
    pub fn dispatch(&mut self, action: Action<S>) -> (effects: Vec<Effect>)
        requires
            old(self).wf(),
        ensures
            final(self).wf(),
            action matches Action::Key(k) ==> final(self).same_content(old(self)) && old(self).key_post(
                k,
                *final(self),
                effects@,
            ),
            action matches Action::Paste(p) ==> final(self).same_content(old(self)) && old(self).paste_post(
                p@,
                *final(self),
                effects@,
            ),
            action matches Action::Loaded { meeting, segments, memo } ==> {
                &&& !final(self).loading
                &&& final(self).title@ == match meeting.title {
                    Some(t) => t@,
                    None => Seq::empty(),
                }
                &&& final(self).created_at == meeting.created_at
                &&& final(self).segments == segments
                &&& final(self).memo_text@ == match memo {
                    Some(m) => m@,
                    None => Seq::empty(),
                }
                &&& effects@.len() == 1
                &&& effects@[0] matches Effect::ResetMemo(t) && t == final(self).memo_text
            },
            action matches Action::LoadError(msg) ==> !final(self).loading && final(self).error == Some(msg)
                && effects@.len() == 0,
            action is Saved ==> old(self).saved_post(*final(self), effects@),
            action matches Action::SaveError(msg) ==> old(self).save_failed_post(msg@, *final(self), effects@),
    {
        match action {
            Action::Key(key) => self.handle_key(key),
            Action::Paste(pasted) => self.handle_paste(pasted),
            Action::Loaded { meeting, segments, memo } => {
                self.loading = false;
                self.title = match meeting.title {
                    Some(t) => t,
                    None => String::new(),
                };
                self.created_at = meeting.created_at;
                self.memo_text = match memo {
                    Some(m) => m,
                    None => String::new(),
                };
                self.segments = segments;
                let mut effects = Vec::new();
                effects.push(Effect::ResetMemo(self.memo_text.clone()));
                effects
            },
            Action::LoadError(msg) => {
                self.loading = false;
                self.error = Some(msg);
                Vec::new()
            },
            Action::Saved => {
                self.memo_dirty = false;
                self.save_message = Some("saved");
                if self.exit_after_save {
                    self.exit_after_save = false;
                    let mut effects = Vec::new();
                    effects.push(Effect::Exit);
                    effects
                } else {
                    Vec::new()
                }
            },
            Action::SaveError(msg) => {
                self.exit_after_save = false;
                self.error = Some(concat("save failed: ", msg.as_str()));
                Vec::new()
            },
        }
    }
}

/// `:wq` saves the memo and leaves only once the save succeeded: a finished save then
/// asks to leave, a failed one does not, and reports the failure.
pub proof fn law_wq_exits_only_after_save<S>(
    s0: App<S>,
    s1: App<S>,
    typed: Seq<Effect>,
    saved: App<S>,
    after_save: Seq<Effect>,
    failed: App<S>,
    after_failure: Seq<Effect>,
    msg: Seq<char>,
)
    requires
        s0.mode == Mode::Command,
        trim(s0.command_buffer@) == "wq"@,
        s0.key_post(KeyInput { code: KeyCode::Enter, modifiers: KeyModifiers { shift: false, control: false, alt: false, other: false } }, s1, typed),
        s1.saved_post(saved, after_save),
        s1.save_failed_post(msg, failed, after_failure),
    ensures
        typed.len() == 1 && typed[0] is SaveMemo,
        s1.exit_after_save,
        after_save.len() == 1 && after_save[0] is Exit,
        after_failure.len() == 0,
        failed.error matches Some(e) && e@ == "save failed: "@ + msg,
{
    reveal_strlit("wq");
    reveal_strlit("q");
    reveal_strlit("quit");
    reveal_strlit("q!");
    reveal_strlit("quit!");
    reveal_strlit("w");
    reveal_strlit("write");
    assert("wq"@[0] != "q"@[0]);
    assert("wq"@ != "q"@ && "wq"@ != "quit"@ && "wq"@ != "quit!"@);
    assert("wq"@ != "write"@) by {
        assert("wq"@.len() != "write"@.len());
    }
    assert("wq"@ != "q!"@) by {
        assert("wq"@[0] != "q!"@[0]);
    }
    assert("wq"@ != "w"@) by {
        assert("wq"@.len() != "w"@.len());
    }
    assert(!is_quit_command(trim(s0.command_buffer@)));
    assert(!is_write_command(trim(s0.command_buffer@)));
}

} // verus!

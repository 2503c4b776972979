//! The files of a synced session folder and what is read from them: the session's
//! metadata, its transcript, its memo and its notes.
//!
//! The front end lists the folder, reads each file and parses its JSON and front matter;
//! what each file contributes to the session is decided here.

use vstd::prelude::*;
use std::collections::HashMap;
use crate::text::{str_eq, trimmed, trim, chars_of};

verus! {

#[verifier::external_type_specification]
#[verifier::external_body]
pub struct ExJsonValue(serde_json::Value);

/// A folder of sessions.
#[derive(Debug, Clone)]
pub struct FolderInfo {
    pub name: String,
    pub parent_folder_id: Option<String>,
}

/// The folders, by id, and the folder of each session.
#[derive(Debug)]
pub struct ListFoldersResult {
    pub folders: HashMap<String, FolderInfo>,
    pub session_folder_map: HashMap<String, String>,
}

/// The files found under a directory, by path, and its subdirectories.
#[derive(Debug)]
pub struct ScanResult {
    pub files: HashMap<String, String>,
    pub dirs: Vec<String>,
}

/// What a cleanup removes.
#[derive(Debug, Clone)]
pub enum CleanupTarget {
    Files { subdir: String, extension: String },
    Dirs { subdir: String, marker_file: String },
    FilesRecursive { subdir: String, marker_file: String, extension: String },
}

/// Where a saved attachment went.
#[derive(Debug, Clone)]
pub struct AttachmentSaveResult {
    pub path: String,
    pub attachment_id: String,
}

/// An attachment of a session.
#[derive(Debug, Clone)]
pub struct AttachmentInfo {
    pub attachment_id: String,
    pub path: String,
    pub extension: String,
    pub modified_at: String,
}

/// A participant as a session's metadata records it.
#[derive(Debug, Clone)]
pub struct SessionMetaParticipant {
    pub id: String,
    pub user_id: String,
    pub session_id: String,
    pub human_id: String,
    pub source: String,
}

/// A session's metadata.
#[derive(Debug)]
pub struct SessionMetaData {
    pub id: String,
    pub user_id: String,
    pub created_at: Option<String>,
    pub title: Option<String>,
    pub event: Option<serde_json::Value>,
    pub event_id: Option<String>,
    pub participants: Vec<SessionMetaParticipant>,
    pub tags: Vec<String>,
}

/// A session's metadata as its file holds it, where the lists may be missing.
#[derive(Debug)]
pub struct SessionMetaDataRaw {
    pub id: String,
    pub user_id: String,
    pub created_at: Option<String>,
    pub title: Option<String>,
    pub event: Option<serde_json::Value>,
    pub event_id: Option<String>,
    pub participants: Option<Vec<SessionMetaParticipant>>,
    pub tags: Option<Vec<String>>,
}

impl SessionMetaData {
    /// The metadata a file holds; a missing list is empty.
    pub fn from_raw(raw: SessionMetaDataRaw) -> (r: Self)
        ensures
            r.id == raw.id,
            r.user_id == raw.user_id,
            r.created_at == raw.created_at,
            r.title == raw.title,
            r.event == raw.event,
            r.event_id == raw.event_id,
            r.participants@ == match raw.participants {
                Some(p) => p@,
                None => Seq::empty(),
            },
            r.tags@ == match raw.tags {
                Some(t) => t@,
                None => Seq::empty(),
            },
    {
        SessionMetaData {
            id: raw.id,
            user_id: raw.user_id,
            created_at: raw.created_at,
            title: raw.title,
            event: raw.event,
            event_id: raw.event_id,
            participants: match raw.participants {
                Some(p) => p,
                None => Vec::new(),
            },
            tags: match raw.tags {
                Some(t) => t,
                None => Vec::new(),
            },
        }
    }
}

/// A word of a stored transcript.
#[derive(Debug, Clone)]
pub struct TranscriptWord {
    pub id: Option<String>,
    pub text: String,
    pub start_ms: i64,
    pub end_ms: i64,
    pub channel: i64,
}

/// A hint about who spoke a word.
#[derive(Debug)]
pub struct TranscriptSpeakerHint {
    pub id: Option<String>,
    pub word_id: String,
    pub hint_type: String,
    pub value: serde_json::Value,
}

/// One transcript of a session.
#[derive(Debug)]
pub struct TranscriptEntry {
    pub id: String,
    pub user_id: Option<String>,
    pub created_at: Option<String>,
    pub session_id: String,
    pub started_at: Option<i64>,
    pub ended_at: Option<i64>,
    pub words: Vec<TranscriptWord>,
    pub speaker_hints: Vec<TranscriptSpeakerHint>,
}

/// The transcripts of a session.
#[derive(Debug)]
pub struct TranscriptData {
    pub transcripts: Vec<TranscriptEntry>,
}

/// A note of a session.
#[derive(Debug)]
pub struct SessionNoteData {
    pub id: String,
    pub session_id: String,
    pub template_id: Option<String>,
    pub position: Option<i64>,
    pub title: Option<String>,
    pub tiptap_json: serde_json::Value,
    pub markdown: Option<String>,
}

/// Everything read from a session's folder.
#[derive(Debug)]
pub struct SessionContentData {
    pub session_id: String,
    pub meta: Option<SessionMetaData>,
    pub raw_memo_tiptap_json: Option<serde_json::Value>,
    pub raw_memo_markdown: Option<String>,
    pub transcript: Option<TranscriptData>,
    pub notes: Vec<SessionNoteData>,
}

/// What a file of a session folder holds, by its name.
#[derive(Clone, Copy, Debug, PartialEq, Eq, Structural)]
pub enum SessionFileKind {
    Meta,
    Transcript,
    Markdown,
    Ignored,
}

/// `s` ends with `suffix`.
pub open spec fn ends_with(s: Seq<char>, suffix: Seq<char>) -> bool {
    suffix.len() <= s.len() && s.skip(s.len() - suffix.len()) == suffix
}

/// What a file named `name` holds: the metadata, the transcript, a markdown note or memo,
/// or nothing that is read.
pub open spec fn file_kind(name: Seq<char>) -> SessionFileKind {
    if name == "_meta.json"@ {
        SessionFileKind::Meta
    } else if name == "transcript.json"@ {
        SessionFileKind::Transcript
    } else if ends_with(name, ".md"@) {
        SessionFileKind::Markdown
    } else {
        SessionFileKind::Ignored
    }
}

pub(crate) fn ends_with_text(s: &str, suffix: &str) -> (r: bool)
    ensures
        r == ends_with(s@, suffix@),
{
    let sv = chars_of(s);
    let xv = chars_of(suffix);
    if xv.len() > sv.len() {
        return false;
    }
    let off = sv.len() - xv.len();
    let total = sv.len();
    let mut i: usize = 0;
    while i < xv.len()
        invariant
            i <= xv@.len(),
            off + xv@.len() == sv@.len() == total,
            sv@ == s@,
            xv@ == suffix@,
            forall|j: int| 0 <= j < i ==> sv@[off + j] == xv@[j],
        decreases xv.len() - i,
    {
        if sv[off + i] != xv[i] {
            assert(s@.skip(off as int)[i as int] != suffix@[i as int]);
            return false;
        }
        i += 1;
    }
    assert(s@.skip(off as int) =~= suffix@);
    true
}

/// What a file named `name` holds.
pub fn classify_session_file(name: &str) -> (r: SessionFileKind)
    ensures
        r == file_kind(name@),
{
    if str_eq(name, "_meta.json") {
        SessionFileKind::Meta
    } else if str_eq(name, "transcript.json") {
        SessionFileKind::Transcript
    } else if ends_with_text(name, ".md") {
        SessionFileKind::Markdown
    } else {
        SessionFileKind::Ignored
    }
}

/// The front matter fields of a markdown file that are read: text values, and the
/// position where it is an integer.
#[derive(Debug)]
pub struct Frontmatter {
    pub id: Option<String>,
    pub session_id: Option<String>,
    pub template_id: Option<String>,
    pub position: Option<i64>,
    pub title: Option<String>,
}

/// A text field, or the empty text where it is missing.
pub open spec fn or_empty(v: Option<String>) -> Seq<char> {
    match v {
        Some(s) => s@,
        None => Seq::empty(),
    }
}

impl SessionContentData {
    /// Nothing read yet for `session_id`.
    pub fn empty(session_id: &str) -> (r: Self)
        ensures
            r.session_id@ == session_id@,
            r.meta is None,
            r.raw_memo_tiptap_json is None,
            r.raw_memo_markdown is None,
            r.transcript is None,
            r.notes@.len() == 0,
    {
        SessionContentData {
            session_id: session_id.to_owned(),
            meta: None,
            raw_memo_tiptap_json: None,
            raw_memo_markdown: None,
            transcript: None,
            notes: Vec::new(),
        }
    }

    /// What a markdown file named `name`, with front matter `fm`, body `body` and the
    /// editor document `tiptap` made of the body, adds to the session `session_id`:
    /// nothing when it belongs to another session; the memo when it is the memo file
    /// (its text only where the trimmed body is not empty); else a note, when it has an id.
    pub open spec fn markdown_post(
        self,
        name: Seq<char>,
        session_id: Seq<char>,
        fm: Frontmatter,
        body: Seq<char>,
        tiptap: serde_json::Value,
        next: Self,
    ) -> bool {
        if or_empty(fm.session_id) != session_id {
            next == self
        } else if name == "_memo.md"@ {
            &&& next.raw_memo_tiptap_json == Some(tiptap)
            &&& trim(body).len() > 0 ==> (next.raw_memo_markdown matches Some(m) && m@ == trim(body))
            &&& trim(body).len() == 0 ==> next.raw_memo_markdown == self.raw_memo_markdown
            &&& next == SessionContentData {
                raw_memo_tiptap_json: next.raw_memo_tiptap_json,
                raw_memo_markdown: next.raw_memo_markdown,
                ..self
            }
        } else if or_empty(fm.id).len() == 0 {
            next == self
        } else {
            &&& next == SessionContentData { notes: next.notes, ..self }
            &&& next.notes@.len() == self.notes@.len() + 1
            &&& next.notes@.drop_last() == self.notes@
            &&& next.notes@.last().id@ == or_empty(fm.id)
            &&& next.notes@.last().session_id@ == session_id
            &&& next.notes@.last().template_id == fm.template_id
            &&& next.notes@.last().position == fm.position
            &&& next.notes@.last().title == fm.title
            &&& next.notes@.last().tiptap_json == tiptap
            &&& match next.notes@.last().markdown {
                Some(m) => trim(body).len() > 0 && m@ == trim(body),
                None => trim(body).len() == 0,
            }
        }
    }

    /// Adds what a markdown file contributes.
    pub fn add_markdown(
        &mut self,
        name: &str,
        session_id: &str,
        fm: Frontmatter,
        body: &str,
        tiptap: serde_json::Value,
    )
        ensures
            old(self).markdown_post(name@, session_id@, fm, body@, tiptap, *final(self)),
    {
        let ghost fm0 = fm;
        let id: String = match fm.id {
            Some(v) => v,
            None => String::new(),
        };
        let fm_session: String = match fm.session_id {
            Some(v) => v,
            None => String::new(),
        };
        if !str_eq(fm_session.as_str(), session_id) {
            return;
        }
        let text = trimmed(body);
        if str_eq(name, "_memo.md") {
            self.raw_memo_tiptap_json = Some(tiptap);
            if !text.as_str().is_empty() {
                self.raw_memo_markdown = Some(text);
            }
            return;
        }
        if id.as_str().is_empty() {
            return;
        }
        let markdown = if text.as_str().is_empty() {
            None
        } else {
            Some(text)
        };
        let ghost before = self.notes@;
        self.notes.push(
            SessionNoteData {
                id,
                session_id: fm_session,
                template_id: fm.template_id,
                position: fm.position,
                title: fm.title,
                tiptap_json: tiptap,
                markdown,
            },
        );
        proof {
            assert(self.notes@.drop_last() =~= before);
        }
    }
}

/// A note keeps its text: a markdown file of the session that is not the memo and has an
/// id becomes one more note, with that id and session, whose markdown is the trimmed body
/// when that is not blank, and nothing otherwise; the notes before it stay.
pub proof fn law_note_keeps_its_text(
    s: SessionContentData,
    name: Seq<char>,
    session_id: Seq<char>,
    fm: Frontmatter,
    body: Seq<char>,
    tiptap: serde_json::Value,
    next: SessionContentData,
)
    requires
        fm.session_id matches Some(sid) && sid@ == session_id,
        fm.id matches Some(id) && id@.len() > 0,
        name != "_memo.md"@,
        s.markdown_post(name, session_id, fm, body, tiptap, next),
    ensures
        next.notes@.len() == s.notes@.len() + 1,
        next.notes@.take(s.notes@.len() as int) == s.notes@,
        next.notes@.last().id@ == fm.id->0@,
        next.notes@.last().session_id@ == session_id,
        trim(body).len() > 0 ==> (next.notes@.last().markdown matches Some(m) && m@ == trim(body)),
        trim(body).len() == 0 ==> next.notes@.last().markdown is None,
        next.raw_memo_markdown == s.raw_memo_markdown,
{
    assert(next.notes@.take(s.notes@.len() as int) =~= next.notes@.drop_last());
}

/// The memo keeps its text: the session's memo file sets the memo's document, and its
/// trimmed body when that is not blank; a blank body leaves the memo text as it was.
/// No note is added.
pub proof fn law_memo_keeps_its_text(
    s: SessionContentData,
    session_id: Seq<char>,
    fm: Frontmatter,
    body: Seq<char>,
    tiptap: serde_json::Value,
    next: SessionContentData,
)
    requires
        fm.session_id matches Some(sid) && sid@ == session_id,
        s.markdown_post("_memo.md"@, session_id, fm, body, tiptap, next),
    ensures
        next.raw_memo_tiptap_json == Some(tiptap),
        trim(body).len() > 0 ==> (next.raw_memo_markdown matches Some(m) && m@ == trim(body)),
        trim(body).len() == 0 ==> next.raw_memo_markdown == s.raw_memo_markdown,
        next.notes == s.notes,
{
}

/// A file of another session adds nothing; a missing session id in the front matter
/// counts as the empty one.
pub proof fn law_other_sessions_files_are_ignored(
    s: SessionContentData,
    name: Seq<char>,
    session_id: Seq<char>,
    fm: Frontmatter,
    body: Seq<char>,
    tiptap: serde_json::Value,
    next: SessionContentData,
)
    requires
        (match fm.session_id {
            Some(sid) => sid@,
            None => Seq::<char>::empty(),
        }) != session_id,
        s.markdown_post(name, session_id, fm, body, tiptap, next),
    ensures
        next == s,
{
}

} // verus!

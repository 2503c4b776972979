//! The decisions of the repository's task runner: which task the arguments ask for, how
//! the host triple is read from `rustc -vV`, the names of the built sidecar, the pairs of
//! a TOML edit, the settings the local Supabase configuration receives, and the module
//! map of the generated mobile bridge.
//!
//! The front end runs the processes, reads and writes the files and edits the TOML tables.

use vstd::prelude::*;
use crate::text::{str_eq, chars_of, concat, push_all, is_whitespace, char_is_whitespace, string_from_chars};
use crate::vad_errors::{decimal, decimal_text};
use crate::command_popup::{contains_seq, contains_text};
use crate::session_files::{ends_with, ends_with_text};

verus! {

/// The task that the arguments ask for.
#[derive(Debug)]
pub enum XtaskCommand {
    Help,
    PrepareBinaries,
    MobileBridgeIos,
    SupabasePatch,
    /// The arguments after `toml-set`.
    TomlSet(Vec<String>),
}

/// What can go wrong in a task's own logic.
#[derive(Debug)]
pub enum XtaskError {
    UnknownMobileBridgeTarget(String),
    UnknownCommand(String),
    NoHostLine,
    MalformedHostLine,
    TomlSetUsage,
    UnpairedArguments,
    /// No file in the directory matched.
    NoMatchingFile(String),
    /// More than one file in the directory matched: the directory and the count.
    ManyMatchingFiles(String, usize),
}

/// The message an error shows.
pub open spec fn xtask_error_message(e: XtaskError) -> Seq<char> {
    match e {
        XtaskError::UnknownMobileBridgeTarget(t) => "unknown mobile-bridge target: "@ + t@,
        XtaskError::UnknownCommand(c) => "unknown xtask command: "@ + c@,
        XtaskError::NoHostLine => "no host line in rustc -vV"@,
        XtaskError::MalformedHostLine => "malformed host line"@,
        XtaskError::TomlSetUsage => "usage: toml-set <file> <key> <value> ..."@,
        XtaskError::UnpairedArguments => "key/value args must come in pairs"@,
        XtaskError::NoMatchingFile(d) => "no matching files found in "@ + d@,
        XtaskError::ManyMatchingFiles(d, n) => "expected 1 matching file in "@ + d@ + ", found "@ + decimal(
            n as nat,
        ),
    }
}

impl XtaskError {
    /// The message the error shows.
    pub fn message(&self) -> (r: String)
        ensures
            r@ == xtask_error_message(*self),
    {
        match self {
            XtaskError::UnknownMobileBridgeTarget(t) => concat("unknown mobile-bridge target: ", t.as_str()),
            XtaskError::UnknownCommand(c) => concat("unknown xtask command: ", c.as_str()),
            XtaskError::NoHostLine => "no host line in rustc -vV".to_owned(),
            XtaskError::MalformedHostLine => "malformed host line".to_owned(),
            XtaskError::TomlSetUsage => "usage: toml-set <file> <key> <value> ...".to_owned(),
            XtaskError::UnpairedArguments => "key/value args must come in pairs".to_owned(),
            XtaskError::NoMatchingFile(d) => concat("no matching files found in ", d.as_str()),
            XtaskError::ManyMatchingFiles(d, n) => {
                let head = concat("expected 1 matching file in ", d.as_str());
                let mut s = concat(head.as_str(), ", found ");
                let digits = decimal_text(*n as u64);
                push_all(&mut s, digits.as_str());
                s
            },
        }
    }
}

/// Some argument asks for help.
pub open spec fn wants_help(args: Seq<String>) -> bool {
    exists|i: int| 0 <= i < args.len() && (args[i]@ == "-h"@ || args[i]@ == "--help"@)
}

/// `r` is what the arguments ask for: help wherever a help flag stands or when there is no
/// argument, else the task the first argument names.
pub open spec fn command_for(args: Seq<String>, r: Result<XtaskCommand, XtaskError>) -> bool {
    if wants_help(args) || args.len() == 0 {
        r matches Ok(XtaskCommand::Help)
    } else if args[0]@ == "prepare-binaries"@ {
        r matches Ok(XtaskCommand::PrepareBinaries)
    } else if args[0]@ == "mobile-bridge"@ {
        if args.len() == 1 || args[1]@ == "ios"@ {
            r matches Ok(XtaskCommand::MobileBridgeIos)
        } else {
            r matches Err(XtaskError::UnknownMobileBridgeTarget(t)) && t@ == args[1]@
        }
    } else if args[0]@ == "supabase-patch"@ {
        r matches Ok(XtaskCommand::SupabasePatch)
    } else if args[0]@ == "toml-set"@ {
        r matches Ok(XtaskCommand::TomlSet(rest)) && rest@ == args.skip(1)
    } else {
        r matches Err(XtaskError::UnknownCommand(c)) && c@ == args[0]@
    }
}

/// The task that the arguments (without the program's name) ask for.
pub fn parse_command(args: Vec<String>) -> (r: Result<XtaskCommand, XtaskError>)
    ensures
        command_for(args@, r),
{
    let mut i: usize = 0;
    while i < args.len()
        invariant
            i <= args@.len(),
            forall|j: int| 0 <= j < i ==> !(args@[j]@ == "-h"@ || args@[j]@ == "--help"@),
        decreases args.len() - i,
    {
        if str_eq(args[i].as_str(), "-h") || str_eq(args[i].as_str(), "--help") {
            return Ok(XtaskCommand::Help);
        }
        i += 1;
    }
    if args.len() == 0 {
        return Ok(XtaskCommand::Help);
    }
    let first = args[0].as_str();
    if str_eq(first, "prepare-binaries") {
        Ok(XtaskCommand::PrepareBinaries)
    } else if str_eq(first, "mobile-bridge") {
        if args.len() == 1 || str_eq(args[1].as_str(), "ios") {
            Ok(XtaskCommand::MobileBridgeIos)
        } else {
            Err(XtaskError::UnknownMobileBridgeTarget(args[1].clone()))
        }
    } else if str_eq(first, "supabase-patch") {
        Ok(XtaskCommand::SupabasePatch)
    } else if str_eq(first, "toml-set") {
        let mut rest = args;
        let tail = rest.split_off(1);
        Ok(XtaskCommand::TomlSet(tail))
    } else {
        Err(XtaskError::UnknownCommand(args[0].clone()))
    }
}

/// `l` with a final carriage return dropped.
pub open spec fn strip_cr(l: Seq<char>) -> Seq<char> {
    if l.len() > 0 && l.last() == '\r' {
        l.drop_last()
    } else {
        l
    }
}

/// The lines of `cur` followed by `s`, where `cur` is a line begun and not yet ended.
pub open spec fn lines_acc(s: Seq<char>, cur: Seq<char>) -> Seq<Seq<char>>
    decreases s.len(),
{
    if s.len() == 0 {
        if cur.len() == 0 {
            Seq::empty()
        } else {
            seq![cur]
        }
    } else if s[0] == '\n' {
        seq![strip_cr(cur)] + lines_acc(s.drop_first(), Seq::empty())
    } else {
        lines_acc(s.drop_first(), cur.push(s[0]))
    }
}

/// The lines of `s` as `str::lines` yields them: split at each line feed, a carriage
/// return just before it dropped, and no empty line after a final line feed.
pub open spec fn lines(s: Seq<char>) -> Seq<Seq<char>> {
    lines_acc(s, Seq::empty())
}

/// The words of `cur` followed by `s`, where `cur` is a word begun and not yet ended.
pub open spec fn words_acc(s: Seq<char>, cur: Seq<char>) -> Seq<Seq<char>>
    decreases s.len(),
{
    if s.len() == 0 {
        if cur.len() == 0 {
            Seq::empty()
        } else {
            seq![cur]
        }
    } else if char_is_whitespace(s[0]) {
        (if cur.len() == 0 {
            Seq::empty()
        } else {
            seq![cur]
        }) + words_acc(s.drop_first(), Seq::empty())
    } else {
        words_acc(s.drop_first(), cur.push(s[0]))
    }
}

/// The words of `s` as `str::split_whitespace` yields them.
pub open spec fn words(s: Seq<char>) -> Seq<Seq<char>> {
    words_acc(s, Seq::empty())
}

/// `s` begins with `p`.
pub open spec fn starts_with(s: Seq<char>, p: Seq<char>) -> bool {
    p.len() <= s.len() && s.take(p.len() as int) == p
}

/// The first of `ls` that begins with `host:`.
pub open spec fn first_host_line(ls: Seq<Seq<char>>) -> Option<Seq<char>>
    decreases ls.len(),
{
    if ls.len() == 0 {
        None
    } else if starts_with(ls[0], "host:"@) {
        Some(ls[0])
    } else {
        first_host_line(ls.drop_first())
    }
}

/// What the host triple is read as from the output of `rustc -vV`: the second word of
/// the first line that begins with `host:`.
pub open spec fn host_triple_result(output: Seq<char>, r: Result<String, XtaskError>) -> bool {
    match first_host_line(lines(output)) {
        None => r matches Err(XtaskError::NoHostLine),
        Some(l) => if words(l).len() > 1 {
            r matches Ok(t) && t@ == words(l)[1]
        } else {
            r matches Err(XtaskError::MalformedHostLine)
        },
    }
}

proof fn lemma_first_host_line_cons(x: Seq<char>, rest: Seq<Seq<char>>)
    ensures
        first_host_line(seq![x] + rest) == if starts_with(x, "host:"@) {
            Some(x)
        } else {
            first_host_line(rest)
        },
{
    assert((seq![x] + rest).drop_first() =~= rest);
    assert((seq![x] + rest)[0] == x);
}

fn has_prefix(v: &[char], p: &[char]) -> (r: bool)
    ensures
        r == starts_with(v@, p@),
{
    if p.len() > v.len() {
        return false;
    }
    let mut i: usize = 0;
    while i < p.len()
        invariant
            i <= p@.len() <= v@.len(),
            forall|j: int| 0 <= j < i ==> v@[j] == p@[j],
        decreases p.len() - i,
    {
        if v[i] != p[i] {
            assert(v@.take(p@.len() as int)[i as int] != p@[i as int]);
            return false;
        }
        i += 1;
    }
    assert(v@.take(p@.len() as int) =~= p@);
    true
}

fn host_line(v: &[char]) -> (r: Option<Vec<char>>)
    ensures
        match r {
            Some(l) => first_host_line(lines(v@)) == Some(l@),
            None => first_host_line(lines(v@)) is None,
        },
{
    let prefix = chars_of("host:");
    let mut cur: Vec<char> = Vec::new();
    let mut i: usize = 0;
    proof {
        assert(v@.skip(0) =~= v@);
        assert(cur@ =~= Seq::<char>::empty());
    }
    while i < v.len()
        invariant
            i <= v@.len(),
            prefix@ == "host:"@,
            first_host_line(lines(v@)) == first_host_line(lines_acc(v@.skip(i as int), cur@)),
        decreases v.len() - i,
    {
        let c = v[i];
        proof {
            assert(v@.skip(i as int).drop_first() =~= v@.skip(i + 1));
            assert(v@.skip(i as int)[0] == c);
        }
        if c == '\n' {
            let ghost before = cur@;
            if cur.len() > 0 && cur[cur.len() - 1] == '\r' {
                cur.pop();
            }
            proof {
                assert(cur@ == strip_cr(before));
                lemma_first_host_line_cons(cur@, lines_acc(v@.skip(i + 1), Seq::empty()));
            }
            if has_prefix(cur.as_slice(), prefix.as_slice()) {
                return Some(cur);
            }
            cur = Vec::new();
        } else {
            cur.push(c);
        }
        i += 1;
    }
    proof {
        assert(v@.skip(i as int).len() == 0);
    }
    if cur.len() > 0 {
        proof {
            lemma_first_host_line_cons(cur@, Seq::empty());
            assert(seq![cur@] + Seq::<Seq<char>>::empty() =~= seq![cur@]);
            assert(first_host_line(Seq::<Seq<char>>::empty()) is None);
        }
        if has_prefix(cur.as_slice(), prefix.as_slice()) {
            return Some(cur);
        }
    }
    None
}

fn second_word(l: &[char]) -> (r: Option<Vec<char>>)
    ensures
        match r {
            Some(w) => words(l@).len() > 1 && w@ == words(l@)[1],
            None => words(l@).len() <= 1,
        },
{
    let mut cur: Vec<char> = Vec::new();
    let mut seen: bool = false;
    let ghost mut done: Seq<Seq<char>> = Seq::empty();
    let mut i: usize = 0;
    proof {
        assert(l@.skip(0) =~= l@);
        assert(cur@ =~= Seq::<char>::empty());
        assert(done + words_acc(l@, cur@) =~= words_acc(l@, cur@));
    }
    while i < l.len()
        invariant
            i <= l@.len(),
            done.len() == (if seen { 1int } else { 0int }),
            words(l@) == done + words_acc(l@.skip(i as int), cur@),
        decreases l.len() - i,
    {
        let c = l[i];
        proof {
            assert(l@.skip(i as int).drop_first() =~= l@.skip(i + 1));
            assert(l@.skip(i as int)[0] == c);
        }
        if is_whitespace(c) {
            if cur.len() > 0 {
                if seen {
                    proof {
                        assert(words(l@) =~= done + seq![cur@] + words_acc(l@.skip(i + 1), Seq::empty()));
                    }
                    return Some(cur);
                }
                proof {
                    assert(words(l@) =~= seq![cur@] + words_acc(l@.skip(i + 1), Seq::empty()));
                    done = seq![cur@];
                }
                seen = true;
                cur = Vec::new();
                proof {
                    assert(cur@ =~= Seq::<char>::empty());
                }
            } else {
                proof {
                    assert(cur@ =~= Seq::<char>::empty());
                    assert(done + words_acc(l@.skip(i as int), cur@) =~= done + words_acc(l@.skip(i + 1), Seq::empty()));
                }
            }
        } else {
            let ghost before = cur@;
            cur.push(c);
            proof {
                assert(words_acc(l@.skip(i as int), before) == words_acc(l@.skip(i + 1), cur@));
            }
        }
        i += 1;
    }
    proof {
        assert(l@.skip(i as int).len() == 0);
    }
    if seen && cur.len() > 0 {
        proof {
            assert(words(l@) =~= done + seq![cur@]);
        }
        Some(cur)
    } else {
        proof {
            if cur.len() == 0 {
                assert(words(l@) =~= done);
            }
        }
        None
    }
}

/// Reads the host triple from the output of `rustc -vV`.
pub fn host_triple(output: &str) -> (r: Result<String, XtaskError>)
    ensures
        host_triple_result(output@, r),
{
    let v = chars_of(output);
    match host_line(v.as_slice()) {
        None => Err(XtaskError::NoHostLine),
        Some(line) => match second_word(line.as_slice()) {
            Some(w) => {
                let n = w.len();
                let t = string_from_chars(w.as_slice(), 0, n);
                proof {
                    assert(w@.subrange(0, n as int) =~= w@);
                }
                Ok(t)
            },
            None => Err(XtaskError::MalformedHostLine),
        },
    }
}

/// The file suffix of executables for `triple`.
pub open spec fn exe_suffix(triple: Seq<char>) -> Seq<char> {
    if contains_seq(triple, "windows"@) {
        ".exe"@
    } else {
        ""@
    }
}

/// The name the native host is built under, and the name the desktop app bundles it
/// under, for the target `triple`.
pub fn sidecar_names(triple: &str) -> (r: (String, String))
    ensures
        r.0@ == "char-chrome-native-host"@ + exe_suffix(triple@),
        r.1@ == "char-chrome-native-host-"@ + triple@ + exe_suffix(triple@),
{
    let ext = if contains_text(triple, "windows") {
        ".exe"
    } else {
        ""
    };
    let built = concat("char-chrome-native-host", ext);
    let mut bundled = concat("char-chrome-native-host-", triple);
    push_all(&mut bundled, ext);
    (built, bundled)
}

/// The one file that matched in `dir`; no match and several matches are errors.
pub fn single_match<T>(matches: Vec<T>, dir: String) -> (r: Result<T, XtaskError>)
    ensures
        matches@.len() == 1 ==> r == Ok::<T, XtaskError>(matches@[0]),
        matches@.len() == 0 ==> (r matches Err(XtaskError::NoMatchingFile(d)) && d == dir),
        matches@.len() > 1 ==> (r matches Err(XtaskError::ManyMatchingFiles(d, n)) && d == dir && n
            == matches@.len()),
{
    let n = matches.len();
    if n == 1 {
        let mut m = matches;
        Ok(m.remove(0))
    } else if n == 0 {
        Err(XtaskError::NoMatchingFile(dir))
    } else {
        Err(XtaskError::ManyMatchingFiles(dir, n))
    }
}

/// The file and the key/value pairs of a `toml-set` invocation: the first argument is the
/// file, the rest alternate key and value.
pub fn toml_set_plan(args: Vec<String>) -> (r: Result<(String, Vec<(String, String)>), XtaskError>)
    ensures
        args@.len() == 0 ==> r matches Err(XtaskError::TomlSetUsage),
        args@.len() > 0 && (args@.len() - 1) % 2 != 0 ==> r matches Err(XtaskError::UnpairedArguments),
        args@.len() > 0 && (args@.len() - 1) % 2 == 0 ==> (r matches Ok((path, pairs)) && path == args@[0]
            && 2 * pairs@.len() + 1 == args@.len() && forall|k: int|
            0 <= k < pairs@.len() ==> #[trigger] pairs@[k] == (args@[1 + 2 * k], args@[2 + 2 * k])),
{
    if args.len() == 0 {
        return Err(XtaskError::TomlSetUsage);
    }
    if (args.len() - 1) % 2 != 0 {
        return Err(XtaskError::UnpairedArguments);
    }
    let path = args[0].clone();
    let mut pairs: Vec<(String, String)> = Vec::new();
    let mut i: usize = 1;
    while i < args.len()
        invariant
            1 <= i <= args@.len(),
            (i - 1) % 2 == 0,
            (args@.len() - 1) % 2 == 0,
            2 * pairs@.len() + 1 == i,
            forall|k: int| 0 <= k < pairs@.len() ==> #[trigger] pairs@[k] == (args@[1 + 2 * k], args@[2 + 2 * k]),
        decreases args.len() - i,
    {
        let key = args[i].clone();
        let value = args[i + 1].clone();
        pairs.push((key, value));
        i += 2;
    }
    Ok((path, pairs))
}

/// The TOML document in which `value`, written inline, is the value of the key `x`.
pub fn inline_value_document(value: &str) -> (r: String)
    ensures
        r@ == "x="@ + value@,
{
    concat("x=", value)
}

/// `key` split at its first dot, as `str::split_once('.')` splits it.
pub open spec fn split_key_result(key: Seq<char>, r: Option<(String, String)>) -> bool {
    match r {
        None => !key.contains('.'),
        Some((head, rest)) => {
            &&& head@.len() < key.len()
            &&& key[head@.len() as int] == '.'
            &&& !head@.contains('.')
            &&& head@ == key.take(head@.len() as int)
            &&& rest@ == key.skip(head@.len() as int + 1)
        },
    }
}

/// Splits a dotted key at its first dot.
pub fn split_key(key: &str) -> (r: Option<(String, String)>)
    ensures
        split_key_result(key@, r),
{
    let v = chars_of(key);
    let n = v.len();
    let mut i: usize = 0;
    while i < n
        invariant
            i <= n == v@.len(),
            v@ == key@,
            forall|j: int| 0 <= j < i ==> v@[j] != '.',
        decreases n - i,
    {
        if v[i] == '.' {
            let head = string_from_chars(v.as_slice(), 0, i);
            let rest = string_from_chars(v.as_slice(), i + 1, n);
            proof {
                assert(head@ =~= key@.take(i as int));
                assert(rest@ =~= key@.skip(i + 1));
                assert(!head@.contains('.')) by {
                    assert forall|j: int| 0 <= j < head@.len() implies head@[j] != '.' by {
                        assert(head@[j] == v@[j]);
                    }
                }
            }
            return Some((head, rest));
        }
        i += 1;
    }
    proof {
        assert forall|j: int| 0 <= j < key@.len() implies key@[j] != '.' by {
            assert(v@[j] != '.');
        }
    }
    None
}

/// Whether a generated file is the bridge's C header.
pub fn is_ffi_header(file_name: &str) -> (r: bool)
    ensures
        r == ends_with(file_name@, "FFI.h"@),
{
    ends_with_text(file_name, "FFI.h")
}

/// The Clang module map that exposes the bridge's C header as `module`.
pub fn module_map(module: &str, header: &str) -> (r: String)
    ensures
        r@ == "module "@ + module@ + " {\n    header \""@ + header@ + "\"\n    export *\n}\n"@,
{
    let mut s = concat("module ", module);
    push_all(&mut s, " {\n    header \"");
    push_all(&mut s, header);
    push_all(&mut s, "\"\n    export *\n}\n");
    s
}

/// A value written into a TOML file.
#[derive(Debug)]
pub enum TomlLiteral {
    Integer(i64),
    Text(String),
    Boolean(bool),
    TextList(Vec<String>),
}

/// One edit of a TOML file: a dotted key set to a value, or a table made to exist.
#[derive(Debug)]
pub enum TomlEdit {
    Assign(String, TomlLiteral),
    EnsureTable(String),
}

/// A TOML value as characters and numbers.
pub enum LiteralView {
    Integer(int),
    Text(Seq<char>),
    Boolean(bool),
    TextList(Seq<Seq<char>>),
}

/// A TOML edit as characters and numbers.
pub enum EditView {
    Assign(Seq<char>, LiteralView),
    EnsureTable(Seq<char>),
}

pub open spec fn literal_view(l: TomlLiteral) -> LiteralView {
    match l {
        TomlLiteral::Integer(i) => LiteralView::Integer(i as int),
        TomlLiteral::Text(t) => LiteralView::Text(t@),
        TomlLiteral::Boolean(b) => LiteralView::Boolean(b),
        TomlLiteral::TextList(v) => LiteralView::TextList(v@.map_values(|t: String| t@)),
    }
}

pub open spec fn edit_view(e: TomlEdit) -> EditView {
    match e {
        TomlEdit::Assign(k, l) => EditView::Assign(k@, literal_view(l)),
        TomlEdit::EnsureTable(k) => EditView::EnsureTable(k@),
    }
}

pub open spec fn credentials_view(c: Option<(String, String)>) -> Option<(Seq<char>, Seq<char>)> {
    match c {
        Some((id, secret)) => Some((id@, secret@)),
        None => None,
    }
}

/// The edits that make the Supabase configuration fit local development: the database
/// version, the site and redirect addresses, the OAuth providers whose client id and
/// secret are given, and the access-token hook.
pub open spec fn supabase_plan(
    github: Option<(Seq<char>, Seq<char>)>,
    google: Option<(Seq<char>, Seq<char>)>,
) -> Seq<EditView> {
    seq![
        EditView::Assign("db.major_version"@, LiteralView::Integer(17)),
        EditView::Assign("auth.site_url"@, LiteralView::Text("http://localhost:3000"@)),
        EditView::Assign(
            "auth.additional_redirect_urls"@,
            LiteralView::TextList(seq!["http://localhost:3000/callback/auth"@]),
        ),
        EditView::EnsureTable("auth.external.github"@),
        EditView::EnsureTable("auth.external.google"@),
        EditView::EnsureTable("auth.hook.custom_access_token"@),
    ] + match github {
        Some((id, secret)) => seq![
            EditView::Assign("auth.external.github.enabled"@, LiteralView::Boolean(true)),
            EditView::Assign("auth.external.github.client_id"@, LiteralView::Text(id)),
            EditView::Assign("auth.external.github.secret"@, LiteralView::Text(secret)),
            EditView::Assign("auth.external.github.redirect_uri"@, LiteralView::Text(""@)),
        ],
        None => Seq::empty(),
    } + match google {
        Some((id, secret)) => seq![
            EditView::Assign("auth.external.google.enabled"@, LiteralView::Boolean(true)),
            EditView::Assign("auth.external.google.client_id"@, LiteralView::Text(id)),
            EditView::Assign("auth.external.google.secret"@, LiteralView::Text(secret)),
            EditView::Assign("auth.external.google.skip_nonce_check"@, LiteralView::Boolean(false)),
        ],
        None => Seq::empty(),
    } + seq![
        EditView::Assign("auth.hook.custom_access_token.enabled"@, LiteralView::Boolean(true)),
        EditView::Assign(
            "auth.hook.custom_access_token.uri"@,
            LiteralView::Text("pg-functions://postgres/public/custom_access_token_hook"@),
        ),
    ]
}

pub open spec fn edits_view(v: Seq<TomlEdit>) -> Seq<EditView> {
    v.map_values(|e: TomlEdit| edit_view(e))
}

fn push_edit(edits: &mut Vec<TomlEdit>, e: TomlEdit)
    ensures
        edits_view(final(edits)@) == edits_view(old(edits)@).push(edit_view(e)),
{
    let ghost before = edits@;
    edits.push(e);
    proof {
        assert(edits_view(edits@) =~= edits_view(before).push(edit_view(e)));
    }
}

fn set_text(key: &str, value: &str) -> (e: TomlEdit)
    ensures
        edit_view(e) == EditView::Assign(key@, LiteralView::Text(value@)),
{
    TomlEdit::Assign(key.to_owned(), TomlLiteral::Text(value.to_owned()))
}

fn set_bool(key: &str, value: bool) -> (e: TomlEdit)
    ensures
        edit_view(e) == EditView::Assign(key@, LiteralView::Boolean(value)),
{
    TomlEdit::Assign(key.to_owned(), TomlLiteral::Boolean(value))
}

/// The edits of the local Supabase configuration, given the GitHub and Google client ids
/// and secrets that are set.
pub fn supabase_edits(github: Option<(String, String)>, google: Option<(String, String)>) -> (r: Vec<
    TomlEdit,
>)
    ensures
        edits_view(r@) == supabase_plan(credentials_view(github), credentials_view(google)),
{
    let mut edits: Vec<TomlEdit> = Vec::new();
    let ghost mut plan: Seq<EditView> = Seq::empty();
    proof {
        assert(edits_view(edits@) =~= plan);
    }
    push_edit(&mut edits, TomlEdit::Assign("db.major_version".to_owned(), TomlLiteral::Integer(17)));
    push_edit(&mut edits, set_text("auth.site_url", "http://localhost:3000"));
    let mut urls: Vec<String> = Vec::new();
    urls.push("http://localhost:3000/callback/auth".to_owned());
    let urls_edit = TomlEdit::Assign("auth.additional_redirect_urls".to_owned(), TomlLiteral::TextList(urls));
    proof {
        assert(urls@.map_values(|t: String| t@) =~= seq!["http://localhost:3000/callback/auth"@]);
    }
    push_edit(&mut edits, urls_edit);
    push_edit(&mut edits, TomlEdit::EnsureTable("auth.external.github".to_owned()));
    push_edit(&mut edits, TomlEdit::EnsureTable("auth.external.google".to_owned()));
    push_edit(&mut edits, TomlEdit::EnsureTable("auth.hook.custom_access_token".to_owned()));
    let ghost head = edits_view(edits@);
    match github {
        Some((id, secret)) => {
            push_edit(&mut edits, set_bool("auth.external.github.enabled", true));
            push_edit(&mut edits, set_text("auth.external.github.client_id", id.as_str()));
            push_edit(&mut edits, set_text("auth.external.github.secret", secret.as_str()));
            push_edit(&mut edits, set_text("auth.external.github.redirect_uri", ""));
        },
        None => {},
    }
    let ghost with_github = edits_view(edits@);
    match google {
        Some((id, secret)) => {
            push_edit(&mut edits, set_bool("auth.external.google.enabled", true));
            push_edit(&mut edits, set_text("auth.external.google.client_id", id.as_str()));
            push_edit(&mut edits, set_text("auth.external.google.secret", secret.as_str()));
            push_edit(&mut edits, set_bool("auth.external.google.skip_nonce_check", false));
        },
        None => {},
    }
    let ghost with_google = edits_view(edits@);
    push_edit(&mut edits, set_bool("auth.hook.custom_access_token.enabled", true));
    push_edit(
        &mut edits,
        set_text("auth.hook.custom_access_token.uri", "pg-functions://postgres/public/custom_access_token_hook"),
    );
    proof {
        let p = supabase_plan(credentials_view(github), credentials_view(google));
        assert(head =~= p.take(6));
        assert(edits_view(edits@) =~= p);
    }
    edits
}

} // verus!

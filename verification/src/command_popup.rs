//! Layout of the slash-command popup: commands grouped under headers, one row selected,
//! and the characters of a command name that a typed query highlights.

use vstd::prelude::*;
use crate::text::{str_eq, chars_of, trim_bounds, trim, ascii_lowercase, ascii_lowercase_chars, subvec, strip_leading, leading_count, utf8_len, char_width, lemma_utf8_len_take, lemma_utf8_len_at_least_len, lemma_utf8_len_concat, lemma_utf8_len_ascii_lowercase, lemma_utf8_len_skip, lemma_utf8_len_is_byte_len};

verus! {

/// A command offered in the popup.
#[derive(Clone, Copy, Debug)]
pub struct CommandEntry {
    pub name: &'static str,
    pub description: &'static str,
    pub group: &'static str,
    pub disabled_reason: Option<&'static str>,
}

/// The groups in the order they are shown.
pub const GROUP_ORDER: [&'static str; 4] = ["Meeting", "Setup", "Models", "App"];

/// The group names, in order.
pub open spec fn group_order() -> Seq<Seq<char>> {
    seq!["Meeting"@, "Setup"@, "Models"@, "App"@]
}

/// One row of the popup.
#[derive(Clone, Copy, Debug)]
pub enum Row {
    Spacer,
    Header(&'static str),
    Command { index: usize, selected: bool },
}

/// A row as plain values: the header text, or the command's index and selection.
pub enum RowModel {
    Spacer,
    Header(Seq<char>),
    Command(int, bool),
}

pub open spec fn row_model(r: Row) -> RowModel {
    match r {
        Row::Spacer => RowModel::Spacer,
        Row::Header(h) => RowModel::Header(h@),
        Row::Command { index, selected } => RowModel::Command(index as int, selected),
    }
}

pub open spec fn rows_model(rows: Seq<Row>) -> Seq<RowModel> {
    rows.map_values(|r: Row| row_model(r))
}

/// Indices of the commands in group `g`, in order.
pub open spec fn members(cmds: Seq<CommandEntry>, g: Seq<char>) -> Seq<int>
    decreases cmds.len(),
{
    if cmds.len() == 0 {
        Seq::empty()
    } else {
        let prev = members(cmds.drop_last(), g);
        if cmds.last().group@ == g {
            prev.push(cmds.len() - 1)
        } else {
            prev
        }
    }
}

/// Command rows for `idx`, where the `j`-th one is selected when `count + j == sel`.
pub open spec fn command_rows_from(idx: Seq<int>, count: int, sel: int) -> Seq<RowModel> {
    Seq::new(idx.len(), |j: int| RowModel::Command(idx[j], count + j == sel))
}

/// The rows for groups `k..`, given whether rows were emitted already and how many
/// commands came before.
pub open spec fn layout_groups(
    cmds: Seq<CommandEntry>,
    sel: int,
    k: int,
    nonempty: bool,
    count: int,
) -> Seq<RowModel>
    decreases 4 - k,
{
    if k >= 4 || k < 0 {
        Seq::empty()
    } else {
        let g = group_order()[k];
        let m = members(cmds, g);
        if m.len() == 0 {
            layout_groups(cmds, sel, k + 1, nonempty, count)
        } else {
            let spacer = if nonempty {
                seq![RowModel::Spacer]
            } else {
                Seq::empty()
            };
            spacer + seq![RowModel::Header(g)] + command_rows_from(m, count, sel)
                + layout_groups(cmds, sel, k + 1, true, count + m.len())
        }
    }
}

/// The rows of the popup for `cmds` with the `sel`-th listed command selected.
pub open spec fn popup_layout(cmds: Seq<CommandEntry>, sel: int) -> Seq<RowModel> {
    layout_groups(cmds, sel, 0, false, 0)
}

proof fn lemma_members_bounds(cmds: Seq<CommandEntry>, g: Seq<char>)
    ensures
        members(cmds, g).len() <= cmds.len(),
        forall|j: int|
            0 <= j < members(cmds, g).len() ==> 0 <= #[trigger] members(cmds, g)[j] < cmds.len()
                && cmds[members(cmds, g)[j]].group@ == g,
    decreases cmds.len(),
{
    if cmds.len() > 0 {
        let d = cmds.drop_last();
        lemma_members_bounds(d, g);
        let m = members(cmds, g);
        let pm = members(d, g);
        assert forall|j: int| 0 <= j < m.len() implies 0 <= #[trigger] m[j] < cmds.len()
            && cmds[m[j]].group@ == g by {
            if j < pm.len() {
                assert(m[j] == pm[j]);
                assert(d[pm[j]] == cmds[pm[j]]);
            }
        }
    }
}

/// Indices of the commands in group `g`, computed.
fn group_members(commands: &[CommandEntry], group: &str) -> (r: Vec<usize>)
    ensures
        r@.len() == members(commands@, group@).len(),
        forall|j: int| 0 <= j < r@.len() ==> r@[j] as int == #[trigger] members(commands@, group@)[j],
{
    let mut r: Vec<usize> = Vec::new();
    let mut i: usize = 0;
    while i < commands.len()
        invariant
            i <= commands@.len(),
            r@.len() == members(commands@.take(i as int), group@).len(),
            forall|j: int|
                0 <= j < r@.len() ==> r@[j] as int == #[trigger] members(commands@.take(i as int), group@)[j],
        decreases commands.len() - i,
    {
        proof {
            assert(commands@.take(i + 1).drop_last() =~= commands@.take(i as int));
            assert(commands@.take(i + 1).last() == commands@[i as int]);
        }
        if str_eq(commands[i].group, group) {
            r.push(i);
        }
        i += 1;
    }
    assert(commands@.take(commands@.len() as int) =~= commands@);
    r
}

/// Lays out the popup rows: for each group in `GROUP_ORDER` that has commands, a spacer
/// (unless it is the first group shown), a header, then its commands in order; the
/// `selected_index`-th command overall is the selected one.
pub fn layout(commands: &[CommandEntry], selected_index: usize) -> (rows: Vec<Row>)
    ensures
        rows_model(rows@) == popup_layout(commands@, selected_index as int),
{
    let mut rows: Vec<Row> = Vec::new();
    let mut cmd_index: usize = 0;
    let mut k: usize = 0;
    assert(GROUP_ORDER@.map_values(|g: &'static str| g@) =~= group_order()) by {
        reveal_strlit("Meeting");
        reveal_strlit("Setup");
        reveal_strlit("Models");
        reveal_strlit("App");
    }
    while k < 4
        invariant
            k <= 4,
            cmd_index <= rows@.len(),
            GROUP_ORDER@.map_values(|g: &'static str| g@) == group_order(),
            rows_model(rows@) + layout_groups(commands@, selected_index as int, k as int, rows@.len() > 0, cmd_index as int)
                == popup_layout(commands@, selected_index as int),
        decreases 4 - k,
    {
        let group = GROUP_ORDER[k];
        proof {
            assert(group@ == GROUP_ORDER@.map_values(|g: &'static str| g@)[k as int]);
        }
        let group_cmds = group_members(commands, group);
        let ghost before = rows_model(rows@);
        let ghost m = members(commands@, group@);
        let ghost c0 = cmd_index as int;
        if group_cmds.len() > 0 {
            if rows.len() > 0 {
                rows.push(Row::Spacer);
            }
            rows.push(Row::Header(group));
            let ghost head = rows_model(rows@);
            proof {
                let spacer = if before.len() > 0 { seq![RowModel::Spacer] } else { Seq::<RowModel>::empty() };
                assert(head =~= before + spacer + seq![RowModel::Header(group@)]);
            }
            let mut t: usize = 0;
            while t < group_cmds.len()
                invariant
                    t <= group_cmds@.len(),
                    group_cmds@.len() == m.len(),
                    forall|j: int| 0 <= j < group_cmds@.len() ==> group_cmds@[j] as int == #[trigger] m[j],
                    cmd_index as int == c0 + t,
                    cmd_index <= rows@.len(),
                    head.len() <= rows@.len(),
                    rows_model(rows@) =~= head + command_rows_from(m, c0, selected_index as int).take(t as int),
                decreases group_cmds.len() - t,
            {
                let ghost old_rows = rows@;
                rows.push(Row::Command { index: group_cmds[t], selected: cmd_index == selected_index });
                let n = rows.len();
                proof {
                    assert(rows@.drop_last() =~= old_rows);
                    assert(command_rows_from(m, c0, selected_index as int).take(t + 1)
                        =~= command_rows_from(m, c0, selected_index as int).take(t as int).push(
                            RowModel::Command(m[t as int], c0 + t == selected_index as int)));
                    assert(rows_model(rows@) =~= rows_model(rows@.drop_last()).push(row_model(rows@.last())));
                }
                cmd_index += 1;
                t += 1;
            }
            proof {
                let sel = selected_index as int;
                assert(command_rows_from(m, c0, sel).take(m.len() as int)
                    =~= command_rows_from(m, c0, sel));
                let spacer = if before.len() > 0 { seq![RowModel::Spacer] } else { Seq::<RowModel>::empty() };
                let rest = layout_groups(commands@, sel, k + 1, true, c0 + m.len());
                assert(layout_groups(commands@, sel, k as int, before.len() > 0, c0)
                    == spacer + seq![RowModel::Header(group@)] + command_rows_from(m, c0, sel) + rest);
                assert(rows_model(rows@) + rest
                    =~= before + (spacer + seq![RowModel::Header(group@)] + command_rows_from(m, c0, sel) + rest));
            }
        }
        k += 1;
    }
    rows
}

/// Number of popup rows, saturated to `u16::MAX`.
pub fn popup_row_count(commands: &[CommandEntry]) -> (r: u16)
    ensures
        r as int == if popup_layout(commands@, 0).len() <= u16::MAX as int {
            popup_layout(commands@, 0).len() as int
        } else {
            u16::MAX as int
        },
{
    let rows = layout(commands, 0);
    proof {
        assert(rows_model(rows@).len() == rows@.len());
    }
    if rows.len() <= 65535 {
        rows.len() as u16
    } else {
        65535
    }
}


/// `q` is a prefix of `c`.
pub open spec fn is_prefix(q: Seq<char>, c: Seq<char>) -> bool {
    q.len() <= c.len() && c.take(q.len() as int) == q
}

/// `q` occurs in `c` at character position `i`.
pub open spec fn occurs_at(c: Seq<char>, q: Seq<char>, i: int) -> bool {
    0 <= i && i + q.len() <= c.len() && c.subrange(i, i + q.len()) == q
}

/// The first character position at or after `i` where `q` occurs in `c`, or -1.
pub open spec fn first_occurrence(c: Seq<char>, q: Seq<char>, i: int) -> int
    decreases c.len() + 1 - i,
{
    if i < 0 || i + q.len() > c.len() {
        -1
    } else if occurs_at(c, q, i) {
        i
    } else {
        first_occurrence(c, q, i + 1)
    }
}

/// The first position at or after `start` holding `ch`, or -1.
pub open spec fn next_index(c: Seq<char>, ch: char, start: int) -> int
    decreases c.len() - start,
{
    if start < 0 || start >= c.len() {
        -1
    } else if c[start] == ch {
        start
    } else {
        next_index(c, ch, start + 1)
    }
}

/// The leftmost positions, from `start` on, at which the characters of `q` occur in `c` in order.
pub open spec fn leftmost_embedding(c: Seq<char>, q: Seq<char>, start: int) -> Option<Seq<int>>
    decreases q.len(),
{
    if q.len() == 0 {
        Some(Seq::empty())
    } else {
        let j = next_index(c, q[0], start);
        if j < 0 {
            None
        } else {
            match leftmost_embedding(c, q.drop_first(), j + 1) {
                Some(rest) => Some(seq![j] + rest),
                None => None,
            }
        }
    }
}

/// A sequence of `usize` as integers.
pub open spec fn as_ints(v: Seq<usize>) -> Seq<int> {
    v.map_values(|x: usize| x as int)
}

/// The integers `lo..hi`.
pub open spec fn int_range(lo: int, hi: int) -> Seq<int> {
    Seq::new((hi - lo) as nat, |i: int| lo + i)
}

/// The characters of a command name that a query highlights, by position: none for a blank
/// query; the prefix when the query starts the name; the matched span when the query occurs
/// in it (its start counted in bytes, its width in characters); otherwise the leftmost
/// in-order match of the query's characters, or none.
pub open spec fn highlight_spec(query: Seq<char>, command: Seq<char>) -> Seq<int> {
    let q = ascii_lowercase(trim(query));
    let c = ascii_lowercase(strip_leading(command, '/'));
    if q.len() == 0 {
        Seq::empty()
    } else if is_prefix(q, c) {
        int_range(0, q.len() as int)
    } else if first_occurrence(c, q, 0) >= 0 {
        let b = utf8_len(c.take(first_occurrence(c, q, 0))) as int;
        int_range(b, b + q.len())
    } else {
        match leftmost_embedding(c, q, 0) {
            Some(r) => r,
            None => Seq::empty(),
        }
    }
}

fn range_vec(lo: usize, hi: usize) -> (r: Vec<usize>)
    requires
        lo <= hi,
    ensures
        as_ints(r@) == int_range(lo as int, hi as int),
{
    let mut r: Vec<usize> = Vec::new();
    let mut i = lo;
    while i < hi
        invariant
            lo <= i <= hi,
            as_ints(r@) == int_range(lo as int, i as int),
        decreases hi - i,
    {
        let ghost prev = r@;
        r.push(i);
        assert(r@.drop_last() =~= prev);
        assert(as_ints(prev).len() == prev.len());
        assert(prev.len() == i - lo);
        assert forall|k: int| 0 <= k < r@.len() implies as_ints(r@)[k]
            == int_range(lo as int, i + 1)[k] by {
            if k < prev.len() {
                assert(r@[k] == prev[k]);
                assert(as_ints(prev)[k] == int_range(lo as int, i as int)[k]);
            } else {
                assert(r@[k] == i);
            }
        }
        assert(as_ints(r@) =~= int_range(lo as int, i + 1));
        i += 1;
    }
    r
}

fn prefix_matches(q: &[char], c: &[char]) -> (b: bool)
    ensures
        b == is_prefix(q@, c@),
{
    if q.len() > c.len() {
        return false;
    }
    let mut i: usize = 0;
    while i < q.len()
        invariant
            i <= q@.len() <= c@.len(),
            c@.take(i as int) == q@.take(i as int),
        decreases q.len() - i,
    {
        if q[i] != c[i] {
            assert(c@.take(q@.len() as int)[i as int] == c@[i as int]);
            return false;
        }
        assert(c@.take(i + 1) =~= q@.take(i + 1));
        i += 1;
    }
    assert(q@.take(q@.len() as int) =~= q@);
    true
}

fn matches_at(c: &[char], q: &[char], i: usize) -> (b: bool)
    requires
        i + q@.len() <= c@.len(),
    ensures
        b == occurs_at(c@, q@, i as int),
{
    let cl = c.len();
    let mut j: usize = 0;
    while j < q.len()
        invariant
            j <= q@.len(),
            cl == c@.len(),
            i + q@.len() <= c@.len(),
            c@.subrange(i as int, i + j) == q@.take(j as int),
        decreases q.len() - j,
    {
        assert(i + j < cl);
        if c[i + j] != q[j] {
            assert(c@.subrange(i as int, i + q@.len())[j as int] == c@[i + j]);
            return false;
        }
        assert(c@.subrange(i as int, i + j + 1) =~= q@.take(j + 1));
        j += 1;
    }
    assert(q@.take(q@.len() as int) =~= q@);
    true
}

/// `q` occurs somewhere in `c`.
pub open spec fn contains_seq(c: Seq<char>, q: Seq<char>) -> bool {
    exists|i: int| occurs_at(c, q, i)
}

/// Whether `q` occurs in `c`, as `str::contains` answers it.
pub fn contains_text(c: &str, q: &str) -> (r: bool)
    ensures
        r == contains_seq(c@, q@),
{
    let cv = chars_of(c);
    let qv = chars_of(q);
    if qv.len() > cv.len() {
        return false;
    }
    let last = cv.len() - qv.len();
    let mut i: usize = 0;
    while i <= last
        invariant
            qv@ == q@,
            cv@ == c@,
            last == cv@.len() - qv@.len(),
            forall|j: int| 0 <= j < i ==> !occurs_at(c@, q@, j),
        decreases last + 1 - i,
    {
        if matches_at(cv.as_slice(), qv.as_slice(), i) {
            return true;
        }
        if i == last {
            return false;
        }
        i += 1;
    }
    false
}

proof fn lemma_first_occurrence_bounds(c: Seq<char>, q: Seq<char>, i: int)
    ensures
        first_occurrence(c, q, i) >= 0 ==> i <= first_occurrence(c, q, i) && occurs_at(c, q, first_occurrence(c, q, i)),
    decreases c.len() + 1 - i,
{
    if !(i < 0 || i + q.len() > c.len()) && !occurs_at(c, q, i) {
        lemma_first_occurrence_bounds(c, q, i + 1);
    }
}

fn find_occurrence(c: &[char], q: &[char]) -> (r: Option<usize>)
    requires
        q@.len() > 0,
    ensures
        match r {
            Some(i) => i as int == first_occurrence(c@, q@, 0),
            None => first_occurrence(c@, q@, 0) < 0,
        },
{
    if q.len() > c.len() {
        return None;
    }
    let cl = c.len();
    let last = cl - q.len();
    let mut i: usize = 0;
    while i <= last
        invariant
            0 < q@.len() <= c@.len(),
            cl == c@.len(),
            last == c@.len() - q@.len(),
            first_occurrence(c@, q@, 0) == first_occurrence(c@, q@, i as int),
        decreases last + 1 - i,
    {
        if matches_at(c, q, i) {
            return Some(i);
        }
        i += 1;
    }
    None
}

/// Byte length of `v[..k]`.
fn prefix_byte_len(v: &[char], k: usize) -> (b: usize)
    requires
        k <= v@.len(),
        utf8_len(v@) <= usize::MAX,
    ensures
        b as int == utf8_len(v@.take(k as int)),
{
    let mut b: usize = 0;
    let mut i: usize = 0;
    assert(v@.take(0) =~= Seq::<char>::empty());
    while i < k
        invariant
            i <= k <= v@.len(),
            utf8_len(v@) <= usize::MAX,
            b as int == utf8_len(v@.take(i as int)),
        decreases k - i,
    {
        proof {
            lemma_utf8_len_take(v@, i as int);
            assert(v@ =~= v@.take(i + 1) + v@.skip(i + 1));
            lemma_utf8_len_concat(v@.take(i + 1), v@.skip(i + 1));
        }
        b = b + char_width(v[i]);
        i += 1;
    }
    b
}

proof fn lemma_next_index(c: Seq<char>, ch: char, start: int)
    requires
        0 <= start,
    ensures
        next_index(c, ch, start) >= 0 ==> start <= next_index(c, ch, start) < c.len() && c[next_index(c, ch, start)] == ch,
    decreases c.len() - start,
{
    if start < c.len() && c[start] != ch {
        lemma_next_index(c, ch, start + 1);
    }
}

proof fn lemma_embedding_bounds(c: Seq<char>, q: Seq<char>, start: int)
    requires
        0 <= start,
    ensures
        leftmost_embedding(c, q, start) matches Some(r) ==> r.len() == q.len() && forall|k: int|
            0 <= k < r.len() ==> start <= #[trigger] r[k] < c.len(),
    decreases q.len(),
{
    if q.len() > 0 {
        let j = next_index(c, q[0], start);
        lemma_next_index(c, q[0], start);
        if j >= 0 {
            lemma_embedding_bounds(c, q.drop_first(), j + 1);
            if let Some(rest) = leftmost_embedding(c, q.drop_first(), j + 1) {
                let r = seq![j] + rest;
                assert forall|k: int| 0 <= k < r.len() implies start <= #[trigger] r[k] < c.len() by {
                    if k > 0 {
                        assert(r[k] == rest[k - 1]);
                    }
                }
            }
        }
    }
}

/// The leftmost in-order embedding of `q` (non-empty) in `c`, or empty.
fn greedy_positions(c: &[char], q: &[char]) -> (r: Vec<usize>)
    requires
        q@.len() > 0,
    ensures
        as_ints(r@) == match leftmost_embedding(c@, q@, 0) {
            Some(e) => e,
            None => Seq::empty(),
        },
{
    let mut indices: Vec<usize> = Vec::new();
    let mut qi: usize = 0;
    let mut i: usize = 0;
    proof {
        assert(q@.skip(0) =~= q@);
        lemma_embedding_bounds(c@, q@, 0);
    }
    while i < c.len()
        invariant
            i <= c@.len(),
            qi < q@.len(),
            indices@.len() == qi,
            leftmost_embedding(c@, q@, 0) == match leftmost_embedding(c@, q@.skip(qi as int), i as int) {
                Some(rest) => Some(as_ints(indices@) + rest),
                None => None::<Seq<int>>,
            },
        decreases c.len() - i,
    {
        let ghost qs = q@.skip(qi as int);
        proof {
            assert(qs[0] == q@[qi as int]);
            assert(qs.drop_first() =~= q@.skip(qi + 1));
        }
        if c[i] == q[qi] {
            let ghost prev_idx = indices@;
            indices.push(i);
            proof {
                assert(next_index(c@, qs[0], i as int) == i);
                assert(as_ints(indices@) =~= as_ints(prev_idx).push(i as int)) by {
                    assert(indices@.drop_last() =~= prev_idx);
                }
            }
            if qi + 1 == q.len() {
                proof {
                    assert(q@.skip(qi + 1).len() == 0);
                    assert(seq![i as int] + Seq::<int>::empty() =~= seq![i as int]);
                    assert(as_ints(prev_idx) + seq![i as int]
                        =~= as_ints(indices@));
                }
                return indices;
            }
            proof {
                let prev = as_ints(prev_idx);
                match leftmost_embedding(c@, q@.skip(qi + 1), i + 1) {
                    Some(rest) => {
                        assert(prev + (seq![i as int] + rest) =~= as_ints(indices@) + rest);
                    },
                    None => {},
                }
            }
            qi += 1;
        } else {
            proof {
                assert(next_index(c@, qs[0], i as int) == next_index(c@, qs[0], i + 1));
            }
        }
        i += 1;
    }
    proof {
        assert(next_index(c@, q@.skip(qi as int)[0], i as int) == -1);
    }
    Vec::new()
}

/// Positions of the characters of `command` (after its leading slashes) that `query` highlights.
pub fn highlight_indices(query: &str, command: &str) -> (r: Vec<usize>)
    requires
        utf8_len(command@) <= usize::MAX,
    ensures
        as_ints(r@) == highlight_spec(query@, command@),
{
    let qv = chars_of(query);
    let (lo, hi) = trim_bounds(qv.as_slice());
    let qt = subvec(qv.as_slice(), lo, hi);
    let q = ascii_lowercase_chars(qt.as_slice());
    let cv = chars_of(command);
    let n = leading_count(cv.as_slice(), '/');
    let cs = subvec(cv.as_slice(), n, cv.len());
    let c = ascii_lowercase_chars(cs.as_slice());
    proof {
        assert(cv@.subrange(n as int, cv@.len() as int) =~= cv@.skip(n as int));
        lemma_utf8_len_ascii_lowercase(cs@);
        lemma_utf8_len_ascii_lowercase(qt@);
        lemma_utf8_len_skip(command@, n as int);
    }
    if q.len() == 0 {
        return Vec::new();
    }
    if prefix_matches(q.as_slice(), c.as_slice()) {
        return range_vec(0, q.len());
    }
    match find_occurrence(c.as_slice(), q.as_slice()) {
        Some(start) => {
            proof {
                lemma_first_occurrence_bounds(c@, q@, 0);
                assert(c@ =~= c@.take(start as int) + c@.skip(start as int));
                lemma_utf8_len_concat(c@.take(start as int), c@.skip(start as int));
                lemma_utf8_len_at_least_len(c@.skip(start as int));
            }
            let b = prefix_byte_len(c.as_slice(), start);
            range_vec(b, b + q.len())
        },
        None => greedy_positions(c.as_slice(), q.as_slice()),
    }
}


/// Number of command rows.
pub open spec fn cmd_count(rows: Seq<RowModel>) -> nat
    decreases rows.len(),
{
    if rows.len() == 0 {
        0
    } else {
        cmd_count(rows.drop_last()) + if rows.last() is Command {
            1nat
        } else {
            0nat
        }
    }
}

/// Each command row is selected exactly when `count` plus the command rows before it is `sel`.
pub open spec fn selection_consistent(rows: Seq<RowModel>, count: int, sel: int) -> bool {
    forall|p: int|
        0 <= p < rows.len() ==> match #[trigger] rows[p] {
            RowModel::Command(_, s) => s == (count + cmd_count(rows.take(p)) == sel),
            _ => true,
        }
}

proof fn lemma_cmd_count_concat(a: Seq<RowModel>, b: Seq<RowModel>)
    ensures
        cmd_count(a + b) == cmd_count(a) + cmd_count(b),
    decreases b.len(),
{
    if b.len() == 0 {
        assert(a + b =~= a);
    } else {
        assert((a + b).drop_last() =~= a + b.drop_last());
        assert((a + b).last() == b.last());
        lemma_cmd_count_concat(a, b.drop_last());
    }
}

proof fn lemma_cmd_count_take_mono(rows: Seq<RowModel>, i: int, j: int)
    requires
        0 <= i <= j <= rows.len(),
    ensures
        cmd_count(rows.take(i)) <= cmd_count(rows.take(j)),
        i < j && rows[i] is Command ==> cmd_count(rows.take(i)) < cmd_count(rows.take(j)),
    decreases j - i,
{
    if i < j {
        lemma_cmd_count_take_mono(rows, i, j - 1);
        assert(rows.take(j).drop_last() =~= rows.take(j - 1));
        assert(rows.take(j).last() == rows[j - 1]);
        if i == j - 1 {
        } else {
            lemma_cmd_count_take_mono(rows, i, i + 1);
            lemma_cmd_count_take_mono(rows, i + 1, j);
            assert(rows.take(i + 1).drop_last() =~= rows.take(i));
            assert(rows.take(i + 1).last() == rows[i]);
        }
    }
}

proof fn lemma_selection_concat(a: Seq<RowModel>, b: Seq<RowModel>, count: int, sel: int)
    requires
        selection_consistent(a, count, sel),
        selection_consistent(b, count + cmd_count(a), sel),
    ensures
        selection_consistent(a + b, count, sel),
{
    let ab = a + b;
    assert forall|p: int| 0 <= p < ab.len() implies match #[trigger] ab[p] {
        RowModel::Command(_, s) => s == (count + cmd_count(ab.take(p)) == sel),
        _ => true,
    } by {
        if p < a.len() {
            assert(ab.take(p) =~= a.take(p));
            assert(ab[p] == a[p]);
        } else {
            assert(ab.take(p) =~= a + b.take(p - a.len()));
            lemma_cmd_count_concat(a, b.take(p - a.len()));
            assert(ab[p] == b[p - a.len()]);
        }
    }
}

proof fn lemma_plain_rows(rows: Seq<RowModel>, count: int, sel: int)
    requires
        forall|p: int| 0 <= p < rows.len() ==> !((#[trigger] rows[p]) is Command),
    ensures
        selection_consistent(rows, count, sel),
        cmd_count(rows) == 0,
    decreases rows.len(),
{
    if rows.len() > 0 {
        let d = rows.drop_last();
        assert forall|p: int| 0 <= p < d.len() implies !((#[trigger] d[p]) is Command) by {
            assert(d[p] == rows[p]);
        }
        lemma_plain_rows(d, count, sel);
        assert(rows.last() == rows[rows.len() - 1]);
    }
}

proof fn lemma_command_rows_consistent(m: Seq<int>, count: int, sel: int, n: int)
    requires
        0 <= n <= m.len(),
    ensures
        selection_consistent(command_rows_from(m, count, sel).take(n), count, sel),
        cmd_count(command_rows_from(m, count, sel).take(n)) == n,
    decreases n,
{
    let rows = command_rows_from(m, count, sel);
    if n > 0 {
        lemma_command_rows_consistent(m, count, sel, n - 1);
        let t = rows.take(n);
        assert(t.drop_last() =~= rows.take(n - 1));
        assert(t.last() == rows[n - 1]);
        assert forall|p: int| 0 <= p < t.len() implies match #[trigger] t[p] {
            RowModel::Command(_, s) => s == (count + cmd_count(t.take(p)) == sel),
            _ => true,
        } by {
            if p < n - 1 {
                assert(t.take(p) =~= rows.take(n - 1).take(p));
                assert(t[p] == rows.take(n - 1)[p]);
            } else {
                assert(t.take(p) =~= rows.take(n - 1));
            }
        }
    } else {
        assert(rows.take(0) =~= Seq::<RowModel>::empty());
    }
}

proof fn lemma_layout_groups_consistent(
    cmds: Seq<CommandEntry>,
    sel: int,
    k: int,
    nonempty: bool,
    count: int,
)
    ensures
        selection_consistent(layout_groups(cmds, sel, k, nonempty, count), count, sel),
    decreases 4 - k,
{
    if 0 <= k < 4 {
        let g = group_order()[k];
        let m = members(cmds, g);
        if m.len() == 0 {
            lemma_layout_groups_consistent(cmds, sel, k + 1, nonempty, count);
        } else {
            let spacer = if nonempty {
                seq![RowModel::Spacer]
            } else {
                Seq::<RowModel>::empty()
            };
            let head = spacer + seq![RowModel::Header(g)];
            assert forall|p: int| 0 <= p < head.len() implies !((#[trigger] head[p]) is Command) by {}
            lemma_plain_rows(head, count, sel);
            let cr = command_rows_from(m, count, sel);
            lemma_command_rows_consistent(m, count, sel, m.len() as int);
            assert(cr.take(m.len() as int) =~= cr);
            lemma_selection_concat(head, cr, count, sel);
            lemma_cmd_count_concat(head, cr);
            lemma_layout_groups_consistent(cmds, sel, k + 1, true, count + m.len());
            lemma_selection_concat(head + cr, layout_groups(cmds, sel, k + 1, true, count + m.len()), count, sel);
        }
    }
}

/// At most one row of the popup is selected.
pub proof fn law_popup_selects_at_most_one(cmds: Seq<CommandEntry>, sel: int, p: int, q: int)
    requires
        0 <= p < popup_layout(cmds, sel).len(),
        0 <= q < popup_layout(cmds, sel).len(),
        popup_layout(cmds, sel)[p] matches RowModel::Command(_, true),
        popup_layout(cmds, sel)[q] matches RowModel::Command(_, true),
    ensures
        p == q,
{
    let rows = popup_layout(cmds, sel);
    lemma_layout_groups_consistent(cmds, sel, 0, false, 0);
    assert(match rows[p] {
        RowModel::Command(_, s) => s == (cmd_count(rows.take(p)) == sel),
        _ => true,
    });
    assert(match rows[q] {
        RowModel::Command(_, s) => s == (cmd_count(rows.take(q)) == sel),
        _ => true,
    });
    if p < q {
        lemma_cmd_count_take_mono(rows, p, q);
    } else if q < p {
        lemma_cmd_count_take_mono(rows, q, p);
    }
}


/// The popup widget's data: the commands, the selected one and the typed query.
pub struct CommandPopup<'a> {
    commands: &'a [CommandEntry],
    selected_index: usize,
    query: &'a str,
}

impl<'a> CommandPopup<'a> {
    pub fn new(commands: &'a [CommandEntry], selected_index: usize, query: &'a str) -> (r: Self)
        ensures
            r.commands() == commands,
            r.selected_index() == selected_index,
            r.query() == query,
    {
        CommandPopup { commands, selected_index, query }
    }

    pub closed spec fn commands(&self) -> &'a [CommandEntry] {
        self.commands
    }

    pub closed spec fn selected_index(&self) -> usize {
        self.selected_index
    }

    pub closed spec fn query(&self) -> &'a str {
        self.query
    }

    /// The query whose matches are highlighted.
    pub fn query_text(&self) -> (r: &'a str)
        ensures
            r == self.query(),
    {
        self.query
    }

    /// The rows to draw.
    pub fn rows(&self) -> (rows: Vec<Row>)
        ensures
            rows_model(rows@) == popup_layout(self.commands()@, self.selected_index() as int),
    {
        layout(self.commands, self.selected_index)
    }
}

/// A command row that is selected.
pub open spec fn is_selected_row(r: Row) -> bool {
    r matches Row::Command { selected: true, .. }
}

/// Position of the first selected command row, if any.
pub fn selected_row(rows: &[Row]) -> (r: Option<usize>)
    ensures
        match r {
            Some(p) => p < rows@.len() && is_selected_row(rows@[p as int])
                && forall|t: int| 0 <= t < p ==> !is_selected_row(#[trigger] rows@[t]),
            None => forall|t: int| 0 <= t < rows@.len() ==> !is_selected_row(#[trigger] rows@[t]),
        },
{
    let mut i: usize = 0;
    while i < rows.len()
        invariant
            i <= rows@.len(),
            forall|t: int| 0 <= t < i ==> !is_selected_row(#[trigger] rows@[t]),
        decreases rows.len() - i,
    {
        if let Row::Command { selected: true, .. } = rows[i] {
            return Some(i);
        }
        i += 1;
    }
    None
}

} // verus!

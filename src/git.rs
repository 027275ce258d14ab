//! Repository state: the current branch from the content of HEAD, and a
//! summary of porcelain v1 status output with its branch header.
use vstd::prelude::*;

use crate::text::{
    char_end, chars_of, find, find_str, has_prefix, lemma_char_end_bounds, parse_u32,
    parse_u32_spec, pieces_from, scan_to, slice, starts_with, string_of, trim, trim_chars,
    trim_end_char, trim_end_char_chars,
};

verus! {

/// Failure while inspecting a repository.
#[derive(Debug)]
pub enum Error {
    /// No repository metadata directory was found.
    NotRepository,
    /// Any other failure, with its diagnostic.
    Other(String),
}

/// The branch that HEAD points at, or the commit it holds when detached.
#[derive(Debug, Clone, PartialEq, Eq)]
pub enum BranchRef {
    Named(String),
    /// Abbreviated commit id.
    Detached(String),
}

pub ghost enum BranchRefView {
    Named(Seq<char>),
    Detached(Seq<char>),
}

impl View for BranchRef {
    type V = BranchRefView;

    open spec fn view(&self) -> BranchRefView {
        match self {
            BranchRef::Named(n) => BranchRefView::Named(n@),
            BranchRef::Detached(c) => BranchRefView::Detached(c@),
        }
    }
}

/// Where the repository lives and what is checked out.
#[derive(Debug, Clone, PartialEq, Eq)]
pub struct RepoInfo {
    pub root: String,
    pub branch: BranchRef,
}

/// The tracking branch, and how far the local branch is ahead of and behind it.
#[derive(Debug, Clone, PartialEq, Eq, Default)]
pub struct Upstream {
    pub name: Option<String>,
    pub ahead: u32,
    pub behind: u32,
}

pub ghost struct UpstreamView {
    pub name: Option<Seq<char>>,
    pub ahead: u32,
    pub behind: u32,
}

impl View for Upstream {
    type V = UpstreamView;

    open spec fn view(&self) -> UpstreamView {
        UpstreamView {
            name: match self.name {
                Some(n) => Some(n@),
                None => None,
            },
            ahead: self.ahead,
            behind: self.behind,
        }
    }
}

/// Numbers of changed files by column, and of untracked files.
#[derive(Debug, Clone, PartialEq, Eq, Default)]
pub struct StatusCounts {
    pub staged: u32,
    pub unstaged: u32,
    pub untracked: u32,
}

#[derive(Debug, Clone, PartialEq, Eq, Default)]
pub struct StatusSummary {
    pub upstream: Upstream,
    pub counts: StatusCounts,
}

// ---------------------------------------------------------------- HEAD

/// The branch that a HEAD file's content names: a symbolic reference
/// `ref: <target>` gives the target without `refs/heads/`; anything else is a
/// commit id, of which the first seven characters are kept.
pub open spec fn head_branch(content: Seq<char>) -> BranchRefView {
    let t = trim(content);
    if starts_with(t, "ref: "@) {
        let target = t.skip("ref: "@.len() as int);
        if starts_with(target, "refs/heads/"@) {
            BranchRefView::Named(target.skip("refs/heads/"@.len() as int))
        } else {
            BranchRefView::Named(target)
        }
    } else if t.len() <= 7 {
        BranchRefView::Detached(t)
    } else {
        BranchRefView::Detached(t.take(7))
    }
}

/// Resolves the content of a HEAD file to the branch it names.
pub fn branch_from_head(content: &str) -> (r: BranchRef)
    ensures
        r@ == head_branch(content@),
{
    let t = trim_chars(&chars_of(content));
    if has_prefix(&t, "ref: ") {
        let target = slice(&t, "ref: ".unicode_len(), t.len());
        if has_prefix(&target, "refs/heads/") {
            let name = slice(&target, "refs/heads/".unicode_len(), target.len());
            BranchRef::Named(string_of(name.as_slice()))
        } else {
            BranchRef::Named(string_of(target.as_slice()))
        }
    } else if t.len() <= 7 {
        BranchRef::Detached(string_of(t.as_slice()))
    } else {
        let short = slice(&t, 0, 7);
        BranchRef::Detached(string_of(short.as_slice()))
    }
}

impl BranchRef {
    /// The branch name, or `DETACHED@` followed by the commit id.
    pub fn to_string(&self) -> (r: String)
        ensures
            r@ == match self@ {
                BranchRefView::Named(n) => n,
                BranchRefView::Detached(c) => "DETACHED@"@ + c,
            },
    {
        match self {
            BranchRef::Named(n) => n.clone(),
            BranchRef::Detached(c) => String::from_str("DETACHED@").concat(c.as_str()),
        }
    }
}

// ---------------------------------------------------------------- status text

/// The lines of `s` from position `i` on, as `str::lines` yields them: split
/// at `\n`, a `\r` before the `\n` dropped, and no empty line after a final
/// `\n`.
pub open spec fn lines_from(s: Seq<char>, i: int) -> Seq<Seq<char>>
    decreases s.len() + 1 - i,
{
    let e = char_end(s, i, '\n');
    if i < 0 || i >= s.len() || e < i || e > s.len() {
        seq![]
    } else {
        let stop = if e < s.len() && e > i && s[e - 1] == '\r' {
            e - 1
        } else {
            e
        };
        seq![s.subrange(i, stop)] + lines_from(s, e + 1)
    }
}

pub open spec fn lines_of(s: Seq<char>) -> Seq<Seq<char>> {
    lines_from(s, 0)
}

/// The branch header line: `## ` and the branch and tracking information.
pub open spec fn is_header(l: Seq<char>) -> bool {
    starts_with(l, "## "@)
}

pub open spec fn is_untracked(l: Seq<char>) -> bool {
    !is_header(l) && starts_with(l, "?? "@)
}

/// A two-column status code followed by a path.
pub open spec fn is_entry(l: Seq<char>) -> bool {
    !is_header(l) && !is_untracked(l) && l.len() >= 3
}

pub open spec fn is_staged(l: Seq<char>) -> bool {
    is_entry(l) && l[0] != ' '
}

pub open spec fn is_unstaged(l: Seq<char>) -> bool {
    is_entry(l) && l[1] != ' '
}

/// How many of `ls` satisfy `f`.
pub open spec fn count_matching(ls: Seq<Seq<char>>, f: spec_fn(Seq<char>) -> bool) -> nat
    decreases ls.len(),
{
    if ls.len() == 0 {
        0
    } else {
        (if f(ls[0]) {
            1nat
        } else {
            0nat
        }) + count_matching(ls.drop_first(), f)
    }
}

pub open spec fn staged_count(ls: Seq<Seq<char>>) -> nat {
    count_matching(ls, |l: Seq<char>| is_staged(l))
}

pub open spec fn unstaged_count(ls: Seq<Seq<char>>) -> nat {
    count_matching(ls, |l: Seq<char>| is_unstaged(l))
}

pub open spec fn untracked_count(ls: Seq<Seq<char>>) -> nat {
    count_matching(ls, |l: Seq<char>| is_untracked(l))
}

/// What follows `## ` on the last header line of `ls`.
pub open spec fn last_header(ls: Seq<Seq<char>>) -> Option<Seq<char>>
    decreases ls.len(),
{
    if ls.len() == 0 {
        None
    } else {
        match last_header(ls.drop_first()) {
            Some(h) => Some(h),
            None => if is_header(ls[0]) {
                Some(ls[0].skip("## "@.len() as int))
            } else {
                None
            },
        }
    }
}

/// The branch and tracking part of a header: all before ` [`.
pub open spec fn tracking_part(h: Seq<char>) -> Seq<char> {
    match find(h, " ["@) {
        Some(p) => h.take(p),
        None => h,
    }
}

/// The upstream named after `...` in the tracking part, trimmed.
pub open spec fn header_name(h: Seq<char>) -> Option<Seq<char>> {
    let t = tracking_part(h);
    match find(t, "..."@) {
        Some(p) => Some(trim(t.skip(p + "..."@.len()))),
        None => None,
    }
}

/// The bracketed list of a header: what follows its first `[`, without the
/// closing `]`s; only where the header holds ` [`.
pub open spec fn header_bracket(h: Seq<char>) -> Option<Seq<char>> {
    match find(h, " ["@) {
        Some(_) => match find(h, "["@) {
            Some(q) => Some(trim_end_char(h.skip(q + "["@.len()), ']')),
            None => None,
        },
        None => None,
    }
}

/// The count that an item `<label><number>` of the bracketed list gives: the
/// number, or zero where it does not parse.
pub open spec fn item_count(item: Seq<char>, label: Seq<char>) -> Option<u32> {
    let t = trim(item);
    if starts_with(t, label) {
        Some(
            match parse_u32_spec(t.skip(label.len() as int)) {
                Some(n) => n,
                None => 0,
            },
        )
    } else {
        None
    }
}

/// The count that the last item with `label` gives.
pub open spec fn last_count(items: Seq<Seq<char>>, label: Seq<char>) -> Option<u32>
    decreases items.len(),
{
    if items.len() == 0 {
        None
    } else {
        match last_count(items.drop_first(), label) {
            Some(n) => Some(n),
            None => item_count(items[0], label),
        }
    }
}

pub open spec fn header_count(h: Seq<char>, label: Seq<char>) -> u32 {
    match header_bracket(h) {
        Some(b) => match last_count(pieces_from(b, 0, ','), label) {
            Some(n) => n,
            None => 0,
        },
        None => 0,
    }
}

/// The upstream that a header describes.
pub open spec fn header_upstream(h: Seq<char>) -> UpstreamView {
    UpstreamView {
        name: header_name(h),
        ahead: header_count(h, "ahead "@),
        behind: header_count(h, "behind "@),
    }
}

/// The upstream of a whole status text: that of its last header, or none.
pub open spec fn status_upstream(ls: Seq<Seq<char>>) -> UpstreamView {
    match last_header(ls) {
        Some(h) => header_upstream(h),
        None => UpstreamView { name: None, ahead: 0, behind: 0 },
    }
}

proof fn lemma_count_le_len(ls: Seq<Seq<char>>, f: spec_fn(Seq<char>) -> bool)
    ensures
        count_matching(ls, f) <= ls.len(),
    decreases ls.len(),
{
    if ls.len() > 0 {
        lemma_count_le_len(ls.drop_first(), f);
    }
}

proof fn lemma_lines_len(s: Seq<char>, i: int)
    requires
        0 <= i,
    ensures
        lines_from(s, i).len() <= if i < s.len() {
            s.len() - i
        } else {
            0
        },
    decreases s.len() + 1 - i,
{
    if i < s.len() {
        lemma_char_end_bounds(s, i, '\n');
        lemma_lines_len(s, char_end(s, i, '\n') + 1);
    }
}

/// The count of `label` that a bracketed list gives, the last item winning.
fn bracket_count(b: &Vec<char>, label: &str) -> (r: u32)
    requires
        b.len() < usize::MAX,
    ensures
        r == match last_count(pieces_from(b@, 0, ','), label@) {
            Some(n) => n,
            None => 0,
        },
{
    let n = label.unicode_len();
    let mut count: u32 = 0;
    let mut i: usize = 0;
    while i <= b.len()
        invariant
            n == label@.len(),
            b.len() < usize::MAX,
            i <= b.len() + 1,
            (match last_count(pieces_from(b@, i as int, ','), label@) {
                Some(v) => v,
                None => count,
            }) == (match last_count(pieces_from(b@, 0, ','), label@) {
                Some(v) => v,
                None => 0,
            }),
        decreases b.len() + 1 - i,
    {
        let e = scan_to(b, i, ',');
        let item = trim_chars(&slice(b, i, e));
        let ghost items = pieces_from(b@, i as int, ',');
        assert(items.drop_first() =~= pieces_from(b@, e + 1, ','));
        if has_prefix(&item, label) {
            count = match parse_u32(&slice(&item, n, item.len())) {
                Some(v) => v,
                None => 0,
            };
        }
        i = e + 1;
    }
    count
}

/// The upstream that a header line describes, from what follows `## `.
fn upstream_from_header(h: &Vec<char>) -> (r: Upstream)
    requires
        h.len() < usize::MAX,
    ensures
        r@ == header_upstream(h@),
{
    let bracket_at = find_str(h, " [");
    let tracking = match bracket_at {
        Some(p) => slice(h, 0, p),
        None => slice(h, 0, h.len()),
    };
    assert(h@.subrange(0, h@.len() as int) =~= h@);
    let name = match find_str(&tracking, "...") {
        Some(p) => {
            let rest = slice(&tracking, p + "...".unicode_len(), tracking.len());
            Some(string_of(trim_chars(&rest).as_slice()))
        },
        None => None,
    };
    let mut ahead: u32 = 0;
    let mut behind: u32 = 0;
    if bracket_at.is_some() {
        if let Some(q) = find_str(h, "[") {
            let b = trim_end_char_chars(&slice(h, q + "[".unicode_len(), h.len()), ']');
            ahead = bracket_count(&b, "ahead ");
            behind = bracket_count(&b, "behind ");
        }
    }
    Upstream { name, ahead, behind }
}

/// Summarises porcelain v1 status output with its branch header: the
/// upstream of the last `## ` line, one staged change for each entry whose
/// first column is not blank, one unstaged change for each whose second column
/// is not blank, and one untracked file for each `?? ` line. Other lines, and
/// entries shorter than three characters, change nothing.
pub fn parse_porcelain_v1_b(input: &str) -> (r: StatusSummary)
    requires
        input@.len() < u32::MAX,
    ensures
        r.upstream@ == status_upstream(lines_of(input@)),
        r.counts.staged == staged_count(lines_of(input@)),
        r.counts.unstaged == unstaged_count(lines_of(input@)),
        r.counts.untracked == untracked_count(lines_of(input@)),
{
    let cs = chars_of(input);
    let ghost all = lines_of(cs@);
    let mut staged: u32 = 0;
    let mut unstaged: u32 = 0;
    let mut untracked: u32 = 0;
    let mut header: Option<Vec<char>> = None;
    let mut i: usize = 0;
    proof {
        lemma_lines_len(cs@, 0);
        lemma_count_le_len(all, |l: Seq<char>| is_staged(l));
        lemma_count_le_len(all, |l: Seq<char>| is_unstaged(l));
        lemma_count_le_len(all, |l: Seq<char>| is_untracked(l));
    }
    while i < cs.len()
        invariant
            cs@ == input@,
            all == lines_of(cs@),
            cs.len() < u32::MAX,
            header matches Some(h) ==> h@.len() <= cs.len(),
            staged_count(all) <= u32::MAX,
            unstaged_count(all) <= u32::MAX,
            untracked_count(all) <= u32::MAX,
            i <= cs.len() + 1,
            staged + staged_count(lines_from(cs@, i as int)) == staged_count(all),
            unstaged + unstaged_count(lines_from(cs@, i as int)) == unstaged_count(all),
            untracked + untracked_count(lines_from(cs@, i as int)) == untracked_count(all),
            (match last_header(lines_from(cs@, i as int)) {
                Some(h) => Some(h),
                None => match header {
                    Some(h) => Some(h@),
                    None => None,
                },
            }) == last_header(all),
        decreases cs.len() + 1 - i,
    {
        let e = scan_to(&cs, i, '\n');
        let stop = if e < cs.len() && e > i && cs[e - 1] == '\r' {
            e - 1
        } else {
            e
        };
        let line = slice(&cs, i, stop);
        let ghost rest = lines_from(cs@, i as int);
        assert(rest[0] == line@);
        assert(rest.drop_first() =~= lines_from(cs@, e + 1));
        if has_prefix(&line, "## ") {
            header = Some(slice(&line, "## ".unicode_len(), line.len()));
        } else if has_prefix(&line, "?? ") {
            untracked = untracked + 1;
        } else if line.len() >= 3 {
            if line[0] != ' ' {
                staged = staged + 1;
            }
            if line[1] != ' ' {
                unstaged = unstaged + 1;
            }
        }
        i = e + 1;
    }
    let upstream = match header {
        Some(h) => upstream_from_header(&h),
        None => Upstream { name: None, ahead: 0, behind: 0 },
    };
    StatusSummary { upstream, counts: StatusCounts { staged, unstaged, untracked } }
}

proof fn lemma_count_remove(ls: Seq<Seq<char>>, j: int, f: spec_fn(Seq<char>) -> bool)
    requires
        0 <= j < ls.len(),
    ensures
        count_matching(ls, f) == (if f(ls[j]) {
            1nat
        } else {
            0nat
        }) + count_matching(ls.remove(j), f),
    decreases j,
{
    if j == 0 {
        assert(ls.remove(0) =~= ls.drop_first());
    } else {
        lemma_count_remove(ls.drop_first(), j - 1, f);
        assert(ls.remove(j).drop_first() =~= ls.drop_first().remove(j - 1));
        assert(ls.remove(j)[0] == ls[0]);
    }
}

proof fn lemma_count_multiset(a: Seq<Seq<char>>, b: Seq<Seq<char>>, f: spec_fn(Seq<char>) -> bool)
    requires
        a.to_multiset() == b.to_multiset(),
    ensures
        count_matching(a, f) == count_matching(b, f),
    decreases a.len(),
{
    broadcast use vstd::seq_lib::to_multiset_len, vstd::seq_lib::to_multiset_contains,
        vstd::seq_lib::to_multiset_remove;

    if a.len() == 0 {
        assert(b.to_multiset().len() == 0);
    } else {
        let x = a[0];
        assert(a.contains(x));
        assert(a.to_multiset().count(x) > 0);
        assert(b.contains(x));
        let j = choose|j: int| 0 <= j < b.len() && b[j] == x;
        assert(a.remove(0) =~= a.drop_first());
        assert(a.remove(0).to_multiset() == a.to_multiset().remove(a[0]));
        assert(b.remove(j).to_multiset() == b.to_multiset().remove(b[j]));
        lemma_count_multiset(a.drop_first(), b.remove(j), f);
        lemma_count_remove(b, j, f);
    }
}

/// The counts of a status text do not depend on the order of its lines: two
/// line sequences that hold the same lines, each as often, give the same
/// staged, unstaged and untracked counts.
pub proof fn lemma_counts_ignore_line_order(a: Seq<Seq<char>>, b: Seq<Seq<char>>)
    requires
        a.to_multiset() == b.to_multiset(),
    ensures
        staged_count(a) == staged_count(b),
        unstaged_count(a) == unstaged_count(b),
        untracked_count(a) == untracked_count(b),
{
    lemma_count_multiset(a, b, |l: Seq<char>| is_staged(l));
    lemma_count_multiset(a, b, |l: Seq<char>| is_unstaged(l));
    lemma_count_multiset(a, b, |l: Seq<char>| is_untracked(l));
}

/// A status text without a header line has no upstream, and is neither ahead
/// of nor behind one.
pub proof fn lemma_no_header_no_upstream(s: Seq<char>)
    requires
        forall|k: int| 0 <= k < lines_of(s).len() ==> !is_header(#[trigger] lines_of(s)[k]),
    ensures
        status_upstream(lines_of(s)) == (UpstreamView { name: None, ahead: 0, behind: 0 }),
{
    lemma_no_header(lines_of(s));
}

proof fn lemma_no_header(ls: Seq<Seq<char>>)
    requires
        forall|k: int| 0 <= k < ls.len() ==> !is_header(#[trigger] ls[k]),
    ensures
        last_header(ls) is None,
    decreases ls.len(),
{
    if ls.len() > 0 {
        assert(!is_header(ls[0]));
        assert forall|k: int| 0 <= k < ls.drop_first().len() implies !is_header(
            #[trigger] ls.drop_first()[k],
        ) by {
            assert(ls.drop_first()[k] == ls[k + 1]);
        }
        lemma_no_header(ls.drop_first());
    }
}

// ---------------------------------------------------------------- ahead/behind

pub open spec fn is_field_sep(c: char) -> bool {
    c == ' ' || c == '\t'
}

/// First position at or after `i` that holds a space or a tab, or the length.
pub open spec fn field_end(s: Seq<char>, i: int) -> int
    decreases s.len() - i,
{
    if i < 0 || i >= s.len() {
        s.len() as int
    } else if is_field_sep(s[i]) {
        i
    } else {
        field_end(s, i + 1)
    }
}

pub open spec fn count_or_zero(s: Seq<char>) -> u32 {
    match parse_u32_spec(s) {
        Some(n) => n,
        None => 0,
    }
}

/// The two counts of `rev-list --left-right --count` output: the first and
/// second space- or tab-separated fields of the trimmed text, each zero where
/// it is missing or is no `u32`.
pub open spec fn rev_list_counts(out: Seq<char>) -> (u32, u32) {
    let t = trim(out);
    let e = field_end(t, 0);
    let first = count_or_zero(t.take(e));
    let second = if e < t.len() {
        count_or_zero(t.subrange(e + 1, field_end(t, e + 1)))
    } else {
        0
    };
    (first, second)
}

fn scan_field(v: &Vec<char>, i: usize) -> (e: usize)
    requires
        i <= v.len(),
    ensures
        e == field_end(v@, i as int),
        i <= e <= v.len(),
{
    let mut e: usize = i;
    while e < v.len() && v[e] != ' ' && v[e] != '\t'
        invariant
            i <= e <= v.len(),
            field_end(v@, i as int) == field_end(v@, e as int),
        decreases v.len() - e,
    {
        e = e + 1;
    }
    e
}

fn count_or_zero_of(v: &Vec<char>) -> (r: u32)
    ensures
        r == count_or_zero(v@),
{
    match parse_u32(v) {
        Some(n) => n,
        None => 0,
    }
}

/// Reads the ahead and behind counts from the output of a left-right commit
/// count; what does not parse counts as zero.
pub fn parse_ahead_behind(out: &str) -> (r: (u32, u32))
    ensures
        r == rev_list_counts(out@),
{
    let t = trim_chars(&chars_of(out));
    let e = scan_field(&t, 0);
    let first = count_or_zero_of(&slice(&t, 0, e));
    let second = if e < t.len() {
        let e2 = scan_field(&t, e + 1);
        count_or_zero_of(&slice(&t, e + 1, e2))
    } else {
        0
    };
    (first, second)
}

impl StatusSummary {
    /// Replaces the ahead and behind counts by precise ones, where an upstream
    /// is configured; without one the summary stays as it is.
    pub fn apply_ahead_behind(&mut self, ahead: u32, behind: u32)
        ensures
            final(self).counts == old(self).counts,
            final(self).upstream.name == old(self).upstream.name,
            old(self).upstream.name is Some ==> final(self).upstream.ahead == ahead
                && final(self).upstream.behind == behind,
            old(self).upstream.name is None ==> *final(self) == *old(self),
    {
        if self.upstream.name.is_some() {
            self.upstream.ahead = ahead;
            self.upstream.behind = behind;
        }
    }
}

} // verus!

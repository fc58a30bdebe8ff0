//! What the report reads from a markdown task file besides its task: the
//! metadata entries of its fenced block, its relationships, a brief
//! description from its `## Overview` section, and how many other tasks it
//! depends on.
use vstd::prelude::*;
use crate::common::{Task, TaskSource};
use crate::parser::{find_metadata_block, lower_of, metadata_block, strip_quotes, strip_quotes_exec};
use crate::text::views;
use crate::text::{chars_of, contains, contains_exec, copy_range, eq_str, find, find_exec, find_from, find_from_exec, line_spans, line_spans_exec, lines_exec, lines_of, push_all, push_str, string_of, trim, trim_chars, trim_range, lemma_line_spans_bounds};

verus! {

/// The key and value of one metadata line: trimmed, the value unquoted;
/// blank lines, `#` comments, lines without `:` and empty keys or values give none.
pub open spec fn meta_entry(line: Seq<char>) -> Option<(Seq<char>, Seq<char>)> {
    let l = trim(line);
    if l.len() == 0 || l[0] == '#' {
        None
    } else {
        match find(l, ":"@) {
            Some(c) => {
                let key = trim(l.subrange(0, c));
                let value = strip_quotes(trim(l.subrange(c + 1, l.len() as int)));
                if key.len() > 0 && value.len() > 0 {
                    Some((key, value))
                } else {
                    None
                }
            },
            None => None,
        }
    }
}

/// The entries of lines `a..k`, in order.
pub open spec fn meta_upto(lines: Seq<Seq<char>>, a: int, k: int) -> Seq<(Seq<char>, Seq<char>)>
    decreases k - a,
{
    if k <= a {
        seq![]
    } else {
        let before = meta_upto(lines, a, k - 1);
        match meta_entry(lines[k - 1]) {
            Some(e) => before.push(e),
            None => before,
        }
    }
}

/// The metadata entries of a markdown text: those of its fenced block.
pub open spec fn task_metadata(content: Seq<char>) -> Seq<(Seq<char>, Seq<char>)> {
    let lines = lines_of(content);
    match metadata_block(lines) {
        Some((a, b)) => meta_upto(lines, a, b),
        None => seq![],
    }
}

pub open spec fn pair_views(v: Seq<(String, String)>) -> Seq<(Seq<char>, Seq<char>)> {
    v.map_values(|p: (String, String)| (p.0@, p.1@))
}

pub open spec fn pair_char_views(v: Seq<(Vec<char>, Vec<char>)>) -> Seq<(Seq<char>, Seq<char>)> {
    v.map_values(|p: (Vec<char>, Vec<char>)| (p.0@, p.1@))
}

fn meta_entry_exec(line: &Vec<char>) -> (r: Option<(Vec<char>, Vec<char>)>)
    ensures
        match r {
            Some(e) => meta_entry(line@) == Some((e.0@, e.1@)),
            None => meta_entry(line@) is None,
        },
{
    let l = trim_chars(line);
    if l.len() == 0 || l[0] == '#' {
        return None;
    }
    let colon = chars_of(":");
    match find_exec(&l, &colon) {
        Some(c) => {
            proof {
                crate::text::lemma_find_bounds(l@, colon@, 0);
                reveal_strlit(":");
            }
            let (k0, k1) = trim_range(&l, 0, c);
            let key = copy_range(&l, k0, k1);
            let (v0, v1) = trim_range(&l, c + 1, l.len());
            let raw = copy_range(&l, v0, v1);
            let value = strip_quotes_exec(&raw);
            if key.len() > 0 && value.len() > 0 {
                Some((key, value))
            } else {
                None
            }
        },
        None => None,
    }
}

fn metadata_of_lines(lines: &Vec<Vec<char>>) -> (r: Vec<(Vec<char>, Vec<char>)>)
    ensures
        pair_char_views(r@) == match metadata_block(views(lines@)) {
            Some((a, b)) => meta_upto(views(lines@), a, b),
            None => seq![],
        },
{
    let ghost ls = views(lines@);
    let mut out: Vec<(Vec<char>, Vec<char>)> = Vec::new();
    match find_metadata_block(lines) {
        Some((a, b)) => {
            let mut k: usize = a;
            while k < b
                invariant
                    a <= k <= b < lines@.len(),
                    ls == views(lines@),
                    pair_char_views(out@) == meta_upto(ls, a as int, k as int),
                decreases b - k,
            {
                let ghost before = out@;
                match meta_entry_exec(&lines[k]) {
                    Some(e) => {
                        out.push(e);
                        assert(pair_char_views(out@) =~= pair_char_views(before).push(
                            (out@[out@.len() - 1].0@, out@[out@.len() - 1].1@),
                        ));
                    },
                    None => {},
                }
                k = k + 1;
                assert(ls[k - 1] == lines@[k - 1]@);
            }
            out
        },
        None => {
            assert(pair_char_views(out@) =~= Seq::<(Seq<char>, Seq<char>)>::empty());
            out
        },
    }
}

pub(crate) fn metadata_chars(content: &Vec<char>) -> (r: Vec<(Vec<char>, Vec<char>)>)
    ensures
        pair_char_views(r@) == task_metadata(content@),
{
    let lines = lines_exec(content);
    assert(views(lines@) =~= lines_of(content@));
    metadata_of_lines(&lines)
}

/// The metadata entries of a markdown task file's content, in order.
pub fn extract_task_metadata(content: &str) -> (r: Vec<(String, String)>)
    ensures
        pair_views(r@) == task_metadata(content@),
{
    let cv = chars_of(content);
    let entries = metadata_chars(&cv);
    let mut out: Vec<(String, String)> = Vec::new();
    let mut k: usize = 0;
    while k < entries.len()
        invariant
            k <= entries@.len(),
            out@.len() == k,
            forall|m: int|
                0 <= m < k ==> (#[trigger] out@[m]).0@ == entries@[m].0@ && out@[m].1@
                    == entries@[m].1@,
        decreases entries@.len() - k,
    {
        let key = string_of(&entries[k].0);
        let value = string_of(&entries[k].1);
        out.push((key, value));
        k = k + 1;
    }
    assert(pair_views(out@) =~= pair_char_views(entries@));
    out
}

/// The text of a markdown task file's metadata block, if it has one.
pub fn extract_yaml_metadata_block(content: &str) -> (r: Option<String>)
    ensures
        match r {
            Some(t) => crate::parser::metadata_block_text(content@) == Some(t@),
            None => crate::parser::metadata_block_text(content@) is None,
        },
{
    crate::parser::extract_yaml_metadata(content)
}

/// The text with every leading and trailing `[` or `]` removed.
pub open spec fn strip_brackets(s: Seq<char>) -> Seq<char> {
    strip_brackets_back(strip_brackets_front(s))
}

pub open spec fn is_bracket(c: char) -> bool {
    c == '[' || c == ']'
}

pub open spec fn strip_brackets_front(s: Seq<char>) -> Seq<char>
    decreases s.len(),
{
    if s.len() > 0 && is_bracket(s[0]) {
        strip_brackets_front(s.drop_first())
    } else {
        s
    }
}

pub open spec fn strip_brackets_back(s: Seq<char>) -> Seq<char>
    decreases s.len(),
{
    if s.len() > 0 && is_bracket(s.last()) {
        strip_brackets_back(s.drop_last())
    } else {
        s
    }
}

/// The pieces of `s` between commas, with `cur` the piece begun so far.
pub open spec fn comma_pieces(s: Seq<char>, cur: Seq<char>) -> Seq<Seq<char>>
    decreases s.len(),
{
    if s.len() == 0 {
        seq![cur]
    } else if s[0] == ',' {
        seq![cur] + comma_pieces(s.drop_first(), seq![])
    } else {
        comma_pieces(s.drop_first(), cur.push(s[0]))
    }
}

/// The non-empty pieces, each trimmed and unquoted.
pub open spec fn clean_items(ps: Seq<Seq<char>>) -> Seq<Seq<char>>
    decreases ps.len(),
{
    if ps.len() == 0 {
        seq![]
    } else {
        let x = strip_quotes(trim(ps.last()));
        let before = clean_items(ps.drop_last());
        if x.len() > 0 {
            before.push(x)
        } else {
            before
        }
    }
}

/// The items of a YAML-style inline list such as `["a", "b"]`.
pub open spec fn yaml_items(value: Seq<char>) -> Seq<Seq<char>> {
    clean_items(comma_pieces(strip_brackets(value), seq![]))
}

/// The items joined by `sep`.
pub open spec fn join_with(items: Seq<Seq<char>>, sep: Seq<char>) -> Seq<char>
    decreases items.len(),
{
    if items.len() == 0 {
        seq![]
    } else if items.len() == 1 {
        items[0]
    } else {
        join_with(items.drop_last(), sep) + sep + items.last()
    }
}

fn strip_brackets_exec(s: &Vec<char>) -> (r: Vec<char>)
    ensures
        r@ == strip_brackets(s@),
{
    let mut i: usize = 0;
    let n = s.len();
    assert(s@.subrange(0, n as int) == s@);
    while i < n && (s[i] == '[' || s[i] == ']')
        invariant
            i <= n == s@.len(),
            strip_brackets_front(s@) == strip_brackets_front(s@.subrange(i as int, n as int)),
        decreases n - i,
    {
        assert(s@.subrange(i as int, n as int).drop_first() == s@.subrange(i + 1, n as int));
        i = i + 1;
    }
    let mut j: usize = n;
    while j > i && (s[j - 1] == '[' || s[j - 1] == ']')
        invariant
            i <= j <= n == s@.len(),
            strip_brackets(s@) == strip_brackets_back(s@.subrange(i as int, j as int)),
        decreases j,
    {
        assert(s@.subrange(i as int, j as int).drop_last() == s@.subrange(i as int, j - 1));
        j = j - 1;
    }
    copy_range(s, i, j)
}

fn comma_pieces_exec(s: &Vec<char>) -> (r: Vec<Vec<char>>)
    ensures
        views(r@) == comma_pieces(s@, seq![]),
{
    let mut out: Vec<Vec<char>> = Vec::new();
    let mut cur: Vec<char> = Vec::new();
    let mut i: usize = 0;
    let n = s.len();
    assert(s@.subrange(0, n as int) == s@);
    while i < n
        invariant
            i <= n == s@.len(),
            views(out@) + comma_pieces(s@.subrange(i as int, n as int), cur@) == comma_pieces(
                s@,
                seq![],
            ),
        decreases n - i,
    {
        let ghost rest = s@.subrange(i as int, n as int);
        assert(rest.drop_first() == s@.subrange(i + 1, n as int));
        if s[i] == ',' {
            let ghost before = out@;
            let done = cur;
            out.push(done);
            assert(views(out@) =~= views(before).push(done@));
            cur = Vec::new();
            assert(views(out@) + comma_pieces(s@.subrange(i + 1, n as int), cur@) =~= views(before)
                + comma_pieces(rest, done@));
        } else {
            cur.push(s[i]);
        }
        i = i + 1;
    }
    let ghost before = out@;
    out.push(cur);
    assert(views(out@) =~= views(before).push(out@[out@.len() - 1]@));
    out
}

fn clean_items_exec(ps: &Vec<Vec<char>>) -> (r: Vec<Vec<char>>)
    ensures
        views(r@) == clean_items(views(ps@)),
{
    let mut out: Vec<Vec<char>> = Vec::new();
    let mut k: usize = 0;
    while k < ps.len()
        invariant
            k <= ps@.len(),
            views(out@) == clean_items(views(ps@).subrange(0, k as int)),
        decreases ps@.len() - k,
    {
        let ghost before = out@;
        assert(views(ps@).subrange(0, k + 1).drop_last() == views(ps@).subrange(0, k as int));
        let t = trim_chars(&ps[k]);
        let x = strip_quotes_exec(&t);
        if x.len() > 0 {
            out.push(x);
            assert(views(out@) =~= views(before).push(out@[out@.len() - 1]@));
        }
        k = k + 1;
    }
    assert(views(ps@).subrange(0, ps@.len() as int) == views(ps@));
    out
}

pub(crate) fn yaml_items_exec(value: &Vec<char>) -> (r: Vec<Vec<char>>)
    ensures
        views(r@) == yaml_items(value@),
{
    let stripped = strip_brackets_exec(value);
    let pieces = comma_pieces_exec(&stripped);
    clean_items_exec(&pieces)
}

pub(crate) fn join_exec(items: &Vec<Vec<char>>, sep: &str) -> (r: Vec<char>)
    ensures
        r@ == join_with(views(items@), sep@),
{
    let mut out: Vec<char> = Vec::new();
    let mut k: usize = 0;
    while k < items.len()
        invariant
            k <= items@.len(),
            out@ == join_with(views(items@).subrange(0, k as int), sep@),
        decreases items@.len() - k,
    {
        assert(views(items@).subrange(0, k + 1).drop_last() == views(items@).subrange(0, k as int));
        if k > 0 {
            push_str(&mut out, sep);
        }
        push_all(&mut out, &items[k]);
        k = k + 1;
    }
    assert(views(items@).subrange(0, items@.len() as int) == views(items@));
    out
}

/// A YAML-style inline list shown as its items separated by `, `.
pub fn clean_yaml_array(value: &str) -> (r: String)
    ensures
        r@ == join_with(yaml_items(value@), ", "@),
{
    let v = chars_of(value);
    let items = yaml_items_exec(&v);
    let joined = join_exec(&items, ", ");
    string_of(&joined)
}

/// The parent task that a task file inherits from the directory just below
/// `todo/` it lies in, for the directories that have one.
pub open spec fn folder_parent(p: Seq<char>) -> Option<Seq<char>> {
    match find(p, "todo/"@) {
        Some(pos) => {
            let rel = p.subrange(pos + "todo/"@.len(), p.len() as int);
            match find(rel, "/"@) {
                Some(sep) => {
                    let top = rel.subrange(0, sep);
                    if top == "010-core-functionality"@ {
                        Some("Implement Core Auto-Todo Functionality"@)
                    } else if top == "050-advanced-features"@ {
                        Some("Implement Advanced Features"@)
                    } else if top == "060-documentation"@ {
                        Some("Implement Documentation Tasks"@)
                    } else {
                        None
                    }
                },
                None => None,
            }
        },
        None => None,
    }
}

fn folder_parent_exec(p: &Vec<char>) -> (r: Option<&'static str>)
    ensures
        match r {
            Some(t) => folder_parent(p@) == Some(t@),
            None => folder_parent(p@) is None,
        },
{
    let marker = chars_of("todo/");
    let n = p.len();
    match find_exec(p, &marker) {
        Some(pos) => {
            proof {
                crate::text::lemma_find_bounds(p@, marker@, 0);
            }
            let rel = copy_range(p, pos + marker.len(), p.len());
            let slash = chars_of("/");
            match find_exec(&rel, &slash) {
                Some(sep) => {
                    proof {
                        crate::text::lemma_find_bounds(rel@, slash@, 0);
                    }
                    let top = copy_range(&rel, 0, sep);
                    if eq_str(&top, "010-core-functionality") {
                        Some("Implement Core Auto-Todo Functionality")
                    } else if eq_str(&top, "050-advanced-features") {
                        Some("Implement Advanced Features")
                    } else if eq_str(&top, "060-documentation") {
                        Some("Implement Documentation Tasks")
                    } else {
                        None
                    }
                },
                None => None,
            }
        },
        None => None,
    }
}

/// The parent task implied by a task file's place under `todo/`, as a list of one title.
pub fn parse_folder_dependencies(file_path: &str) -> (r: Option<Vec<String>>)
    ensures
        match r {
            Some(v) => folder_parent(file_path@) matches Some(t) && v@.len() == 1 && v@[0]@ == t,
            None => folder_parent(file_path@) is None,
        },
{
    let p = chars_of(file_path);
    match folder_parent_exec(&p) {
        Some(t) => {
            let mut v: Vec<String> = Vec::new();
            v.push(string_of(&chars_of(t)));
            Some(v)
        },
        None => None,
    }
}

/// `s` with each space replaced by `-`.
pub open spec fn slug(s: Seq<char>) -> Seq<char> {
    s.map_values(|c: char| if c == ' ' { '-' } else { c })
}

/// A dependency item names a task: it equals the task's lowercase title with
/// spaces as dashes, or contains the title, or its lowercase form occurs in
/// the lowercase title.
pub open spec fn dep_matches(d: Seq<char>, title: Seq<char>) -> bool {
    trim(d) == slug(lower_of(title)) || contains(d, title) || contains(lower_of(title), lower_of(trim(d)))
}

/// Some title among the first `n` matches the item.
pub open spec fn any_title_matches(d: Seq<char>, titles: Seq<Seq<char>>, n: int) -> bool
    decreases n,
{
    if n <= 0 {
        false
    } else {
        any_title_matches(d, titles, n - 1) || dep_matches(d, titles[n - 1])
    }
}

/// How many of the items match some title.
pub open spec fn matched_items(items: Seq<Seq<char>>, titles: Seq<Seq<char>>) -> int
    decreases items.len(),
{
    if items.len() == 0 {
        0
    } else {
        matched_items(items.drop_last(), titles) + if any_title_matches(items.last(), titles, titles.len() as int) {
            1int
        } else {
            0int
        }
    }
}

/// A `dependencies` entry with a non-empty, non-`[]` value.
pub open spec fn is_dependency_entry(e: (Seq<char>, Seq<char>)) -> bool {
    e.0 == "dependencies"@ && e.1.len() > 0 && e.1 != "[]"@
}

/// The matched items of the `dependencies` entries among `entries`.
pub open spec fn explicit_dependencies(entries: Seq<(Seq<char>, Seq<char>)>, titles: Seq<Seq<char>>) -> int
    decreases entries.len(),
{
    if entries.len() == 0 {
        0
    } else {
        explicit_dependencies(entries.drop_last(), titles) + if is_dependency_entry(entries.last()) {
            matched_items(yaml_items(entries.last().1), titles)
        } else {
            0
        }
    }
}

pub open spec fn titles_of(tasks: Seq<Task>) -> Seq<Seq<char>> {
    tasks.map_values(|t: Task| t.title@)
}

/// The content of the file behind task `k`, where one was read.
pub open spec fn content_at(files: Seq<TaskFileInfo>, k: int) -> Option<Seq<char>> {
    if 0 <= k < files.len() {
        match files[k].content {
            Some(c) => Some(c@),
            None => None,
        }
    } else {
        None
    }
}

/// The foundation level of task `k`: one for a parent implied by its folder,
/// plus, for a markdown task whose file was read, the items of its
/// `dependencies` entries that name a task of the list. Sums stop at `usize::MAX`.
pub open spec fn foundation_level(tasks: Seq<Task>, files: Seq<TaskFileInfo>, k: int) -> usize {
    let t = tasks[k];
    let folder: usize = if folder_parent(t.location.file_path@) is Some {
        1
    } else {
        0
    };
    let explicit: int = if t.source == TaskSource::Markdown && content_at(files, k) is Some {
        explicit_dependencies(task_metadata(content_at(files, k)->0), titles_of(tasks))
    } else {
        0
    };
    if explicit >= usize::MAX {
        usize::MAX
    } else {
        folder.saturating_add(explicit as usize)
    }
}

/// What was read from the file behind a task: its content, and its creation
/// and modification times in seconds since the Unix epoch, each where known.
#[derive(Debug, Clone)]
pub struct TaskFileInfo {
    pub content: Option<String>,
    pub created: Option<i64>,
    pub modified: Option<i64>,
}

impl TaskFileInfo {
    /// Nothing known of the file.
    pub fn unknown() -> (r: Self)
        ensures
            r.content is None,
            r.created is None,
            r.modified is None,
    {
        TaskFileInfo { content: None, created: None, modified: None }
    }
}

fn slug_exec(s: &Vec<char>) -> (r: Vec<char>)
    ensures
        r@ == slug(s@),
{
    let mut out: Vec<char> = Vec::new();
    let mut i: usize = 0;
    while i < s.len()
        invariant
            i <= s@.len(),
            out@ == slug(s@.subrange(0, i as int)),
        decreases s@.len() - i,
    {
        let c = s[i];
        out.push(if c == ' ' { '-' } else { c });
        i = i + 1;
        assert(slug(s@.subrange(0, i as int)) =~= slug(s@.subrange(0, i - 1 as int)).push(
            if c == ' ' { '-' } else { c },
        ));
    }
    assert(s@.subrange(0, s@.len() as int) == s@);
    out
}

fn dep_matches_exec(d: &Vec<char>, title: &Vec<char>) -> (r: bool)
    ensures
        r == dep_matches(d@, title@),
{
    let td = trim_chars(d);
    let lt = crate::parser::lowercase_chars(title);
    let s = slug_exec(&lt);
    if td.len() == s.len() && crate::text::starts_with_exec(&td, &s) {
        assert(td@.subrange(0, td@.len() as int) == td@);
        return true;
    }
    proof {
        if td@ == s@ {
            assert(td@.subrange(0, s@.len() as int) == td@);
        }
    }
    if contains_exec(d, title) {
        return true;
    }
    let ld = crate::parser::lowercase_chars(&td);
    contains_exec(&lt, &ld)
}

fn any_title_matches_exec(d: &Vec<char>, titles: &Vec<Vec<char>>) -> (r: bool)
    ensures
        r == any_title_matches(d@, views(titles@), titles@.len() as int),
{
    let mut k: usize = 0;
    while k < titles.len()
        invariant
            k <= titles@.len(),
            !any_title_matches(d@, views(titles@), k as int),
        decreases titles@.len() - k,
    {
        if dep_matches_exec(d, &titles[k]) {
            proof {
                lemma_any_title_monotone(d@, views(titles@), k + 1, titles@.len() as int);
            }
            return true;
        }
        k = k + 1;
    }
    false
}

proof fn lemma_any_title_monotone(d: Seq<char>, titles: Seq<Seq<char>>, m: int, n: int)
    requires
        m <= n,
        any_title_matches(d, titles, m),
    ensures
        any_title_matches(d, titles, n),
    decreases n - m,
{
    if m < n {
        lemma_any_title_monotone(d, titles, m, n - 1);
    }
}

proof fn lemma_matched_items_bound(items: Seq<Seq<char>>, titles: Seq<Seq<char>>)
    ensures
        0 <= matched_items(items, titles) <= items.len(),
    decreases items.len(),
{
    if items.len() > 0 {
        lemma_matched_items_bound(items.drop_last(), titles);
    }
}

fn matched_items_exec(items: &Vec<Vec<char>>, titles: &Vec<Vec<char>>) -> (r: usize)
    ensures
        r as int == matched_items(views(items@), views(titles@)),
{
    let mut count: usize = 0;
    let mut k: usize = 0;
    while k < items.len()
        invariant
            k <= items@.len(),
            count as int == matched_items(views(items@).subrange(0, k as int), views(titles@)),
        decreases items@.len() - k,
    {
        assert(views(items@).subrange(0, k + 1).drop_last() == views(items@).subrange(0, k as int));
        proof {
            lemma_matched_items_bound(views(items@).subrange(0, k as int), views(titles@));
        }
        if any_title_matches_exec(&items[k], titles) {
            count = count + 1;
        }
        k = k + 1;
    }
    assert(views(items@).subrange(0, items@.len() as int) == views(items@));
    count
}

proof fn lemma_explicit_nonneg(entries: Seq<(Seq<char>, Seq<char>)>, titles: Seq<Seq<char>>)
    ensures
        explicit_dependencies(entries, titles) >= 0,
    decreases entries.len(),
{
    if entries.len() > 0 {
        lemma_explicit_nonneg(entries.drop_last(), titles);
        lemma_matched_items_bound(yaml_items(entries.last().1), titles);
    }
}

/// The matched dependency items of the entries, stopping at `usize::MAX`.
fn explicit_dependencies_exec(entries: &Vec<(Vec<char>, Vec<char>)>, titles: &Vec<Vec<char>>) -> (r: usize)
    ensures
        r as int == if explicit_dependencies(pair_char_views(entries@), views(titles@)) >= usize::MAX {
            usize::MAX as int
        } else {
            explicit_dependencies(pair_char_views(entries@), views(titles@))
        },
{
    let ghost es = pair_char_views(entries@);
    let ghost ts = views(titles@);
    let mut total: usize = 0;
    let mut k: usize = 0;
    while k < entries.len()
        invariant
            k <= entries@.len(),
            es == pair_char_views(entries@),
            ts == views(titles@),
            total as int == if explicit_dependencies(es.subrange(0, k as int), ts) >= usize::MAX {
                usize::MAX as int
            } else {
                explicit_dependencies(es.subrange(0, k as int), ts)
            },
        decreases entries@.len() - k,
    {
        assert(es.subrange(0, k + 1).drop_last() == es.subrange(0, k as int));
        assert(es.subrange(0, k + 1).last() == (entries@[k as int].0@, entries@[k as int].1@));
        proof {
            lemma_explicit_nonneg(es.subrange(0, k as int), ts);
            lemma_matched_items_bound(yaml_items(entries@[k as int].1@), ts);
        }
        let e = &entries[k];
        let is_dep = eq_str(&e.0, "dependencies") && e.1.len() > 0 && !eq_str(&e.1, "[]");
        if is_dep {
            let items = yaml_items_exec(&e.1);
            let m = matched_items_exec(&items, titles);
            total = total.saturating_add(m);
        }
        k = k + 1;
    }
    assert(es.subrange(0, entries@.len() as int) == es);
    total
}

/// The titles of the tasks, as characters.
fn title_chars(tasks: &Vec<Task>) -> (r: Vec<Vec<char>>)
    ensures
        views(r@) == titles_of(tasks@),
{
    let mut out: Vec<Vec<char>> = Vec::new();
    let mut k: usize = 0;
    while k < tasks.len()
        invariant
            k <= tasks@.len(),
            out@.len() == k,
            forall|m: int| 0 <= m < k ==> (#[trigger] out@[m])@ == tasks@[m].title@,
        decreases tasks@.len() - k,
    {
        out.push(chars_of(tasks[k].title.as_str()));
        k = k + 1;
    }
    assert(views(out@) =~= titles_of(tasks@));
    out
}

/// The foundation level of every task, in list order.
pub fn foundation_levels(tasks: &Vec<Task>, files: &Vec<TaskFileInfo>) -> (r: Vec<usize>)
    ensures
        r@.len() == tasks@.len(),
        forall|k: int| 0 <= k < r@.len() ==> r@[k] == foundation_level(tasks@, files@, k),
{
    let titles = title_chars(tasks);
    let mut out: Vec<usize> = Vec::new();
    let mut k: usize = 0;
    while k < tasks.len()
        invariant
            k <= tasks@.len(),
            views(titles@) == titles_of(tasks@),
            out@.len() == k,
            forall|m: int| 0 <= m < k ==> out@[m] == foundation_level(tasks@, files@, m),
        decreases tasks@.len() - k,
    {
        let t = &tasks[k];
        let p = chars_of(t.location.file_path.as_str());
        let folder: usize = match folder_parent_exec(&p) {
            Some(_) => 1,
            None => 0,
        };
        let mut explicit: usize = 0;
        if t.source == TaskSource::Markdown && k < files.len() {
            match &files[k].content {
                Some(c) => {
                    let cv = chars_of(c.as_str());
                    let entries = metadata_chars(&cv);
                    explicit = explicit_dependencies_exec(&entries, &titles);
                },
                None => {},
            }
        }
        proof {
            if t.source == TaskSource::Markdown && content_at(files@, k as int) is Some {
                lemma_explicit_nonneg(task_metadata(content_at(files@, k as int)->0), titles_of(tasks@));
            }
        }
        out.push(folder.saturating_add(explicit));
        k = k + 1;
    }
    out
}

/// Where the text after the metadata block begins: just past the first
/// ```` ```\n ```` at or after the block's first line, else at the start.
pub open spec fn description_start(s: Seq<char>) -> int {
    match metadata_block(lines_of(s)) {
        Some((a, _b)) => match find_from(s, "```\n"@, line_spans(s)[a].0) {
            Some(e) => e + "```\n"@.len(),
            None => 0,
        },
        None => 0,
    }
}

/// The longest description kept whole, in characters.
pub open spec fn description_cap() -> int {
    200
}

/// At most the first 200 characters of `text`, with `...` where it was cut.
pub open spec fn truncated(text: Seq<char>) -> Seq<char> {
    if text.len() > description_cap() {
        text.subrange(0, description_cap()) + "..."@
    } else {
        text
    }
}

/// The brief description of a markdown task: from the text after its
/// metadata block, the `## Overview` section up to the next `## ` heading,
/// trimmed; its first sentence where that ends within 200 characters, else
/// the text cut to 200 characters. Empty where there is no such section.
pub open spec fn brief_description(s: Seq<char>) -> Seq<char> {
    let rest = s.subrange(description_start(s), s.len() as int);
    match find(rest, "## Overview"@) {
        Some(o) => {
            let after = rest.subrange(o + "## Overview"@.len(), rest.len() as int);
            let text = match find(after, "\n## "@) {
                Some(e) => trim(after.subrange(0, e)),
                None => trim(after),
            };
            match find(text, "."@) {
                Some(d) => if d < description_cap() {
                    text.subrange(0, d + 1)
                } else {
                    truncated(text)
                },
                None => truncated(text),
            }
        },
        None => seq![],
    }
}

fn truncated_exec(text: &Vec<char>) -> (r: Vec<char>)
    ensures
        r@ == truncated(text@),
{
    if text.len() > 200 {
        let mut out = copy_range(text, 0, 200);
        push_str(&mut out, "...");
        out
    } else {
        copy_range(text, 0, text.len())
    }
}

fn description_start_exec(s: &Vec<char>) -> (r: usize)
    ensures
        r as int == description_start(s@),
        r <= s@.len(),
{
    let lines = lines_exec(s);
    let n = s.len();
    assert(views(lines@) =~= lines_of(s@));
    match find_metadata_block(&lines) {
        Some((a, _b)) => {
            let spans = line_spans_exec(s);
            proof {
                crate::text::lemma_line_spans_bounds(s@);
            }
            let fence = chars_of("```\n");
            match find_from_exec(s, &fence, spans[a].0) {
                Some(e) => {
                    proof {
                        crate::text::lemma_find_bounds(s@, fence@, spans@[a as int].0 as int);
                    }
                    e + fence.len()
                },
                None => 0,
            }
        },
        None => 0,
    }
}

pub(crate) fn brief_description_chars(s: &Vec<char>) -> (r: Vec<char>)
    ensures
        r@ == brief_description(s@),
{
    let start = description_start_exec(s);
    let rest = copy_range(s, start, s.len());
    let heading = chars_of("## Overview");
    match find_exec(&rest, &heading) {
        Some(o) => {
            proof {
                crate::text::lemma_find_bounds(rest@, heading@, 0);
            }
            let after = copy_range(&rest, o + heading.len(), rest.len());
            let next = chars_of("\n## ");
            let text = match find_exec(&after, &next) {
                Some(e) => {
                    proof {
                        crate::text::lemma_find_bounds(after@, next@, 0);
                    }
                    let (x, y) = trim_range(&after, 0, e);
                    copy_range(&after, x, y)
                },
                None => trim_chars(&after),
            };
            let dot = chars_of(".");
            match find_exec(&text, &dot) {
                Some(d) => {
                    proof {
                        crate::text::lemma_find_bounds(text@, dot@, 0);
                        reveal_strlit(".");
                    }
                    if d < 200 {
                        copy_range(&text, 0, d + 1)
                    } else {
                        truncated_exec(&text)
                    }
                },
                None => truncated_exec(&text),
            }
        },
        None => Vec::new(),
    }
}

/// The brief description of a markdown task file's content.
pub fn extract_brief_description(content: &str) -> (r: String)
    ensures
        r@ == brief_description(content@),
{
    let cv = chars_of(content);
    let d = brief_description_chars(&cv);
    string_of(&d)
}

} // verus!

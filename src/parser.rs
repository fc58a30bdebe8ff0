//! Extraction of tasks from file contents: TODO annotations in source
//! comments, and one task per markdown task file with its title, category
//! and priority. Reading the files is left to the caller.
use vstd::prelude::*;
use crate::common::{Task, TaskCategory, TaskPriority, TaskSource};
use crate::scanner::{file_stem, file_stem_exec};
use crate::text::{lemma_find_bounds, views, line_spans, trim_range, chars_of, string_of, contains, contains_str, copy_range, eq_str, find, find_exec, lines_exec, lines_of, starts_with, starts_with_str, trim, trim_chars};

verus! {

/// The comment markers of a language, by file extension, in the order they are tried.
pub open spec fn comment_patterns(e: Seq<char>) -> Seq<Seq<char>> {
    if e == "rs"@ || e == "js"@ || e == "ts"@ || e == "jsx"@ || e == "tsx"@ || e == "java"@ || e
        == "c"@ || e == "cpp"@ || e == "cc"@ || e == "cxx"@ || e == "h"@ || e == "hpp"@ || e
        == "swift"@ || e == "kt"@ || e == "scala"@ {
        seq!["//"@, "/*"@]
    } else if e == "py"@ || e == "rb"@ {
        seq!["#"@]
    } else if e == "go"@ {
        seq!["//"@]
    } else {
        seq!["//"@, "#"@, "/*"@]
    }
}

/// The markers tried for an extension not listed above.
pub open spec fn default_patterns() -> Seq<Seq<char>> {
    seq!["//"@, "#"@, "/*"@]
}

pub open spec fn str_views(v: Seq<&str>) -> Seq<Seq<char>> {
    v.map_values(|s: &str| s@)
}

/// Each extension has a non-empty list of comment markers, none of them
/// empty; an extension of no listed language gets the default list.
pub proof fn lemma_comment_patterns(e: Seq<char>)
    ensures
        comment_patterns(e).len() > 0,
        forall|k: int| 0 <= k < comment_patterns(e).len() ==> (#[trigger] comment_patterns(e)[k]).len() > 0,
        !(e == "rs"@ || e == "js"@ || e == "ts"@ || e == "jsx"@ || e == "tsx"@ || e == "java"@ || e
            == "c"@ || e == "cpp"@ || e == "cc"@ || e == "cxx"@ || e == "h"@ || e == "hpp"@ || e
            == "swift"@ || e == "kt"@ || e == "scala"@ || e == "py"@ || e == "rb"@ || e == "go"@)
            ==> comment_patterns(e) == default_patterns(),
{
    reveal_strlit("//");
    reveal_strlit("/*");
    reveal_strlit("#");
}

/// The comment markers for files with this extension.
pub fn get_comment_patterns(extension: &str) -> (r: Vec<&'static str>)
    ensures
        str_views(r@) == comment_patterns(extension@),
{
    let e = chars_of(extension);
    let mut r: Vec<&'static str> = Vec::new();
    if eq_str(&e, "rs") || eq_str(&e, "js") || eq_str(&e, "ts") || eq_str(&e, "jsx") || eq_str(
        &e,
        "tsx",
    ) || eq_str(&e, "java") || eq_str(&e, "c") || eq_str(&e, "cpp") || eq_str(&e, "cc")
        || eq_str(&e, "cxx") || eq_str(&e, "h") || eq_str(&e, "hpp") || eq_str(&e, "swift")
        || eq_str(&e, "kt") || eq_str(&e, "scala") {
        r.push("//");
        r.push("/*");
    } else if eq_str(&e, "py") || eq_str(&e, "rb") {
        r.push("#");
    } else if eq_str(&e, "go") {
        r.push("//");
    } else {
        r.push("//");
        r.push("#");
        r.push("/*");
    }
    assert(str_views(r@) =~= comment_patterns(extension@));
    r
}

/// What `regex` reports for `text` under `pattern`: `None` where the pattern
/// does not compile or does not match, else the groups of the leftmost
/// match, group 0 first, each `None` where it took no part in the match.
pub uninterp spec fn regex_captures(pattern: Seq<char>, text: Seq<char>) -> Option<Seq<Option<Seq<char>>>>;

pub open spec fn group_views(g: Seq<Option<String>>) -> Seq<Option<Seq<char>>> {
    g.map_values(|m: Option<String>| match m {
        Some(s) => Some(s@),
        None => None,
    })
}

/// Relies on `regex::Regex::new` and `Regex::captures`: the capture groups of
/// the leftmost match of `pattern` in `text`.
#[verifier::external_body]
fn captures(pattern: &str, text: &str) -> (r: Option<Vec<Option<String>>>)
    ensures
        match r {
            Some(g) => regex_captures(pattern@, text@) == Some(group_views(g@)),
            None => regex_captures(pattern@, text@) is None,
        },
{
    let re = regex::Regex::new(pattern).ok()?;
    let caps = re.captures(text)?;
    Some(caps.iter().map(|m| m.map(|m| m.as_str().to_string())).collect())
}

/// The TODO annotation: `TODO`, an optional `(Category)` of word characters,
/// optional whitespace, a colon, whitespace, and the title.
pub open spec fn todo_pattern() -> Seq<char> {
    "TODO(?:\\((\\w+)\\))?\\s*:\\s*(.+)"@
}

/// The category text (empty where none is given) and the trimmed title of the
/// TODO annotation in `comment`, if there is one.
pub open spec fn todo_match(comment: Seq<char>) -> Option<(Seq<char>, Seq<char>)> {
    match regex_captures(todo_pattern(), trim(comment)) {
        Some(g) => if g.len() > 2 && g[2] is Some {
            Some(
                (
                    match g[1] {
                        Some(c) => c,
                        None => Seq::<char>::empty(),
                    },
                    trim(g[2]->0),
                ),
            )
        } else {
            None
        },
        None => None,
    }
}

/// A TODO annotation found in a comment.
pub struct TodoMatch {
    pub title: String,
    pub category: TaskCategory,
}

/// The TODO annotation in the text of a comment, if any.
pub fn extract_todo_from_comment(comment: &str) -> (r: Option<TodoMatch>)
    ensures
        match r {
            Some(m) => todo_match(comment@) matches Some((c, t)) && m.title@ == t && (if c.len()
                == 0 {
                m.category is General
            } else {
                m.category matches TaskCategory::Custom(n) && n@ == c
            }),
            None => todo_match(comment@) is None,
        },
{
    let cv = chars_of(comment);
    let t = trim_chars(&cv);
    let ts = string_of(&t);
    match captures("TODO(?:\\((\\w+)\\))?\\s*:\\s*(.+)", ts.as_str()) {
        Some(g) => {
            if g.len() > 2 {
                match &g[2] {
                    Some(title) => {
                        let tv = chars_of(title.as_str());
                        let title_trimmed = trim_chars(&tv);
                        let category = match &g[1] {
                            Some(c) => TaskCategory::from_str(c.as_str()),
                            None => TaskCategory::General,
                        };
                        Some(TodoMatch { title: string_of(&title_trimmed), category })
                    },
                    None => None,
                }
            } else {
                None
            }
        },
        None => None,
    }
}

/// The first marker, from position `k` on, that begins the trimmed line `t`
/// and is followed by a TODO annotation; what that annotation holds.
pub open spec fn first_todo(t: Seq<char>, pats: Seq<Seq<char>>, k: int) -> Option<
    (Seq<char>, Seq<char>),
>
    decreases pats.len() - k,
{
    if k < 0 || k >= pats.len() {
        None
    } else if starts_with(t, pats[k]) && todo_match(t.subrange(pats[k].len() as int, t.len() as int)) is Some {
        todo_match(t.subrange(pats[k].len() as int, t.len() as int))
    } else {
        first_todo(t, pats, k + 1)
    }
}

/// The annotation of a source line: only a line that, trimmed, begins with a
/// comment marker can hold one.
pub open spec fn line_todo(line: Seq<char>, pats: Seq<Seq<char>>) -> Option<(Seq<char>, Seq<char>)> {
    first_todo(trim(line), pats, 0)
}

/// A line that, once trimmed, begins with none of the comment markers yields
/// no task, whatever it holds.
pub proof fn lemma_uncommented_line_has_no_todo(line: Seq<char>, pats: Seq<Seq<char>>)
    requires
        forall|k: int| 0 <= k < pats.len() ==> !starts_with(trim(line), #[trigger] pats[k]),
    ensures
        line_todo(line, pats) is None,
{
    lemma_first_todo_none(trim(line), pats, 0);
}

proof fn lemma_first_todo_none(t: Seq<char>, pats: Seq<Seq<char>>, k: int)
    requires
        0 <= k,
        forall|m: int| 0 <= m < pats.len() ==> !starts_with(t, #[trigger] pats[m]),
    ensures
        first_todo(t, pats, k) is None,
    decreases pats.len() - k,
{
    if k < pats.len() {
        lemma_first_todo_none(t, pats, k + 1);
    }
}

/// A task for a source line at `line_number` of `file_path`: the title and
/// category of its TODO annotation, medium priority.
pub open spec fn code_task_matches(t: Task, m: (Seq<char>, Seq<char>), file_path: Seq<char>, line_number: int) -> bool {
    &&& t.title@ == m.1
    &&& (if m.0.len() == 0 {
        t.category is General
    } else {
        t.category matches TaskCategory::Custom(n) && n@ == m.0
    })
    &&& t.priority == TaskPriority::Medium
    &&& t.location.file_path@ == file_path
    &&& t.location.line_number == Some(line_number as usize)
    &&& t.source == TaskSource::Code
}

/// The task of one source line, if it holds a TODO annotation in a comment.
pub fn parse_todo_line(line: &str, comment_patterns: &Vec<&str>, line_number: usize, file_path: &str) -> (r: Option<Task>)
    ensures
        match r {
            Some(t) => line_todo(line@, str_views(comment_patterns@)) matches Some(m)
                && code_task_matches(t, m, file_path@, line_number as int),
            None => line_todo(line@, str_views(comment_patterns@)) is None,
        },
{
    let lv = chars_of(line);
    let t = trim_chars(&lv);
    let ghost pats = str_views(comment_patterns@);
    let mut k: usize = 0;
    while k < comment_patterns.len()
        invariant
            k <= comment_patterns@.len(),
            pats == str_views(comment_patterns@),
            t@ == trim(line@),
            first_todo(t@, pats, 0) == first_todo(t@, pats, k as int),
        decreases comment_patterns@.len() - k,
    {
        let p = comment_patterns[k];
        assert(pats[k as int] == p@);
        if starts_with_str(&t, p) {
            let pv = chars_of(p);
            let rest = copy_range(&t, pv.len(), t.len());
            let rest_s = string_of(&rest);
            match extract_todo_from_comment(rest_s.as_str()) {
                Some(m) => {
                    assert(rest_s@ == t@.subrange(pats[k as int].len() as int, t@.len() as int));
                    assert(first_todo(t@, pats, k as int) == todo_match(rest_s@));
                    let path = string_of(&chars_of(file_path));
                    let task = Task::from_code(m.title, m.category, path, line_number);
                    return Some(task);
                },
                None => {},
            }
        }
        k = k + 1;
    }
    None
}

/// The annotated lines of a text: line number (from 1), category text and
/// title, for each of the first `n` lines that holds an annotation.
pub open spec fn todo_hits(lines: Seq<Seq<char>>, pats: Seq<Seq<char>>, n: int) -> Seq<
    (int, (Seq<char>, Seq<char>)),
>
    decreases n,
{
    if n <= 0 {
        seq![]
    } else {
        let before = todo_hits(lines, pats, n - 1);
        match line_todo(lines[n - 1], pats) {
            Some(m) => before.push((n, m)),
            None => before,
        }
    }
}

/// The tasks of a source file's content, in line order, for a file with the given extension.
pub fn parse_source_content(content: &str, extension: &str, file_path: &str) -> (r: Vec<Task>)
    ensures
        ({
            let lines = lines_of(content@);
            let hits = todo_hits(lines, comment_patterns(extension@), lines.len() as int);
            &&& r@.len() == hits.len()
            &&& forall|k: int|
                0 <= k < r@.len() ==> code_task_matches(
                    #[trigger] r@[k],
                    hits[k].1,
                    file_path@,
                    hits[k].0,
                )
        }),
{
    let cv = chars_of(content);
    let lines = lines_exec(&cv);
    let patterns = get_comment_patterns(extension);
    let ghost pats = comment_patterns(extension@);
    let ghost all = lines_of(content@);
    let mut out: Vec<Task> = Vec::new();
    let mut i: usize = 0;
    while i < lines.len()
        invariant
            i <= lines@.len(),
            lines@.len() == all.len(),
            forall|k: int| 0 <= k < lines@.len() ==> (#[trigger] lines@[k])@ == all[k],
            str_views(patterns@) == pats,
            out@.len() == todo_hits(all, pats, i as int).len(),
            forall|k: int|
                0 <= k < out@.len() ==> code_task_matches(
                    #[trigger] out@[k],
                    todo_hits(all, pats, i as int)[k].1,
                    file_path@,
                    todo_hits(all, pats, i as int)[k].0,
                ),
        decreases lines@.len() - i,
    {
        let ls = string_of(&lines[i]);
        let found = parse_todo_line(ls.as_str(), &patterns, i + 1, file_path);
        match found {
            Some(t) => {
                out.push(t);
            },
            None => {},
        }
        i = i + 1;
    }
    out
}

/// The tasks of a source file's content, the comment markers chosen by the
/// extension of its path (none counts as the empty extension).
pub fn parse_source_file_content(file_path: &str, content: &str) -> (r: Vec<Task>)
    ensures
        ({
            let ext = match crate::scanner::extension(file_path@) {
                Some(e) => e,
                None => Seq::<char>::empty(),
            };
            let lines = lines_of(content@);
            let hits = todo_hits(lines, comment_patterns(ext), lines.len() as int);
            &&& r@.len() == hits.len()
            &&& forall|k: int|
                0 <= k < r@.len() ==> code_task_matches(
                    #[trigger] r@[k],
                    hits[k].1,
                    file_path@,
                    hits[k].0,
                )
        }),
{
    let p = chars_of(file_path);
    let ext = match crate::scanner::extension_exec(&p) {
        Some(e) => e,
        None => Vec::new(),
    };
    let ext_s = string_of(&ext);
    parse_source_content(content, ext_s.as_str(), file_path)
}

/// A fence line that opens the metadata block: ```` ```yaml ````, or a bare
/// ```` ``` ```` whose next line holds `priority:` or `dependencies:`.
pub open spec fn fence_opens(lines: Seq<Seq<char>>, i: int) -> bool {
    trim(lines[i]) == "```yaml"@ || (trim(lines[i]) == "```"@ && i + 1 < lines.len() && (contains(
        lines[i + 1],
        "priority:"@,
    ) || contains(lines[i + 1], "dependencies:"@)))
}

/// Scanning from line `i`, with a block opened at line `open` if any: the
/// first line of the block and the line of its closing fence. A later opening
/// fence starts the block anew.
pub open spec fn block_from(lines: Seq<Seq<char>>, i: int, open: Option<int>) -> Option<(int, int)>
    decreases lines.len() - i,
{
    if i < 0 || i >= lines.len() {
        None
    } else if fence_opens(lines, i) {
        block_from(lines, i + 1, Some(i + 1))
    } else if open is Some && trim(lines[i]) == "```"@ {
        Some((open->0, i))
    } else {
        block_from(lines, i + 1, open)
    }
}

/// The fenced metadata block of a markdown text, as the line where its
/// content starts and the line of its closing fence.
pub open spec fn metadata_block(lines: Seq<Seq<char>>) -> Option<(int, int)> {
    block_from(lines, 0, None)
}

/// The metadata block among `lines`: the line where its content starts and
/// the line of its closing fence.
pub fn find_metadata_block(lines: &Vec<Vec<char>>) -> (r: Option<(usize, usize)>)
    ensures
        match r {
            Some((a, b)) => metadata_block(views(lines@)) == Some((a as int, b as int)) && a <= b
                < lines@.len(),
            None => metadata_block(views(lines@)) is None,
        },
{
    let ghost ls = views(lines@);
    let mut open: Option<usize> = None;
    let mut i: usize = 0;
    while i < lines.len()
        invariant
            i <= lines@.len(),
            ls == views(lines@),
            open matches Some(o) ==> o <= i,
            block_from(ls, 0, None) == block_from(ls, i as int, match open {
                Some(o) => Some(o as int),
                None => None,
            }),
        decreases lines@.len() - i,
    {
        let t = trim_chars(&lines[i]);
        let opens = if eq_str(&t, "```yaml") {
            true
        } else if eq_str(&t, "```") && i + 1 < lines.len() {
            contains_str(&lines[i + 1], "priority:") || contains_str(&lines[i + 1], "dependencies:")
        } else {
            false
        };
        assert(opens == fence_opens(ls, i as int));
        if opens {
            open = Some(i + 1);
        } else {
            match open {
                Some(o) => {
                    if eq_str(&t, "```") {
                        return Some((o, i));
                    }
                },
                None => {},
            }
        }
        i = i + 1;
    }
    None
}

/// The text of the metadata block: from the start of its first line to the
/// start of its closing fence, line terminators included.
pub open spec fn metadata_block_text(content: Seq<char>) -> Option<Seq<char>> {
    match metadata_block(lines_of(content)) {
        Some((a, b)) => Some(content.subrange(line_spans(content)[a].0, line_spans(content)[b].0)),
        None => None,
    }
}

/// The text of a markdown file's metadata block, if it has one.
pub fn extract_yaml_metadata(content: &str) -> (r: Option<String>)
    ensures
        match r {
            Some(t) => metadata_block_text(content@) == Some(t@),
            None => metadata_block_text(content@) is None,
        },
{
    let cv = chars_of(content);
    let lines = lines_exec(&cv);
    assert(views(lines@) =~= lines_of(content@));
    match find_metadata_block(&lines) {
        Some((a, b)) => {
            let spans = crate::text::line_spans_exec(&cv);
            proof {
                crate::text::lemma_line_spans_bounds(cv@);
            }
            let t = copy_range(&cv, spans[a].0, spans[b].0);
            Some(string_of(&t))
        },
        None => None,
    }
}


/// The first line in `a..b` that begins with `p`.
pub open spec fn first_prefixed(lines: Seq<Seq<char>>, a: int, b: int, p: Seq<char>) -> Option<int>
    decreases b - a,
{
    if a >= b || a < 0 || b > lines.len() {
        None
    } else if starts_with(lines[a], p) {
        Some(a)
    } else {
        first_prefixed(lines, a + 1, b, p)
    }
}

/// The first line in `a..b` that begins with `p`.
fn first_prefixed_exec(lines: &Vec<Vec<char>>, a: usize, b: usize, p: &str) -> (r: Option<usize>)
    requires
        a <= b <= lines@.len(),
    ensures
        match r {
            Some(k) => first_prefixed(views(lines@), a as int, b as int, p@) == Some(k as int) && a
                <= k < b && starts_with(lines@[k as int]@, p@),
            None => first_prefixed(views(lines@), a as int, b as int, p@) is None,
        },
{
    let ghost ls = views(lines@);
    let mut k: usize = a;
    while k < b
        invariant
            a <= k <= b <= lines@.len(),
            ls == views(lines@),
            first_prefixed(ls, a as int, b as int, p@) == first_prefixed(ls, k as int, b as int, p@),
        decreases b - k,
    {
        if starts_with_str(&lines[k], p) {
            return Some(k);
        }
        k = k + 1;
    }
    None
}

/// The text with every leading and trailing `"` removed.
pub open spec fn strip_quotes(s: Seq<char>) -> Seq<char> {
    strip_quotes_back(strip_quotes_front(s))
}

pub open spec fn strip_quotes_front(s: Seq<char>) -> Seq<char>
    decreases s.len(),
{
    if s.len() > 0 && s[0] == '"' {
        strip_quotes_front(s.drop_first())
    } else {
        s
    }
}

pub open spec fn strip_quotes_back(s: Seq<char>) -> Seq<char>
    decreases s.len(),
{
    if s.len() > 0 && s.last() == '"' {
        strip_quotes_back(s.drop_last())
    } else {
        s
    }
}

/// The text without `"` at either end.
pub fn strip_quotes_exec(s: &Vec<char>) -> (r: Vec<char>)
    ensures
        r@ == strip_quotes(s@),
{
    let mut i: usize = 0;
    let n = s.len();
    assert(s@.subrange(0, n as int) == s@);
    while i < n && s[i] == '"'
        invariant
            i <= n == s@.len(),
            strip_quotes_front(s@) == strip_quotes_front(s@.subrange(i as int, n as int)),
        decreases n - i,
    {
        assert(s@.subrange(i as int, n as int).drop_first() == s@.subrange(i + 1, n as int));
        i = i + 1;
    }
    let mut j: usize = n;
    while j > i && s[j - 1] == '"'
        invariant
            i <= j <= n == s@.len(),
            strip_quotes(s@) == strip_quotes_back(s@.subrange(i as int, j as int)),
        decreases j,
    {
        assert(s@.subrange(i as int, j as int).drop_last() == s@.subrange(i as int, j - 1));
        j = j - 1;
    }
    copy_range(s, i, j)
}

/// What `str::to_lowercase` gives for a text: its Unicode lowercase mapping.
pub uninterp spec fn lower_of(s: Seq<char>) -> Seq<char>;

/// Relies on `str::to_lowercase`: the lowercase mapping of `s`, which depends on its characters alone.
#[verifier::external_body]
fn lowercase(s: &Vec<char>) -> (r: Vec<char>)
    ensures
        r@ == lower_of(s@),
{
    let text: String = s.iter().collect();
    text.to_lowercase().chars().collect()
}

/// The lowercase form of a text.
pub fn lowercase_chars(s: &Vec<char>) -> (r: Vec<char>)
    ensures
        r@ == lower_of(s@),
{
    lowercase(s)
}

/// A priority word, compared after lowercasing: `high`, `low`, else medium.
pub open spec fn priority_of_word(w: Seq<char>) -> TaskPriority {
    if w == "high"@ {
        TaskPriority::High
    } else if w == "low"@ {
        TaskPriority::Low
    } else {
        TaskPriority::Medium
    }
}

/// The priority of a markdown task: from the `priority:` line of the metadata
/// block (trimmed, unquoted), else from a line starting `**Priority:**`, else medium.
pub open spec fn priority_from_lines(lines: Seq<Seq<char>>) -> TaskPriority {
    let from_block = match metadata_block(lines) {
        Some((a, b)) => match first_prefixed(lines, a, b, "priority:"@) {
            Some(k) => Some(
                priority_of_word(
                    lower_of(
                        strip_quotes(trim(lines[k].subrange("priority:"@.len() as int, lines[k].len() as int))),
                    ),
                ),
            ),
            None => None,
        },
        None => None,
    };
    match from_block {
        Some(p) => p,
        None => match first_prefixed(lines, 0, lines.len() as int, "**Priority:**"@) {
            Some(k) => priority_of_word(
                lower_of(trim(lines[k].subrange("**Priority:**"@.len() as int, lines[k].len() as int))),
            ),
            None => TaskPriority::Medium,
        },
    }
}

fn priority_of_word_exec(w: &Vec<char>) -> (r: TaskPriority)
    ensures
        r == priority_of_word(w@),
{
    if eq_str(w, "high") {
        TaskPriority::High
    } else if eq_str(w, "low") {
        TaskPriority::Low
    } else {
        TaskPriority::Medium
    }
}

/// The priority that a markdown task's content declares.
pub fn extract_priority_from_content(content: &str) -> (r: TaskPriority)
    ensures
        r == priority_from_lines(lines_of(content@)),
{
    let cv = chars_of(content);
    let lines = lines_exec(&cv);
    assert(views(lines@) =~= lines_of(content@));
    extract_priority_from_lines(&lines)
}

fn extract_priority_from_lines(lines: &Vec<Vec<char>>) -> (r: TaskPriority)
    ensures
        r == priority_from_lines(views(lines@)),
{
    let ghost ls = views(lines@);
    match find_metadata_block(lines) {
        Some((a, b)) => {
            let key = chars_of("priority:");
            match first_prefixed_exec(lines, a, b, "priority:") {
                Some(k) => {
                    let line = &lines[k];
                    assert(ls[k as int] == line@);
                    let (x, y) = trim_range(line, key.len(), line.len());
                    let v = copy_range(line, x, y);
                    let w = strip_quotes_exec(&v);
                    let low = lowercase(&w);
                    return priority_of_word_exec(&low);
                },
                None => {},
            }
        },
        None => {},
    }
    let marker = chars_of("**Priority:**");
    match first_prefixed_exec(lines, 0, lines.len(), "**Priority:**") {
        Some(k) => {
            let line = &lines[k];
            assert(ls[k as int] == line@);
            let (x, y) = trim_range(line, marker.len(), line.len());
            let v = copy_range(line, x, y);
            let low = lowercase(&v);
            priority_of_word_exec(&low)
        },
        None => TaskPriority::Medium,
    }
}

pub open spec fn ascii_upper(c: char) -> char {
    if 'a' <= c && c <= 'z' {
        ((c as u32) - 32) as char
    } else {
        c
    }
}

fn to_ascii_upper(c: char) -> (r: char)
    ensures
        r == ascii_upper(c),
{
    if 'a' <= c && c <= 'z' {
        let u: u32 = c as u32;
        ((u - 32) as u8) as char
    } else {
        c
    }
}

/// The name with its first character in ASCII upper case.
pub open spec fn capitalized(s: Seq<char>) -> Seq<char> {
    if s.len() == 0 {
        s
    } else {
        seq![ascii_upper(s[0])] + s.drop_first()
    }
}

/// The category that a task file's path gives: the directory just below
/// `todo/`, capitalized, where the file lies deeper than `todo/` itself.
pub open spec fn category_name_from_path(p: Seq<char>) -> Option<Seq<char>> {
    match find(p, "todo/"@) {
        Some(pos) => {
            let after = p.subrange(pos + "todo/"@.len(), p.len() as int);
            match find(after, "/"@) {
                Some(sep) => Some(capitalized(after.subrange(0, sep))),
                None => None,
            }
        },
        None => None,
    }
}

/// The category of a task file, from its path.
pub fn extract_category_from_path(file_path: &str) -> (r: TaskCategory)
    ensures
        match category_name_from_path(file_path@) {
            Some(n) => r matches TaskCategory::Custom(m) && m@ == n,
            None => r is General,
        },
{
    let p = chars_of(file_path);
    let marker = chars_of("todo/");
    let n = p.len();
    match find_exec(&p, &marker) {
        Some(pos) => {
            proof {
                lemma_find_bounds(p@, marker@, 0);
            }
            let after = copy_range(&p, pos + marker.len(), p.len());
            let slash = chars_of("/");
            match find_exec(&after, &slash) {
                Some(sep) => {
                    proof {
                        lemma_find_bounds(after@, slash@, 0);
                    }
                    let dir = copy_range(&after, 0, sep);
                    let mut name: Vec<char> = Vec::new();
                    if dir.len() > 0 {
                        name.push(to_ascii_upper(dir[0]));
                        crate::text::push_range(&mut name, &dir, 1, dir.len());
                        assert(name@ =~= capitalized(dir@));
                    } else {
                        assert(name@ =~= capitalized(dir@));
                    }
                    TaskCategory::Custom(string_of(&name))
                },
                None => TaskCategory::General,
            }
        },
        None => TaskCategory::General,
    }
}

/// The text of the first level-1 heading: the first line that, trimmed,
/// begins with `# `, without that marker.
pub open spec fn first_h1(lines: Seq<Seq<char>>) -> Option<Seq<char>> {
    first_h1_from(lines, 0)
}

pub open spec fn first_h1_from(lines: Seq<Seq<char>>, i: int) -> Option<Seq<char>>
    decreases lines.len() - i,
{
    if i < 0 || i >= lines.len() {
        None
    } else if starts_with(trim(lines[i]), "# "@) {
        Some(trim(lines[i]).subrange("# "@.len() as int, trim(lines[i]).len() as int))
    } else {
        first_h1_from(lines, i + 1)
    }
}

/// The first level-1 heading of a markdown text, if any.
pub fn extract_first_h1(content: &str) -> (r: Option<String>)
    ensures
        match r {
            Some(h) => first_h1(lines_of(content@)) == Some(h@),
            None => first_h1(lines_of(content@)) is None,
        },
{
    let cv = chars_of(content);
    let lines = lines_exec(&cv);
    let ghost ls = lines_of(content@);
    let mut i: usize = 0;
    while i < lines.len()
        invariant
            i <= lines@.len(),
            lines@.len() == ls.len(),
            ls == lines_of(content@),
            forall|k: int| 0 <= k < lines@.len() ==> (#[trigger] lines@[k])@ == ls[k],
            first_h1(ls) == first_h1_from(ls, i as int),
        decreases lines@.len() - i,
    {
        let t = trim_chars(&lines[i]);
        assert(t@ == trim(ls[i as int]));
        if starts_with_str(&t, "# ") {
            let marker = chars_of("# ");
            assert(first_h1_from(ls, i as int) == Some(t@.subrange(marker@.len() as int, t@.len() as int)));
            let h = copy_range(&t, marker.len(), t.len());
            return Some(string_of(&h));
        }
        i = i + 1;
    }
    None
}

/// The title of a markdown task: its first level-1 heading, else the file's
/// name without extension, else `Unknown Task`.
pub open spec fn markdown_title(path: Seq<char>, content: Seq<char>) -> Seq<char> {
    match first_h1(lines_of(content)) {
        Some(h) => h,
        None => match file_stem(path) {
            Some(s) => s,
            None => "Unknown Task"@,
        },
    }
}

/// The task that a markdown task file describes.
pub fn parse_markdown_content(file_path: &str, content: &str) -> (r: Task)
    ensures
        r.title@ == markdown_title(file_path@, content@),
        match category_name_from_path(file_path@) {
            Some(n) => r.category matches TaskCategory::Custom(m) && m@ == n,
            None => r.category is General,
        },
        r.priority == priority_from_lines(lines_of(content@)),
        r.location.file_path@ == file_path@,
        r.location.line_number is None,
        r.source == TaskSource::Markdown,
{
    let category = extract_category_from_path(file_path);
    let priority = extract_priority_from_content(content);
    let title = match extract_first_h1(content) {
        Some(h) => h,
        None => {
            let p = chars_of(file_path);
            match file_stem_exec(&p) {
                Some(s) => string_of(&s),
                None => string_of(&chars_of("Unknown Task")),
            }
        },
    };
    let path = string_of(&chars_of(file_path));
    Task::from_markdown_with_priority(title, category, priority, path)
}

} // verus!

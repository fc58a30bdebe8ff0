//! The generated task report: tasks grouped in one section per category
//! (sections in name order), ordered within a section by foundation level
//! and then by priority, each rendered with what its file adds; and a short
//! per-category summary.
use vstd::prelude::*;
use std::fmt::Write;
use crate::common::{Task, TaskSource, category_name, priority_rank, line_before};
use crate::generator::{TaskFileInfo, brief_description, brief_description_chars, content_at, foundation_level, foundation_levels, join_exec, join_with, metadata_chars, pair_char_views, task_metadata, yaml_items, yaml_items_exec};
use crate::order::{cmp_text, cmp_text_exec, sort_by, sorted_by, total_preorder, lemma_cmp_text_facts, lemma_cmp_text_trans, lemma_insert_at, lemma_sort_by_len, lemma_sort_by_multiset, lemma_sort_by_sorted, lemma_sort_by_step};
use crate::text::views;
use crate::scanner::{sort_texts, text_order};
use crate::text::{chars_of, decimal, decimal_exec, eq_str, push_all, push_str, string_of};

verus! {

/// Where the report goes and whether it opens with its header.
#[derive(Debug, Clone)]
pub struct GeneratorConfig {
    pub output_path: String,
    pub root_path: String,
    pub include_header: bool,
}

impl GeneratorConfig {
    /// `TODO.md` in the current directory, with the header.
    pub fn default() -> (r: Self)
        ensures
            r.output_path@ == "TODO.md"@,
            r.root_path@ == "."@,
            r.include_header,
    {
        GeneratorConfig {
            output_path: "TODO.md".to_string(),
            root_path: ".".to_string(),
            include_header: true,
        }
    }
}

/// What `chrono` writes for the UTC instant `secs` seconds after the Unix
/// epoch under the strftime-style format `fmt`; `None` where the instant is
/// out of its range or the format cannot be written.
pub uninterp spec fn utc_format(secs: int, fmt: Seq<char>) -> Option<Seq<char>>;

/// Relies on `chrono::DateTime::from_timestamp` and `DateTime::format`: the
/// instant `secs` written in UTC under `fmt`.
#[verifier::external_body]
fn format_timestamp(secs: i64, fmt: &str) -> (r: Option<String>)
    ensures
        match r {
            Some(s) => utc_format(secs as int, fmt@) == Some(s@),
            None => utc_format(secs as int, fmt@) is None,
        },
{
    let d = chrono::DateTime::from_timestamp(secs, 0)?;
    let mut out = String::new();
    write!(out, "{}", d.format(fmt)).ok()?;
    Some(out)
}

/// The date-time format of the report: ISO 8601 in UTC, to the second.
pub open spec fn stamp_format() -> Seq<char> {
    "%Y-%m-%dT%H:%M:%SZ"@
}

/// The instant written as the report writes it, where it can be.
pub open spec fn stamp(secs: int) -> Option<Seq<char>> {
    utc_format(secs, stamp_format())
}

/// The key of task `a` comes before or with that of task `b`: category
/// name, then foundation level (lower first), then priority (higher first),
/// then file path, then line (a whole file first).
pub open spec fn row_le(tasks: Seq<Task>, levels: Seq<usize>, a: int, b: int) -> bool {
    let c = cmp_text(category_name(tasks[a].category), category_name(tasks[b].category));
    let p = cmp_text(tasks[a].location.file_path@, tasks[b].location.file_path@);
    c < 0 || (c == 0 && (levels[a] < levels[b] || (levels[a] == levels[b] && (priority_rank(
        tasks[a].priority,
    ) > priority_rank(tasks[b].priority) || (priority_rank(tasks[a].priority) == priority_rank(
        tasks[b].priority,
    ) && (p < 0 || (p == 0 && (line_before(
        tasks[a].location.line_number,
        tasks[b].location.line_number,
    ) || tasks[a].location.line_number == tasks[b].location.line_number))))))))
}

pub open spec fn report_order(tasks: Seq<Task>, levels: Seq<usize>) -> spec_fn(usize, usize) -> bool {
    |a: usize, b: usize| row_le(tasks, levels, a as int, b as int)
}

/// The foundation level of each task.
pub open spec fn levels_of(tasks: Seq<Task>, files: Seq<TaskFileInfo>) -> Seq<usize> {
    Seq::new(tasks.len(), |k: int| foundation_level(tasks, files, k))
}

/// The positions `0..n`.
pub open spec fn positions(n: nat) -> Seq<usize> {
    Seq::new(n, |k: int| k as usize)
}

/// The order in which the report shows the tasks, as positions in `tasks`:
/// a stable sort by the key of `row_le`.
pub open spec fn report_rows(tasks: Seq<Task>, files: Seq<TaskFileInfo>) -> Seq<usize> {
    sort_by(positions(tasks.len()), report_order(tasks, levels_of(tasks, files)))
}

pub proof fn lemma_report_order_total(tasks: Seq<Task>, levels: Seq<usize>)
    ensures
        total_preorder(report_order(tasks, levels)),
{
    let le = report_order(tasks, levels);
    assert forall|x: usize, y: usize| #[trigger] le(x, y) || le(y, x) by {
        let (a, b) = (x as int, y as int);
        lemma_cmp_text_facts(category_name(tasks[a].category), category_name(tasks[b].category));
        lemma_cmp_text_facts(tasks[a].location.file_path@, tasks[b].location.file_path@);
    }
    assert forall|x: usize, y: usize, z: usize| #[trigger] le(x, y) && #[trigger] le(y, z) implies le(
        x,
        z,
    ) by {
        let (a, b, c) = (x as int, y as int, z as int);
        let (na, nb, nc) = (
            category_name(tasks[a].category),
            category_name(tasks[b].category),
            category_name(tasks[c].category),
        );
        let (pa, pb, pc) = (
            tasks[a].location.file_path@,
            tasks[b].location.file_path@,
            tasks[c].location.file_path@,
        );
        lemma_cmp_text_facts(na, nb);
        lemma_cmp_text_facts(nb, nc);
        lemma_cmp_text_facts(na, nc);
        lemma_cmp_text_facts(pa, pb);
        lemma_cmp_text_facts(pb, pc);
        lemma_cmp_text_facts(pa, pc);
        lemma_cmp_text_trans(na, nb, nc);
        if cmp_text(pa, pb) <= 0 && cmp_text(pb, pc) <= 0 {
            lemma_cmp_text_trans(pa, pb, pc);
        }
    }
}

/// A new section starts at row `j`: the first row, or one whose category
/// name differs from the row before.
pub open spec fn heading_at(tasks: Seq<Task>, rows: Seq<usize>, j: int) -> bool {
    j == 0 || category_name(tasks[rows[j] as int].category) != category_name(
        tasks[rows[j - 1] as int].category,
    )
}

pub open spec fn row_name(tasks: Seq<Task>, rows: Seq<usize>, j: int) -> Seq<char> {
    category_name(tasks[rows[j] as int].category)
}

/// `:line` for a task found on a line.
pub open spec fn line_suffix(t: Task) -> Seq<char> {
    match t.location.line_number {
        Some(n) => ":"@ + decimal(n as nat),
        None => seq![],
    }
}

/// The creation or modification time of the file behind task `k`.
pub open spec fn created_at(files: Seq<TaskFileInfo>, k: int) -> Option<i64> {
    if 0 <= k < files.len() {
        files[k].created
    } else {
        None
    }
}

pub open spec fn modified_at(files: Seq<TaskFileInfo>, k: int) -> Option<i64> {
    if 0 <= k < files.len() {
        files[k].modified
    } else {
        None
    }
}

/// `label` and the written instant on a line, where both are known.
pub open spec fn stamp_line(label: Seq<char>, secs: Option<i64>) -> Seq<char> {
    match secs {
        Some(s) => match stamp(s as int) {
            Some(t) => label + t + "\n"@,
            None => seq![],
        },
        None => seq![],
    }
}

/// One `- Effort:` line for each `estimated_effort` entry.
pub open spec fn effort_lines(entries: Seq<(Seq<char>, Seq<char>)>) -> Seq<char>
    decreases entries.len(),
{
    if entries.len() == 0 {
        seq![]
    } else {
        effort_lines(entries.drop_last()) + if entries.last().0 == "estimated_effort"@ {
            "- Effort: "@ + entries.last().1 + "\n"@
        } else {
            seq![]
        }
    }
}

/// A relationship entry: a non-empty value other than `[]`.
pub open spec fn has_list_value(e: (Seq<char>, Seq<char>)) -> bool {
    e.1.len() > 0 && e.1 != "[]"@
}

/// `Depends:` for each `dependencies` entry and `Enables:` for each
/// `blocks` entry, with its items.
pub open spec fn relationships(entries: Seq<(Seq<char>, Seq<char>)>) -> Seq<Seq<char>>
    decreases entries.len(),
{
    if entries.len() == 0 {
        seq![]
    } else {
        let before = relationships(entries.drop_last());
        let e = entries.last();
        if e.0 == "dependencies"@ && has_list_value(e) {
            before.push("Depends: "@ + join_with(yaml_items(e.1), ", "@))
        } else if e.0 == "blocks"@ && has_list_value(e) {
            before.push("Enables: "@ + join_with(yaml_items(e.1), ", "@))
        } else {
            before
        }
    }
}

/// The lines that a markdown task file's content adds: effort, brief
/// description (a blank line where it has none), relationships.
pub open spec fn content_lines(c: Seq<char>) -> Seq<char> {
    let entries = task_metadata(c);
    let d = brief_description(c);
    let rels = relationships(entries);
    effort_lines(entries) + (if d.len() > 0 {
        "-- "@ + d + "\n\n"@
    } else {
        "\n"@
    }) + (if rels.len() > 0 {
        "**Relationships:** "@ + join_with(rels, " \u{2022} "@) + "\n\n"@
    } else {
        seq![]
    })
}

/// How task `k` is shown: a heading with its title and place, and for a
/// markdown task the times of its file and what its content adds.
pub open spec fn task_block(tasks: Seq<Task>, files: Seq<TaskFileInfo>, k: int) -> Seq<char> {
    let t = tasks[k];
    "### "@ + t.title@ + " - "@ + t.location.file_path@ + line_suffix(t) + "\n"@ + if t.source
        == TaskSource::Markdown {
        stamp_line("- Created: "@, created_at(files, k)) + stamp_line(
            "- Modified: "@,
            modified_at(files, k),
        ) + match content_at(files, k) {
            Some(c) => content_lines(c),
            None => seq![],
        }
    } else {
        seq![]
    }
}

/// The sections of the first `m` rows: a `## name` heading where a section
/// starts (after a blank line that closes the one before), then each task.
pub open spec fn body_upto(tasks: Seq<Task>, files: Seq<TaskFileInfo>, rows: Seq<usize>, m: int) -> Seq<char>
    decreases m,
{
    if m <= 0 {
        seq![]
    } else {
        let j = m - 1;
        body_upto(tasks, files, rows, j) + (if heading_at(tasks, rows, j) {
            (if j > 0 {
                "\n"@
            } else {
                seq![]
            }) + "## "@ + row_name(tasks, rows, j) + "\n\n"@
        } else {
            seq![]
        }) + task_block(tasks, files, rows[j] as int)
    }
}

/// The header: format tag, generator, generation time, task count and the
/// command that regenerates the report.
pub open spec fn header_text(now: int, n: nat) -> Seq<char> {
    "---\n"@ + "format: extramark-todo-v1\n"@ + "generator: autodomd\n"@ + "generated_at: "@ + (
    match stamp(now) {
        Some(t) => t,
        None => seq![],
    }) + "\n"@ + "total_tasks: "@ + decimal(n) + "\n"@ + "regenerate_command: autodomd generate\n"@
        + "---\n\n"@ + "<!-- Auto-generated by autodomd; edits are overwritten. -->\n\n"@
        + "# Project Tasks\n\n"@
}

/// The notice that stands in place of sections when there are no tasks.
pub open spec fn empty_notice() -> Seq<char> {
    "*No tasks found.*\n"@
}

/// The whole report.
pub open spec fn report_text(tasks: Seq<Task>, files: Seq<TaskFileInfo>, include_header: bool, now: int) -> Seq<char> {
    let rows = report_rows(tasks, files);
    (if include_header {
        header_text(now, tasks.len())
    } else {
        seq![]
    }) + body_upto(tasks, files, rows, rows.len() as int) + if tasks.len() > 0 {
        "\n"@
    } else {
        empty_notice()
    }
}

fn push_decimal(out: &mut Vec<char>, n: usize)
    ensures
        final(out)@ == old(out)@ + decimal(n as nat),
{
    let d = decimal_exec(n);
    push_all(out, &d);
}

fn push_stamp_line(out: &mut Vec<char>, label: &str, secs: Option<i64>)
    ensures
        final(out)@ == old(out)@ + stamp_line(label@, secs),
{
    match secs {
        Some(s) => match format_timestamp(s, "%Y-%m-%dT%H:%M:%SZ") {
            Some(t) => {
                push_str(out, label);
                push_str(out, t.as_str());
                push_str(out, "\n");
                assert(out@ =~= old(out)@ + stamp_line(label@, secs));
            },
            None => {
                assert(out@ =~= old(out)@ + stamp_line(label@, secs));
            },
        },
        None => {
            assert(out@ =~= old(out)@ + stamp_line(label@, secs));
        },
    }
}

fn effort_lines_exec(entries: &Vec<(Vec<char>, Vec<char>)>) -> (r: Vec<char>)
    ensures
        r@ == effort_lines(pair_char_views(entries@)),
{
    let ghost es = pair_char_views(entries@);
    let mut out: Vec<char> = Vec::new();
    let mut k: usize = 0;
    while k < entries.len()
        invariant
            k <= entries@.len(),
            es == pair_char_views(entries@),
            out@ == effort_lines(es.subrange(0, k as int)),
        decreases entries@.len() - k,
    {
        assert(es.subrange(0, k + 1).drop_last() == es.subrange(0, k as int));
        assert(es.subrange(0, k + 1).last() == (entries@[k as int].0@, entries@[k as int].1@));
        let ghost before = out@;
        if eq_str(&entries[k].0, "estimated_effort") {
            push_str(&mut out, "- Effort: ");
            push_all(&mut out, &entries[k].1);
            push_str(&mut out, "\n");
            assert(out@ =~= before + ("- Effort: "@ + entries@[k as int].1@ + "\n"@));
        } else {
            assert(out@ =~= before + Seq::<char>::empty());
        }
        k = k + 1;
    }
    assert(es.subrange(0, entries@.len() as int) == es);
    out
}

fn relationships_exec(entries: &Vec<(Vec<char>, Vec<char>)>) -> (r: Vec<Vec<char>>)
    ensures
        views(r@) == relationships(pair_char_views(entries@)),
{
    let ghost es = pair_char_views(entries@);
    let mut out: Vec<Vec<char>> = Vec::new();
    let mut k: usize = 0;
    while k < entries.len()
        invariant
            k <= entries@.len(),
            es == pair_char_views(entries@),
            views(out@) == relationships(es.subrange(0, k as int)),
        decreases entries@.len() - k,
    {
        assert(es.subrange(0, k + 1).drop_last() == es.subrange(0, k as int));
        assert(es.subrange(0, k + 1).last() == (entries@[k as int].0@, entries@[k as int].1@));
        let ghost before = out@;
        let e = &entries[k];
        let listed = e.1.len() > 0 && !eq_str(&e.1, "[]");
        let label = if eq_str(&e.0, "dependencies") && listed {
            Some("Depends: ")
        } else if eq_str(&e.0, "blocks") && listed {
            Some("Enables: ")
        } else {
            None
        };
        match label {
            Some(l) => {
                let items = yaml_items_exec(&e.1);
                let joined = join_exec(&items, ", ");
                let mut line: Vec<char> = Vec::new();
                push_str(&mut line, l);
                push_all(&mut line, &joined);
                out.push(line);
                assert(views(out@) =~= views(before).push(out@[out@.len() - 1]@));
            },
            None => {},
        }
        k = k + 1;
    }
    assert(es.subrange(0, entries@.len() as int) == es);
    out
}

fn push_content_lines(out: &mut Vec<char>, c: &Vec<char>)
    ensures
        final(out)@ == old(out)@ + content_lines(c@),
{
    let entries = metadata_chars(c);
    let effort = effort_lines_exec(&entries);
    push_all(out, &effort);
    let d = brief_description_chars(c);
    let ghost mid = out@;
    if d.len() > 0 {
        push_str(out, "-- ");
        push_all(out, &d);
        push_str(out, "\n\n");
    } else {
        push_str(out, "\n");
    }
    let ghost mid2 = out@;
    let rels = relationships_exec(&entries);
    if rels.len() > 0 {
        let joined = join_exec(&rels, " \u{2022} ");
        push_str(out, "**Relationships:** ");
        push_all(out, &joined);
        push_str(out, "\n\n");
    }
    assert(out@ =~= old(out)@ + content_lines(c@));
}

/// What a markdown task adds under its heading.
pub open spec fn markdown_extras(files: Seq<TaskFileInfo>, k: int) -> Seq<char> {
    stamp_line("- Created: "@, created_at(files, k)) + stamp_line("- Modified: "@, modified_at(files, k))
        + match content_at(files, k) {
        Some(c) => content_lines(c),
        None => seq![],
    }
}

proof fn lemma_task_block(tasks: Seq<Task>, files: Seq<TaskFileInfo>, k: int)
    requires
        0 <= k < tasks.len(),
    ensures
        task_block(tasks, files, k) == "### "@ + tasks[k].title@ + " - "@ + tasks[k].location.file_path@
            + line_suffix(tasks[k]) + "\n"@ + if tasks[k].source == TaskSource::Markdown {
            markdown_extras(files, k)
        } else {
            seq![]
        },
{
}

fn push_markdown_extras(out: &mut Vec<char>, files: &Vec<TaskFileInfo>, k: usize)
    ensures
        final(out)@ == old(out)@ + markdown_extras(files@, k as int),
{
    let (created, modified) = if k < files.len() {
        (files[k].created, files[k].modified)
    } else {
        (None, None)
    };
    push_stamp_line(out, "- Created: ", created);
    push_stamp_line(out, "- Modified: ", modified);
    let ghost stamps = out@;
    assert(stamps =~= old(out)@ + (stamp_line("- Created: "@, created_at(files@, k as int)) + stamp_line(
        "- Modified: "@,
        modified_at(files@, k as int),
    )));
    if k < files.len() {
        match &files[k].content {
            Some(c) => {
                let cv = chars_of(c.as_str());
                push_content_lines(out, &cv);
            },
            None => {},
        }
    }
    assert(out@ =~= old(out)@ + markdown_extras(files@, k as int));
}

fn push_task_block(out: &mut Vec<char>, tasks: &Vec<Task>, files: &Vec<TaskFileInfo>, k: usize)
    requires
        k < tasks@.len(),
    ensures
        final(out)@ == old(out)@ + task_block(tasks@, files@, k as int),
{
    let t = &tasks[k];
    push_str(out, "### ");
    push_str(out, t.title.as_str());
    push_str(out, " - ");
    push_str(out, t.location.file_path.as_str());
    match t.location.line_number {
        Some(n) => {
            push_str(out, ":");
            push_decimal(out, n);
        },
        None => {},
    }
    push_str(out, "\n");
    let ghost head = out@;
    assert(head =~= old(out)@ + ("### "@ + t.title@ + " - "@ + t.location.file_path@ + line_suffix(*t)
        + "\n"@));
    proof {
        lemma_task_block(tasks@, files@, k as int);
    }
    if t.source == TaskSource::Markdown {
        push_markdown_extras(out, files, k);
        assert(out@ =~= old(out)@ + task_block(tasks@, files@, k as int));
    } else {
        assert(out@ =~= old(out)@ + task_block(tasks@, files@, k as int));
    }
}

fn row_le_exec(
    tasks: &Vec<Task>,
    names: &Vec<Vec<char>>,
    paths: &Vec<Vec<char>>,
    levels: &Vec<usize>,
    a: usize,
    b: usize,
) -> (r: bool)
    requires
        a < tasks@.len(),
        b < tasks@.len(),
        names@.len() == tasks@.len(),
        paths@.len() == tasks@.len(),
        levels@.len() == tasks@.len(),
        forall|k: int| 0 <= k < tasks@.len() ==> (#[trigger] names@[k])@ == category_name(tasks@[k].category),
        forall|k: int| 0 <= k < tasks@.len() ==> (#[trigger] paths@[k])@ == tasks@[k].location.file_path@,
    ensures
        r == row_le(tasks@, levels@, a as int, b as int),
{
    let c = cmp_text_exec(&names[a], &names[b]);
    if c != 0 {
        return c < 0;
    }
    if levels[a] != levels[b] {
        return levels[a] < levels[b];
    }
    let ra: u8 = match tasks[a].priority {
        crate::common::TaskPriority::Low => 0,
        crate::common::TaskPriority::Medium => 1,
        crate::common::TaskPriority::High => 2,
    };
    let rb: u8 = match tasks[b].priority {
        crate::common::TaskPriority::Low => 0,
        crate::common::TaskPriority::Medium => 1,
        crate::common::TaskPriority::High => 2,
    };
    if ra != rb {
        return ra > rb;
    }
    let p = cmp_text_exec(&paths[a], &paths[b]);
    if p != 0 {
        return p < 0;
    }
    match (tasks[a].location.line_number, tasks[b].location.line_number) {
        (None, _) => true,
        (Some(m), Some(n)) => m <= n,
        (Some(_), None) => false,
    }
}

/// The positions of `tasks` in report order.
pub fn report_order_exec(tasks: &Vec<Task>, levels: &Vec<usize>) -> (r: Vec<usize>)
    requires
        levels@.len() == tasks@.len(),
    ensures
        r@ == sort_by(positions(tasks@.len()), report_order(tasks@, levels@)),
{
    let n = tasks.len();
    let mut names: Vec<Vec<char>> = Vec::new();
    let mut paths: Vec<Vec<char>> = Vec::new();
    let mut k: usize = 0;
    while k < n
        invariant
            k <= n == tasks@.len(),
            names@.len() == k,
            paths@.len() == k,
            forall|m: int| 0 <= m < k ==> (#[trigger] names@[m])@ == category_name(tasks@[m].category),
            forall|m: int| 0 <= m < k ==> (#[trigger] paths@[m])@ == tasks@[m].location.file_path@,
        decreases n - k,
    {
        names.push(chars_of(tasks[k].category.display_name()));
        paths.push(chars_of(tasks[k].location.file_path.as_str()));
        k = k + 1;
    }
    let ghost orig = positions(n as nat);
    let ghost le = report_order(tasks@, levels@);
    let mut out: Vec<usize> = Vec::new();
    let mut i: usize = 0;
    assert(orig.subrange(0, 0) == Seq::<usize>::empty());
    while i < n
        invariant
            i <= n == tasks@.len(),
            orig == positions(n as nat),
            le == report_order(tasks@, levels@),
            levels@.len() == n,
            names@.len() == n,
            paths@.len() == n,
            forall|m: int| 0 <= m < n ==> (#[trigger] names@[m])@ == category_name(tasks@[m].category),
            forall|m: int| 0 <= m < n ==> (#[trigger] paths@[m])@ == tasks@[m].location.file_path@,
            out@ == sort_by(orig.subrange(0, i as int), le),
            forall|m: int| 0 <= m < out@.len() ==> (#[trigger] out@[m]) < n,
        decreases n - i,
    {
        proof {
            lemma_sort_by_len(orig.subrange(0, i as int), le);
            lemma_sort_by_multiset(orig.subrange(0, i as int), le);
        }
        let x = i;
        assert(orig[i as int] == x);
        let mut j: usize = out.len();
        while j > 0 && !row_le_exec(tasks, &names, &paths, levels, out[j - 1], x)
            invariant
                j <= out@.len(),
                x < n == tasks@.len(),
                levels@.len() == n,
                names@.len() == n,
                paths@.len() == n,
                forall|m: int| 0 <= m < n ==> (#[trigger] names@[m])@ == category_name(tasks@[m].category),
                forall|m: int| 0 <= m < n ==> (#[trigger] paths@[m])@ == tasks@[m].location.file_path@,
                forall|m: int| 0 <= m < out@.len() ==> (#[trigger] out@[m]) < n,
                forall|m: int| j <= m < out@.len() ==> !le(#[trigger] out@[m], x),
                le == report_order(tasks@, levels@),
            decreases j,
        {
            j = j - 1;
        }
        proof {
            lemma_insert_at(out@, x, le, j as int);
            lemma_sort_by_step(orig, i as int, le);
        }
        out.insert(j, x);
        i = i + 1;
    }
    assert(orig.subrange(0, n as int) == orig);
    out
}

/// The report for `tasks`, with what was read from the file behind each task
/// in `files` (by position; a task without an entry has nothing read), the
/// header included as `config` says and stamped with the instant `now`.
pub fn generate_markdown_content(
    tasks: &Vec<Task>,
    files: &Vec<TaskFileInfo>,
    config: &GeneratorConfig,
    now: i64,
) -> (r: String)
    ensures
        r@ == report_text(tasks@, files@, config.include_header, now as int),
{
    let mut out: Vec<char> = Vec::new();
    let n = tasks.len();
    if config.include_header {
        push_str(&mut out, "---\n");
        push_str(&mut out, "format: extramark-todo-v1\n");
        push_str(&mut out, "generator: autodomd\n");
        push_str(&mut out, "generated_at: ");
        match format_timestamp(now, "%Y-%m-%dT%H:%M:%SZ") {
            Some(t) => push_str(&mut out, t.as_str()),
            None => {},
        }
        push_str(&mut out, "\n");
        push_str(&mut out, "total_tasks: ");
        push_decimal(&mut out, n);
        push_str(&mut out, "\n");
        push_str(&mut out, "regenerate_command: autodomd generate\n");
        push_str(&mut out, "---\n\n");
        push_str(&mut out, "<!-- Auto-generated by autodomd; edits are overwritten. -->\n\n");
        push_str(&mut out, "# Project Tasks\n\n");
    }
    let ghost head = out@;
    assert(head =~= if config.include_header {
        header_text(now as int, n as nat)
    } else {
        seq![]
    });
    let levels = foundation_levels(tasks, files);
    assert(levels@ =~= levels_of(tasks@, files@));
    let rows = report_order_exec(tasks, &levels);
    let ghost rs = rows@;
    proof {
        lemma_report_order_total(tasks@, levels@);
        lemma_rows_in_range(tasks@, files@);
    }
    let mut j: usize = 0;
    while j < rows.len()
        invariant
            j <= rows@.len(),
            rs == rows@,
            rows@ == report_rows(tasks@, files@),
            forall|m: int| 0 <= m < rows@.len() ==> (#[trigger] rows@[m]) < tasks@.len(),
            out@ == head + body_upto(tasks@, files@, rs, j as int),
        decreases rows@.len() - j,
    {
        let ghost before = out@;
        let heading = if j == 0 {
            true
        } else {
            !tasks[rows[j]].category.eq(&tasks[rows[j - 1]].category)
        };
        assert(heading == heading_at(tasks@, rs, j as int));
        if heading {
            if j > 0 {
                push_str(&mut out, "\n");
            }
            push_str(&mut out, "## ");
            push_str(&mut out, tasks[rows[j]].category.display_name());
            push_str(&mut out, "\n\n");
        }
        let ghost mid = out@;
        assert(mid =~= before + if heading_at(tasks@, rs, j as int) {
            (if j > 0 {
                "\n"@
            } else {
                seq![]
            }) + "## "@ + row_name(tasks@, rs, j as int) + "\n\n"@
        } else {
            seq![]
        });
        push_task_block(&mut out, tasks, files, rows[j]);
        j = j + 1;
        assert(out@ =~= head + body_upto(tasks@, files@, rs, j as int));
    }
    if n > 0 {
        push_str(&mut out, "\n");
    } else {
        push_str(&mut out, "*No tasks found.*\n");
    }
    assert(out@ =~= report_text(tasks@, files@, config.include_header, now as int));
    string_of(&out)
}

/// Every row of the report is a position of the task list.
pub proof fn lemma_rows_in_range(tasks: Seq<Task>, files: Seq<TaskFileInfo>)
    ensures
        report_rows(tasks, files).len() == tasks.len(),
        forall|m: int|
            0 <= m < report_rows(tasks, files).len() ==> (#[trigger] report_rows(tasks, files)[m])
                < tasks.len(),
        report_rows(tasks, files).to_multiset() == positions(tasks.len()).to_multiset(),
{
    broadcast use vstd::seq_lib::group_to_multiset_ensures;

    let le = report_order(tasks, levels_of(tasks, files));
    let ps = positions(tasks.len());
    let rows = report_rows(tasks, files);
    lemma_sort_by_len(ps, le);
    lemma_sort_by_multiset(ps, le);
    assert forall|m: int| 0 <= m < rows.len() implies (#[trigger] rows[m]) < tasks.len() by {
        assert(rows.contains(rows[m]));
        assert(rows.to_multiset().count(rows[m]) > 0);
        assert(ps.contains(rows[m]));
    }
}

/// With no tasks, the report is the header (where asked for) and the
/// "no tasks found" notice.
pub proof fn lemma_empty_report(files: Seq<TaskFileInfo>, include_header: bool, now: int)
    ensures
        report_text(seq![], files, include_header, now) == (if include_header {
            header_text(now, 0)
        } else {
            seq![]
        }) + empty_notice(),
{
    let rows = report_rows(seq![], files);
    lemma_sort_by_len(positions(0), report_order(seq![], levels_of(seq![], files)));
    assert(rows.len() == 0);
    assert(body_upto(seq![], files, rows, 0) == Seq::<char>::empty());
}

/// The report's sections: each task of the list is shown exactly once; a
/// row shows a task of the category of the section it stands in; section
/// headings name distinct categories, one for each category of the list; and
/// without the header the report does not depend on the time.
pub proof fn lemma_report_sections(tasks: Seq<Task>, files: Seq<TaskFileInfo>, now1: int, now2: int)
    requires
        tasks.len() <= usize::MAX,
    ensures
        report_rows(tasks, files).to_multiset() == positions(tasks.len()).to_multiset(),
        forall|j: int|
            0 < j < report_rows(tasks, files).len() && !heading_at(tasks, report_rows(tasks, files), j)
                ==> #[trigger] row_name(tasks, report_rows(tasks, files), j) == row_name(
                tasks,
                report_rows(tasks, files),
                j - 1,
            ),
        forall|h1: int, h2: int|
            0 <= h1 < h2 < report_rows(tasks, files).len() && heading_at(
                tasks,
                report_rows(tasks, files),
                h1,
            ) && heading_at(tasks, report_rows(tasks, files), h2) ==> #[trigger] row_name(
                tasks,
                report_rows(tasks, files),
                h1,
            ) != #[trigger] row_name(tasks, report_rows(tasks, files), h2),
        forall|k: int|
            #![trigger tasks[k]]
            0 <= k < tasks.len() ==> exists|h: int|
                0 <= h < report_rows(tasks, files).len() && heading_at(
                    tasks,
                    report_rows(tasks, files),
                    h,
                ) && #[trigger] row_name(tasks, report_rows(tasks, files), h) == category_name(
                    tasks[k].category,
                ),
        report_text(tasks, files, false, now1) == report_text(tasks, files, false, now2),
{
    broadcast use vstd::seq_lib::group_to_multiset_ensures;

    let levels = levels_of(tasks, files);
    let le = report_order(tasks, levels);
    let rows = report_rows(tasks, files);
    lemma_rows_in_range(tasks, files);
    lemma_report_order_total(tasks, levels);
    lemma_sort_by_sorted(positions(tasks.len()), le);
    assert(sorted_by(rows, le));
    // names never decrease along the rows
    assert forall|i: int, j: int| 0 <= i < j < rows.len() implies cmp_text(
        #[trigger] row_name(tasks, rows, i),
        #[trigger] row_name(tasks, rows, j),
    ) <= 0 by {
        assert(le(rows[i], rows[j]));
    }
    assert forall|h1: int, h2: int|
        0 <= h1 < h2 < rows.len() && heading_at(tasks, rows, h1) && heading_at(
            tasks,
            rows,
            h2,
        ) implies #[trigger] row_name(tasks, rows, h1) != #[trigger] row_name(tasks, rows, h2) by {
        let (a, b, c) = (row_name(tasks, rows, h1), row_name(tasks, rows, h2 - 1), row_name(tasks, rows, h2));
        lemma_cmp_text_facts(b, c);
        if h1 < h2 - 1 {
            assert(cmp_text(a, b) <= 0);
        } else {
            lemma_cmp_text_facts(a, b);
        }
        assert(cmp_text(b, c) <= 0);
        lemma_cmp_text_trans(a, b, c);
        lemma_cmp_text_facts(a, c);
    }
    assert forall|k: int| #![trigger tasks[k]] 0 <= k < tasks.len() implies exists|h: int|
        0 <= h < rows.len() && heading_at(tasks, rows, h) && #[trigger] row_name(tasks, rows, h)
            == category_name(tasks[k].category) by {
        let x = k as usize;
        assert(positions(tasks.len())[k] == x);
        assert(positions(tasks.len()).to_multiset().count(x) > 0);
        assert(rows.to_multiset().count(x) > 0);
        assert(rows.contains(x));
        let j = choose|j: int| 0 <= j < rows.len() && rows[j] == x;
        lemma_section_heading(tasks, rows, j);
    }
}

/// The names of the section headings among the first `m` rows, in order.
pub open spec fn section_names(tasks: Seq<Task>, rows: Seq<usize>, m: int) -> Seq<Seq<char>>
    decreases m,
{
    if m <= 0 {
        seq![]
    } else {
        section_names(tasks, rows, m - 1) + if heading_at(tasks, rows, m - 1) {
            seq![row_name(tasks, rows, m - 1)]
        } else {
            seq![]
        }
    }
}

/// A report of tasks in K distinct categories has exactly K section headings.
pub proof fn lemma_section_count(tasks: Seq<Task>, files: Seq<TaskFileInfo>)
    requires
        tasks.len() <= usize::MAX,
    ensures
        section_names(tasks, report_rows(tasks, files), report_rows(tasks, files).len() as int).len()
            == names_of(tasks).to_set().len(),
{
    let rows = report_rows(tasks, files);
    let n = rows.len() as int;
    lemma_report_sections(tasks, files, 0, 0);
    lemma_rows_in_range(tasks, files);
    lemma_section_names_facts(tasks, rows, n);
    let sn = section_names(tasks, rows, n);
    let names = names_of(tasks);
    assert forall|x: Seq<char>| sn.to_set().contains(x) implies names.to_set().contains(x) by {
        let i = choose|i: int| 0 <= i < sn.len() && sn[i] == x;
        assert(heading_named(tasks, rows, n, sn[i]));
        let h = choose|h: int| 0 <= h < n && heading_at(tasks, rows, h) && row_name(tasks, rows, h) == sn[i];
        let k = rows[h] as int;
        assert(names[k] == x);
    }
    assert forall|x: Seq<char>| names.to_set().contains(x) implies sn.to_set().contains(x) by {
        let k = choose|k: int| 0 <= k < names.len() && names[k] == x;
        assert(names[k] == category_name(tasks[k].category));
        let h = choose|h: int|
            0 <= h < rows.len() && heading_at(tasks, rows, h) && #[trigger] row_name(tasks, rows, h)
                == category_name(tasks[k].category);
        assert(sn.contains(row_name(tasks, rows, h)));
    }
    assert(sn.to_set() =~= names.to_set());
    sn.unique_seq_to_set();
}

/// Some heading row before `m` has the name `x`.
pub open spec fn heading_named(tasks: Seq<Task>, rows: Seq<usize>, m: int, x: Seq<char>) -> bool {
    exists|h: int| 0 <= h < m && heading_at(tasks, rows, h) && row_name(tasks, rows, h) == x
}

/// The section names of the first `m` rows are distinct, each the name of a
/// heading row before `m`, and every heading row before `m` is among them.
proof fn lemma_section_names_facts(tasks: Seq<Task>, rows: Seq<usize>, m: int)
    requires
        0 <= m <= rows.len(),
        forall|h1: int, h2: int|
            0 <= h1 < h2 < rows.len() && heading_at(tasks, rows, h1) && heading_at(tasks, rows, h2)
                ==> #[trigger] row_name(tasks, rows, h1) != #[trigger] row_name(tasks, rows, h2),
    ensures
        section_names(tasks, rows, m).no_duplicates(),
        forall|i: int|
            0 <= i < section_names(tasks, rows, m).len() ==> heading_named(
                tasks,
                rows,
                m,
                #[trigger] section_names(tasks, rows, m)[i],
            ),
        forall|h: int|
            0 <= h < m && heading_at(tasks, rows, h) ==> section_names(tasks, rows, m).contains(
                #[trigger] row_name(tasks, rows, h),
            ),
    decreases m,
{
    if m > 0 {
        lemma_section_names_facts(tasks, rows, m - 1);
        let before = section_names(tasks, rows, m - 1);
        let now = section_names(tasks, rows, m);
        if heading_at(tasks, rows, m - 1) {
            let x = row_name(tasks, rows, m - 1);
            assert(now == before.push(x));
            assert(!before.contains(x)) by {
                if before.contains(x) {
                    let i = choose|i: int| 0 <= i < before.len() && before[i] == x;
                    assert(heading_named(tasks, rows, m - 1, before[i]));
                    let h = choose|h: int|
                        0 <= h < m - 1 && heading_at(tasks, rows, h) && row_name(tasks, rows, h)
                            == before[i];
                    assert(row_name(tasks, rows, h) != row_name(tasks, rows, m - 1));
                }
            }
            assert forall|i: int| 0 <= i < now.len() implies heading_named(tasks, rows, m, #[trigger] now[i]) by {
                if i < before.len() {
                    assert(now[i] == before[i]);
                    assert(heading_named(tasks, rows, m - 1, before[i]));
                    let h = choose|h: int|
                        0 <= h < m - 1 && heading_at(tasks, rows, h) && row_name(tasks, rows, h)
                            == before[i];
                    assert(0 <= h < m && heading_at(tasks, rows, h) && row_name(tasks, rows, h) == now[i]);
                } else {
                    assert(now[i] == x);
                    assert(0 <= m - 1 < m && heading_at(tasks, rows, m - 1) && row_name(tasks, rows, m - 1)
                        == now[i]);
                }
            }
            assert forall|h: int| 0 <= h < m && heading_at(tasks, rows, h) implies now.contains(
                #[trigger] row_name(tasks, rows, h),
            ) by {
                if h < m - 1 {
                    let i = choose|i: int| 0 <= i < before.len() && before[i] == row_name(tasks, rows, h);
                    assert(now[i] == before[i]);
                } else {
                    assert(now[now.len() - 1] == x);
                }
            }
        } else {
            assert(now == before);
            assert forall|i: int| 0 <= i < now.len() implies heading_named(tasks, rows, m, #[trigger] now[i]) by {
                assert(heading_named(tasks, rows, m - 1, before[i]));
                let h = choose|h: int|
                    0 <= h < m - 1 && heading_at(tasks, rows, h) && row_name(tasks, rows, h)
                        == before[i];
                assert(0 <= h < m && heading_at(tasks, rows, h) && row_name(tasks, rows, h) == now[i]);
            }
        }
    }
}

/// Some section heading at or before row `j` names the category of row `j`.
proof fn lemma_section_heading(tasks: Seq<Task>, rows: Seq<usize>, j: int)
    requires
        0 <= j < rows.len(),
    ensures
        exists|h: int|
            0 <= h <= j && heading_at(tasks, rows, h) && #[trigger] row_name(tasks, rows, h)
                == row_name(tasks, rows, j),
    decreases j,
{
    if heading_at(tasks, rows, j) {
        assert(row_name(tasks, rows, j) == row_name(tasks, rows, j));
    } else {
        lemma_section_heading(tasks, rows, j - 1);
    }
}

/// The category names of the tasks, in list order.
pub open spec fn names_of(tasks: Seq<Task>) -> Seq<Seq<char>> {
    tasks.map_values(|t: Task| category_name(t.category))
}

/// How many of the names from position `i` on, consecutively, equal the one at `i`.
pub open spec fn run_len(ns: Seq<String>, i: int) -> nat
    decreases ns.len() - i,
{
    if i < 0 || i >= ns.len() {
        0
    } else if i + 1 < ns.len() && ns[i + 1]@ == ns[i]@ {
        1 + run_len(ns, i + 1)
    } else {
        1
    }
}

/// The summary lines of the first `m` sorted names: one `- **name**: count
/// tasks` line where a run of equal names starts.
pub open spec fn summary_upto(ns: Seq<String>, m: int) -> Seq<char>
    decreases m,
{
    if m <= 0 {
        seq![]
    } else {
        let i = m - 1;
        summary_upto(ns, i) + if i == 0 || ns[i]@ != ns[i - 1]@ {
            "- **"@ + ns[i]@ + "**: "@ + decimal(run_len(ns, i)) + " tasks\n"@
        } else {
            seq![]
        }
    }
}

/// The summary: a `## Task Summary` heading, then the task count of each
/// category in name order, or the "no tasks found" notice.
pub open spec fn summary_text(sorted_names: Seq<String>) -> Seq<char> {
    "## Task Summary\n\n"@ + if sorted_names.len() == 0 {
        empty_notice()
    } else {
        summary_upto(sorted_names, sorted_names.len() as int)
    }
}

pub open spec fn string_views(v: Seq<String>) -> Seq<Seq<char>> {
    v.map_values(|s: String| s@)
}

proof fn lemma_run_len_bound(ns: Seq<String>, i: int)
    ensures
        run_len(ns, i) <= ns.len(),
        0 <= i < ns.len() ==> run_len(ns, i) + i <= ns.len(),
    decreases ns.len() - i,
{
    if 0 <= i < ns.len() && i + 1 < ns.len() && ns[i + 1]@ == ns[i]@ {
        lemma_run_len_bound(ns, i + 1);
    }
}

/// A summary of how many tasks each category holds, categories in name order.
pub fn generate_summary(tasks: &Vec<Task>) -> (r: String)
    ensures
        exists|names: Seq<String>|
            string_views(names) == names_of(tasks@) && r@ == summary_text(
                #[trigger] sort_by(names, text_order()),
            ),
{
    let mut names: Vec<String> = Vec::new();
    let mut k: usize = 0;
    while k < tasks.len()
        invariant
            k <= tasks@.len(),
            names@.len() == k,
            forall|m: int| 0 <= m < k ==> (#[trigger] names@[m])@ == category_name(tasks@[m].category),
        decreases tasks@.len() - k,
    {
        names.push(tasks[k].category.to_string());
        k = k + 1;
    }
    let ghost all = names@;
    assert(string_views(all) =~= names_of(tasks@));
    let sorted = sort_texts(names);
    let ghost ns = sorted@;
    let mut out: Vec<char> = Vec::new();
    push_str(&mut out, "## Task Summary\n\n");
    if sorted.len() == 0 {
        push_str(&mut out, "*No tasks found.*\n");
        assert(out@ =~= summary_text(ns));
        return string_of(&out);
    }
    let ghost head = out@;
    let n = sorted.len();
    let mut i: usize = 0;
    while i < n
        invariant
            i <= n == sorted@.len() == ns.len(),
            ns == sorted@,
            out@ == head + summary_upto(ns, i as int),
        decreases n - i,
    {
        let ghost before = out@;
        let a = chars_of(sorted[i].as_str());
        let starts = if i == 0 {
            true
        } else {
            let b = chars_of(sorted[i - 1].as_str());
            let c = cmp_text_exec(&a, &b);
            proof {
                lemma_cmp_text_facts(a@, b@);
            }
            c != 0
        };
        if starts {
            let mut j: usize = i + 1;
            proof {
                lemma_run_len_bound(ns, i as int);
            }
            while j < n && eq_str(&a, sorted[j].as_str())
                invariant
                    i < j <= n == ns.len(),
                    ns == sorted@,
                    a@ == ns[i as int]@,
                    run_len(ns, i as int) == (j - i) + run_len(ns, j - 1) - 1,
                    forall|m: int| i <= m < j ==> ns[m]@ == ns[i as int]@,
                decreases n - j,
            {
                j = j + 1;
            }
            assert(run_len(ns, j - 1) == 1);
            push_str(&mut out, "- **");
            push_str(&mut out, sorted[i].as_str());
            push_str(&mut out, "**: ");
            push_decimal(&mut out, j - i);
            push_str(&mut out, " tasks\n");
        }
        i = i + 1;
        assert(out@ =~= head + summary_upto(ns, i as int));
    }
    assert(out@ =~= summary_text(ns));
    string_of(&out)
}

} // verus!

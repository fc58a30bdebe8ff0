//! The task model shared by the scanner, the parsers and the report:
//! where a task was found, its category and priority, and collections of tasks.
use vstd::prelude::*;
use crate::order::{
    cmp_text, cmp_text_exec, lemma_cmp_text_facts, lemma_cmp_text_trans, lemma_insert_at,
    lemma_sort_by_idempotent, lemma_sort_by_len, lemma_sort_by_multiset, lemma_sort_by_sorted,
    lemma_sort_by_step, sort_by, sorted_by, total_preorder,
};
use crate::text::{chars_of, decimal, decimal_exec, push_all, push_str, string_of};

verus! {

/// Where a task comes from.
#[derive(Debug, Clone, Copy, PartialEq, Eq, Structural)]
pub enum TaskSource {
    /// A markdown task file under `todo/`.
    Markdown,
    /// A TODO comment in a source file.
    Code,
}

/// The file a task was found in, with the 1-based line for comments.
#[derive(Debug, Clone, PartialEq, Eq)]
pub struct TaskLocation {
    pub file_path: String,
    pub line_number: Option<usize>,
}

impl TaskLocation {
    pub fn new(file_path: String, line_number: Option<usize>) -> (r: Self)
        ensures
            r.file_path == file_path,
            r.line_number == line_number,
    {
        TaskLocation { file_path, line_number }
    }

    /// A location that names a whole file.
    pub fn from_markdown_file(file_path: String) -> (r: Self)
        ensures
            r.file_path == file_path,
            r.line_number is None,
    {
        Self::new(file_path, None)
    }

    /// A location that names one line of a file.
    pub fn from_source_file(file_path: String, line_number: usize) -> (r: Self)
        ensures
            r.file_path == file_path,
            r.line_number == Some(line_number),
    {
        Self::new(file_path, Some(line_number))
    }

}

/// A grouping label: the general group or a named one.
#[derive(Debug, Clone)]
pub enum TaskCategory {
    General,
    Custom(String),
}

/// How urgent a task is; `Low < Medium < High`.
#[derive(Debug, Clone, Copy, PartialEq, Eq, Structural, PartialOrd, Ord)]
pub enum TaskPriority {
    Low,
    Medium,
    High,
}

/// The position of a priority in the order `Low < Medium < High`.
pub open spec fn priority_rank(p: TaskPriority) -> int {
    match p {
        TaskPriority::Low => 0,
        TaskPriority::Medium => 1,
        TaskPriority::High => 2,
    }
}

/// The name under which a category is shown and grouped.
pub open spec fn category_name(c: TaskCategory) -> Seq<char> {
    match c {
        TaskCategory::General => "General"@,
        TaskCategory::Custom(name) => name@,
    }
}

impl TaskCategory {
    /// The general category for an empty name, else the named one.
    pub fn from_str(s: &str) -> (r: Self)
        ensures
            s@.len() == 0 ==> r is General,
            s@.len() != 0 ==> (r matches TaskCategory::Custom(n) && n@ == s@),
    {
        let v = chars_of(s);
        if v.len() == 0 {
            TaskCategory::General
        } else {
            TaskCategory::Custom(string_of(&v))
        }
    }

    pub fn display_name(&self) -> (r: &str)
        ensures
            r@ == category_name(*self),
    {
        match self {
            TaskCategory::General => "General",
            TaskCategory::Custom(name) => name.as_str(),
        }
    }

    /// The display name, as an owned string.
    pub fn to_string(&self) -> (r: String)
        ensures
            r@ == category_name(*self),
    {
        let v = chars_of(self.display_name());
        string_of(&v)
    }
}

/// Two categories are equal when their display names are.
impl PartialEq for TaskCategory {
    fn eq(&self, other: &TaskCategory) -> (r: bool) {
        let a = chars_of(self.display_name());
        let b = chars_of(other.display_name());
        let c = cmp_text_exec(&a, &b);
        proof {
            lemma_cmp_text_facts(a@, b@);
        }
        c == 0
    }
}

impl vstd::std_specs::cmp::PartialEqSpecImpl for TaskCategory {
    open spec fn obeys_eq_spec() -> bool {
        true
    }

    open spec fn eq_spec(&self, other: &TaskCategory) -> bool {
        category_name(*self) == category_name(*other)
    }
}

impl Eq for TaskCategory {

}

/// One outstanding work item.
#[derive(Debug, Clone, PartialEq, Eq)]
pub struct Task {
    pub title: String,
    pub category: TaskCategory,
    pub priority: TaskPriority,
    pub location: TaskLocation,
    pub source: TaskSource,
}

/// The one-line form of a task: `- [ ] title (path:line)`, or
/// `- [ ] title (path)` when it names a whole file.
pub open spec fn task_line(t: Task) -> Seq<char> {
    match t.location.line_number {
        Some(n) => "- [ ] "@ + t.title@ + " ("@ + t.location.file_path@ + ":"@ + decimal(n as nat)
            + ")"@,
        None => "- [ ] "@ + t.title@ + " ("@ + t.location.file_path@ + ")"@,
    }
}

impl Task {
    pub fn new(
        title: String,
        category: TaskCategory,
        priority: TaskPriority,
        location: TaskLocation,
        source: TaskSource,
    ) -> (r: Self)
        ensures
            r.title == title,
            r.category == category,
            r.priority == priority,
            r.location == location,
            r.source == source,
    {
        Task { title, category, priority, location, source }
    }

    /// A markdown task of medium priority.
    pub fn from_markdown(title: String, category: TaskCategory, file_path: String) -> (r: Self)
        ensures
            r.title == title,
            r.category == category,
            r.priority == TaskPriority::Medium,
            r.location.file_path == file_path,
            r.location.line_number is None,
            r.source == TaskSource::Markdown,
    {
        Self::new(
            title,
            category,
            TaskPriority::Medium,
            TaskLocation::from_markdown_file(file_path),
            TaskSource::Markdown,
        )
    }

    /// A task from a source comment, of medium priority.
    pub fn from_code(title: String, category: TaskCategory, file_path: String, line_number: usize) -> (r: Self)
        ensures
            r.title == title,
            r.category == category,
            r.priority == TaskPriority::Medium,
            r.location.file_path == file_path,
            r.location.line_number == Some(line_number),
            r.source == TaskSource::Code,
    {
        Self::new(
            title,
            category,
            TaskPriority::Medium,
            TaskLocation::from_source_file(file_path, line_number),
            TaskSource::Code,
        )
    }

    /// A markdown task of the given priority.
    pub fn from_markdown_with_priority(
        title: String,
        category: TaskCategory,
        priority: TaskPriority,
        file_path: String,
    ) -> (r: Self)
        ensures
            r.title == title,
            r.category == category,
            r.priority == priority,
            r.location.file_path == file_path,
            r.location.line_number is None,
            r.source == TaskSource::Markdown,
    {
        Self::new(
            title,
            category,
            priority,
            TaskLocation::from_markdown_file(file_path),
            TaskSource::Markdown,
        )
    }

    /// The one-line form, as `task_line` gives it.
    pub fn to_string(&self) -> (r: String)
        ensures
            r@ == task_line(*self),
    {
        let mut out: Vec<char> = Vec::new();
        push_str(&mut out, "- [ ] ");
        push_str(&mut out, self.title.as_str());
        push_str(&mut out, " (");
        push_str(&mut out, self.location.file_path.as_str());
        match self.location.line_number {
            Some(n) => {
                push_str(&mut out, ":");
                let d = decimal_exec(n);
                push_all(&mut out, &d);
            },
            None => {},
        }
        push_str(&mut out, ")");
        string_of(&out)
    }
}

/// `a` comes before `b` or with it: by file path, then line (a whole file
/// before any of its lines, lower lines first), then title.
pub open spec fn location_le(a: Task, b: Task) -> bool {
    let c = cmp_text(a.location.file_path@, b.location.file_path@);
    c < 0 || (c == 0 && (line_before(a.location.line_number, b.location.line_number) || (
    a.location.line_number == b.location.line_number && cmp_text(a.title@, b.title@) <= 0)))
}

pub open spec fn line_before(x: Option<usize>, y: Option<usize>) -> bool {
    match (x, y) {
        (None, Some(_)) => true,
        (Some(m), Some(n)) => m < n,
        _ => false,
    }
}

/// The order of a sorted collection.
pub open spec fn location_order() -> spec_fn(Task, Task) -> bool {
    |a: Task, b: Task| location_le(a, b)
}

pub proof fn lemma_location_order_total()
    ensures
        total_preorder(location_order()),
{
    let le = location_order();
    assert forall|x: Task, y: Task| #[trigger] le(x, y) || le(y, x) by {
        lemma_cmp_text_facts(x.location.file_path@, y.location.file_path@);
        lemma_cmp_text_facts(x.title@, y.title@);
    }
    assert forall|x: Task, y: Task, z: Task| #[trigger] le(x, y) && #[trigger] le(y, z) implies le(
        x,
        z,
    ) by {
        lemma_cmp_text_facts(x.location.file_path@, y.location.file_path@);
        lemma_cmp_text_facts(y.location.file_path@, z.location.file_path@);
        lemma_cmp_text_facts(x.location.file_path@, z.location.file_path@);
        lemma_cmp_text_facts(x.title@, y.title@);
        lemma_cmp_text_facts(y.title@, z.title@);
        lemma_cmp_text_trans(x.location.file_path@, y.location.file_path@, z.location.file_path@);
        if x.location.line_number == y.location.line_number && y.location.line_number
            == z.location.line_number && cmp_text(x.title@, y.title@) <= 0 && cmp_text(
            y.title@,
            z.title@,
        ) <= 0 {
            lemma_cmp_text_trans(x.title@, y.title@, z.title@);
        }
    }
}

/// Whether `a` comes before `b` or with it in a sorted collection.
pub fn location_le_exec(a: &Task, b: &Task) -> (r: bool)
    ensures
        r == location_le(*a, *b),
{
    let pa = chars_of(a.location.file_path.as_str());
    let pb = chars_of(b.location.file_path.as_str());
    let c = cmp_text_exec(&pa, &pb);
    if c != 0 {
        return c < 0;
    }
    let lines_before = match (a.location.line_number, b.location.line_number) {
        (None, Some(_)) => true,
        (Some(m), Some(n)) => m < n,
        _ => false,
    };
    if lines_before {
        return true;
    }
    let same_line = match (a.location.line_number, b.location.line_number) {
        (None, None) => true,
        (Some(m), Some(n)) => m == n,
        _ => false,
    };
    if !same_line {
        return false;
    }
    let ta = chars_of(a.title.as_str());
    let tb = chars_of(b.title.as_str());
    cmp_text_exec(&ta, &tb) <= 0
}

/// An ordered sequence of tasks.
#[derive(Debug, Clone, Default)]
pub struct TaskCollection {
    pub tasks: Vec<Task>,
}

impl TaskCollection {
    pub fn new() -> (r: Self)
        ensures
            r.tasks@.len() == 0,
    {
        TaskCollection { tasks: Vec::new() }
    }

    pub fn add_task(&mut self, task: Task)
        ensures
            final(self).tasks@ == old(self).tasks@.push(task),
    {
        self.tasks.push(task);
    }

    /// Appends the given tasks, in order.
    pub fn extend(&mut self, tasks: Vec<Task>)
        ensures
            final(self).tasks@ == old(self).tasks@ + tasks@,
    {
        let mut more = tasks;
        self.tasks.append(&mut more);
    }

    pub fn all_tasks(&self) -> (r: &[Task])
        ensures
            r@ == self.tasks@,
    {
        self.tasks.as_slice()
    }

    pub fn len(&self) -> (r: usize)
        ensures
            r == self.tasks@.len(),
    {
        self.tasks.len()
    }

    pub fn is_empty(&self) -> (r: bool)
        ensures
            r == (self.tasks@.len() == 0),
    {
        self.tasks.is_empty()
    }

    /// Stable sort by file path, then line number (a whole file first), then title.
    pub fn sort(&mut self)
        ensures
            final(self).tasks@ == sort_by(old(self).tasks@, location_order()),
    {
        let ghost orig = self.tasks@;
        let ghost le = location_order();
        let mut out: Vec<Task> = Vec::new();
        let n = self.tasks.len();
        let mut i: usize = 0;
        assert(orig.subrange(0, 0) == Seq::<Task>::empty());
        while self.tasks.len() > 0
            invariant
                i + self.tasks@.len() == orig.len(),
                orig.len() == n,
                self.tasks@ == orig.subrange(i as int, orig.len() as int),
                out@ == sort_by(orig.subrange(0, i as int), le),
                le == location_order(),
            decreases self.tasks@.len(),
        {
            let x = self.tasks.remove(0);
            assert(x == orig[i as int]);
            proof {
                lemma_sort_by_len(orig.subrange(0, i as int), le);
            }
            let mut j: usize = out.len();
            while j > 0 && !location_le_exec(&out[j - 1], &x)
                invariant
                    j <= out@.len(),
                    forall|k: int| j <= k < out@.len() ==> !le(#[trigger] out@[k], x),
                    le == location_order(),
                decreases j,
            {
                j = j - 1;
            }
            proof {
                lemma_insert_at(out@, x, le, j as int);
                lemma_sort_by_step(orig, i as int, le);
            }
            out.insert(j, x);
            i = i + 1;
            assert(self.tasks@ == orig.subrange(i as int, orig.len() as int));
        }
        assert(orig.subrange(0, orig.len() as int) == orig);
        self.tasks = out;
    }
}

/// Sorting a collection twice leaves it as sorting it once does.
pub proof fn lemma_sort_idempotent(tasks: Seq<Task>)
    ensures
        sort_by(sort_by(tasks, location_order()), location_order()) == sort_by(
            tasks,
            location_order(),
        ),
{
    lemma_location_order_total();
    lemma_sort_by_idempotent(tasks, location_order());
}

/// A sorted collection is in location order and holds the same tasks, each
/// as often as before.
pub proof fn lemma_sort_orders(tasks: Seq<Task>)
    ensures
        sorted_by(sort_by(tasks, location_order()), location_order()),
        sort_by(tasks, location_order()).to_multiset() == tasks.to_multiset(),
{
    lemma_location_order_total();
    lemma_sort_by_sorted(tasks, location_order());
    lemma_sort_by_multiset(tasks, location_order());
}

/// What can go wrong in a run.
#[derive(Debug, Clone, PartialEq, Eq)]
pub enum TodoError {
    Io(String),
    Path(String),
    Parse(String),
    InvalidFormat(String),
}

impl TodoError {
    /// The message shown for this error.
    pub fn message(&self) -> (r: String)
        ensures
            r@ == match *self {
                TodoError::Io(m) => "IO error: "@ + m@,
                TodoError::Path(m) => "Path error: "@ + m@,
                TodoError::Parse(m) => "Parse error: "@ + m@,
                TodoError::InvalidFormat(m) => "Invalid file format: "@ + m@,
            },
    {
        let mut out: Vec<char> = Vec::new();
        match self {
            TodoError::Io(m) => {
                push_str(&mut out, "IO error: ");
                push_str(&mut out, m.as_str());
            },
            TodoError::Path(m) => {
                push_str(&mut out, "Path error: ");
                push_str(&mut out, m.as_str());
            },
            TodoError::Parse(m) => {
                push_str(&mut out, "Parse error: ");
                push_str(&mut out, m.as_str());
            },
            TodoError::InvalidFormat(m) => {
                push_str(&mut out, "Invalid file format: ");
                push_str(&mut out, m.as_str());
            },
        }
        string_of(&out)
    }
}

} // verus!

//! Settings and results of the three commands (`scan`, `generate`, `init`),
//! and the decisions they make on plain values.
use vstd::prelude::*;
use crate::common::{Task, TaskCollection};
use crate::order::sort_by;
use crate::common::location_order;
use crate::report::GeneratorConfig;
use crate::scanner::ScanConfig;
use crate::text::{chars_of, contains, contains_str, push_str, string_of};

verus! {

/// Settings of the `generate` command.
#[derive(Debug, Clone)]
pub struct GenerateCommandConfig {
    pub output_path: Option<String>,
    pub root_path: Option<String>,
    pub include_header: bool,
    pub verbose: bool,
}

impl GenerateCommandConfig {
    /// `TODO.md` under the current directory, with the header, quietly.
    pub fn default() -> (r: Self)
        ensures
            r.output_path matches Some(p) && p@ == "TODO.md"@,
            r.root_path matches Some(p) && p@ == "."@,
            r.include_header,
            !r.verbose,
    {
        GenerateCommandConfig {
            output_path: Some("TODO.md".to_string()),
            root_path: Some(".".to_string()),
            include_header: true,
            verbose: false,
        }
    }

    /// The report settings: unset paths become `TODO.md` and `.`.
    pub fn to_generator_config(&self) -> (r: GeneratorConfig)
        ensures
            r.output_path@ == match self.output_path {
                Some(p) => p@,
                None => "TODO.md"@,
            },
            r.root_path@ == match self.root_path {
                Some(p) => p@,
                None => "."@,
            },
            r.include_header == self.include_header,
    {
        let output_path = match &self.output_path {
            Some(p) => p.clone(),
            None => "TODO.md".to_string(),
        };
        let root_path = match &self.root_path {
            Some(p) => p.clone(),
            None => ".".to_string(),
        };
        GeneratorConfig { output_path, root_path, include_header: self.include_header }
    }
}

/// What the `generate` command did.
#[derive(Debug)]
pub struct GenerateResult {
    pub output_path: String,
    pub tasks_written: usize,
}

/// Settings of the `init` command.
#[derive(Debug, Clone)]
pub struct InitCommandConfig {
    pub create_samples: bool,
    pub verbose: bool,
}

impl InitCommandConfig {
    /// With sample files, quietly.
    pub fn default() -> (r: Self)
        ensures
            r.create_samples,
            !r.verbose,
    {
        InitCommandConfig { create_samples: true, verbose: false }
    }
}

/// What the `init` command did.
#[derive(Debug)]
pub struct InitResult {
    pub todo_dir_created: bool,
    pub sample_files_created: Vec<String>,
}

/// The new content of a source file that sample TODO comments are added to:
/// none where the file already mentions `TODO`, else the old content, a blank
/// line, and the samples.
pub fn with_sample_todos(existing: &str, samples: &str) -> (r: Option<String>)
    ensures
        contains(existing@, "TODO"@) ==> r is None,
        !contains(existing@, "TODO"@) ==> (r matches Some(s) && s@ == existing@ + "\n\n"@ + samples@),
{
    let e = chars_of(existing);
    if contains_str(&e, "TODO") {
        return None;
    }
    let mut out: Vec<char> = Vec::new();
    push_str(&mut out, existing);
    push_str(&mut out, "\n\n");
    push_str(&mut out, samples);
    Some(string_of(&out))
}

/// Settings of the `scan` command.
#[derive(Debug, Clone)]
pub struct ScanCommandConfig {
    pub root_path: Option<String>,
    pub follow_links: bool,
    pub max_depth: Option<usize>,
    pub verbose: bool,
}

impl ScanCommandConfig {
    /// The current directory, links not followed, ten levels deep, quietly.
    pub fn default() -> (r: Self)
        ensures
            r.root_path is None,
            !r.follow_links,
            r.max_depth == Some(10usize),
            !r.verbose,
    {
        ScanCommandConfig { root_path: None, follow_links: false, max_depth: Some(10), verbose: false }
    }

    /// The walk settings: an unset root becomes `.`.
    pub fn to_scan_config(&self) -> (r: ScanConfig)
        ensures
            r.root_path@ == match self.root_path {
                Some(p) => p@,
                None => "."@,
            },
            r.follow_links == self.follow_links,
            r.max_depth == self.max_depth,
    {
        let root_path = match &self.root_path {
            Some(p) => p.clone(),
            None => ".".to_string(),
        };
        ScanConfig { root_path, follow_links: self.follow_links, max_depth: self.max_depth }
    }
}

/// What the `scan` command found.
#[derive(Debug)]
pub struct ScanResult {
    pub tasks: TaskCollection,
    pub markdown_files_scanned: usize,
    pub source_files_scanned: usize,
    pub tasks_found: usize,
}

/// The result of a scan: the markdown tasks, then the source tasks, sorted
/// by place, with the counts of files read and tasks found.
pub fn assemble_scan(
    markdown_tasks: Vec<Task>,
    source_tasks: Vec<Task>,
    markdown_files_scanned: usize,
    source_files_scanned: usize,
) -> (r: ScanResult)
    ensures
        r.tasks.tasks@ == sort_by(markdown_tasks@ + source_tasks@, location_order()),
        r.tasks_found == markdown_tasks@.len() + source_tasks@.len(),
        r.markdown_files_scanned == markdown_files_scanned,
        r.source_files_scanned == source_files_scanned,
{
    let mut all = TaskCollection::new();
    all.extend(markdown_tasks);
    all.extend(source_tasks);
    assert(all.tasks@ =~= markdown_tasks@ + source_tasks@);
    all.sort();
    proof {
        crate::order::lemma_sort_by_len(markdown_tasks@ + source_tasks@, location_order());
    }
    let tasks_found = all.len();
    ScanResult { tasks: all, markdown_files_scanned, source_files_scanned, tasks_found }
}

} // verus!

use autodomd::commands::{assemble_scan, with_sample_todos, GenerateCommandConfig, ScanCommandConfig};
use autodomd::common::{Task, TaskCategory, TaskCollection, TaskLocation, TodoError};
use autodomd::scanner::{
    is_supported_source_file, select_markdown_files, select_source_files, should_exclude_dir,
};

fn code(title: &str, path: &str, line: usize) -> Task {
    Task::from_code(title.to_string(), TaskCategory::General, path.to_string(), line)
}

#[test]
fn sorting_twice_equals_sorting_once() {
    let mut c = TaskCollection::new();
    c.add_task(code("b", "z.rs", 2));
    c.add_task(code("a", "a.rs", 9));
    c.add_task(Task::from_markdown("m".to_string(), TaskCategory::General, "a.rs".to_string()));
    c.add_task(code("a", "a.rs", 1));
    c.sort();
    let once = c.tasks.clone();
    c.sort();
    assert_eq!(c.tasks, once);
    let order: Vec<(String, Option<usize>)> =
        once.iter().map(|t| (t.location.file_path.clone(), t.location.line_number)).collect();
    assert_eq!(
        order,
        vec![
            ("a.rs".to_string(), None),
            ("a.rs".to_string(), Some(1)),
            ("a.rs".to_string(), Some(9)),
            ("z.rs".to_string(), Some(2))
        ]
    );
}

#[test]
fn collection_basics() {
    let mut c = TaskCollection::new();
    assert!(c.is_empty());
    c.extend(vec![code("a", "a.rs", 1), code("b", "b.rs", 2)]);
    assert_eq!(c.len(), 2);
    assert_eq!(c.all_tasks()[1].title, "b");
}

#[test]
fn categories_compare_by_display_name() {
    assert!(TaskCategory::General == TaskCategory::Custom("General".to_string()));
    assert!(TaskCategory::Custom("A".to_string()) != TaskCategory::Custom("B".to_string()));
    assert!(matches!(TaskCategory::from_str(""), TaskCategory::General));
    assert_eq!(TaskCategory::from_str("Auth").display_name(), "Auth");
}

#[test]
fn task_line_form() {
    assert_eq!(code("fix", "a.rs", 12).to_string(), "- [ ] fix (a.rs:12)");
    let m = Task::from_markdown("plan".to_string(), TaskCategory::General, "todo/p.md".to_string());
    assert_eq!(m.to_string(), "- [ ] plan (todo/p.md)");
    assert_eq!(TaskLocation::from_source_file("x".to_string(), 3).line_number, Some(3));
}

#[test]
fn error_messages() {
    assert_eq!(TodoError::Io("gone".to_string()).message(), "IO error: gone");
    assert_eq!(TodoError::Path("p".to_string()).message(), "Path error: p");
    assert_eq!(TodoError::Parse("q".to_string()).message(), "Parse error: q");
    assert_eq!(TodoError::InvalidFormat("r".to_string()).message(), "Invalid file format: r");
}

#[test]
fn excluded_directories_are_skipped() {
    let paths = vec![
        "./src/main.rs".to_string(),
        "./node_modules/pkg/index.js".to_string(),
        "./.hidden/x.rs".to_string(),
        "./a/b/.cache/y.py".to_string(),
        "./target/debug/z.rs".to_string(),
        "./README.md".to_string(),
        "./lib/a.go".to_string(),
        "./.rs".to_string(),
    ];
    assert_eq!(select_source_files(paths), vec!["./lib/a.go".to_string(), "./src/main.rs".to_string()]);
    assert!(should_exclude_dir("node_modules"));
    assert!(should_exclude_dir(".anything"));
    assert!(!should_exclude_dir("src"));
    assert!(is_supported_source_file("a/b.tsx"));
    assert!(!is_supported_source_file("a/b.txt"));
}

#[test]
fn markdown_files_are_selected_and_sorted() {
    let paths = vec!["todo/b.md".to_string(), "todo/a.txt".to_string(), "todo/a.md".to_string()];
    assert_eq!(select_markdown_files(paths), vec!["todo/a.md".to_string(), "todo/b.md".to_string()]);
}

#[test]
fn scan_assembly_sorts_and_counts() {
    let r = assemble_scan(vec![code("m", "b.rs", 1)], vec![code("s", "a.rs", 5)], 1, 2);
    assert_eq!(r.tasks_found, 2);
    assert_eq!(r.tasks.tasks[0].title, "s");
    assert_eq!(r.markdown_files_scanned, 1);
    assert_eq!(r.source_files_scanned, 2);
}

#[test]
fn sample_todos_are_added_once() {
    assert_eq!(with_sample_todos("fn a() {}", "// TODO: x"), Some("fn a() {}\n\n// TODO: x".to_string()));
    assert_eq!(with_sample_todos("// TODO: old", "// TODO: x"), None);
}

#[test]
fn command_configs_fill_defaults() {
    let g = GenerateCommandConfig { output_path: None, root_path: None, include_header: false, verbose: false };
    let c = g.to_generator_config();
    assert_eq!(c.output_path, "TODO.md");
    assert_eq!(c.root_path, ".");
    assert!(!c.include_header);
    let s = ScanCommandConfig::default().to_scan_config();
    assert_eq!(s.root_path, ".");
    assert_eq!(s.max_depth, Some(10));
}

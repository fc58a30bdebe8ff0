use autodomd::generator::extract_yaml_metadata_block;
use autodomd::parser::extract_yaml_metadata;
use autodomd::common::{TaskCategory, TaskPriority, TaskSource};
use autodomd::parser::{
    extract_category_from_path, extract_first_h1, extract_priority_from_content,
    extract_todo_from_comment, get_comment_patterns, parse_markdown_content, parse_source_content,
    parse_todo_line,
};

#[test]
fn comment_patterns_per_extension() {
    assert_eq!(get_comment_patterns("rs"), vec!["//", "/*"]);
    assert_eq!(get_comment_patterns("py"), vec!["#"]);
    assert_eq!(get_comment_patterns("go"), vec!["//"]);
    assert_eq!(get_comment_patterns("php"), vec!["//", "#", "/*"]);
    assert_eq!(get_comment_patterns("unknown"), vec!["//", "#", "/*"]);
    for ext in ["rs", "js", "ts", "jsx", "tsx", "py", "java", "c", "cpp", "cc", "cxx", "h", "hpp", "go", "rb", "php", "swift", "kt", "scala"] {
        assert!(!get_comment_patterns(ext).is_empty());
        assert_eq!(get_comment_patterns(ext), get_comment_patterns(ext));
    }
}

#[test]
fn todo_with_category_yields_one_task() {
    let patterns = get_comment_patterns("rs");
    let task = parse_todo_line("// TODO(Auth): fix login bug", &patterns, 12, "a.rs").unwrap();
    assert_eq!(task.title, "fix login bug");
    assert!(matches!(&task.category, TaskCategory::Custom(n) if n == "Auth"));
    assert_eq!(task.location.file_path, "a.rs");
    assert_eq!(task.location.line_number, Some(12));
    assert_eq!(task.source, TaskSource::Code);
    assert_eq!(task.priority, TaskPriority::Medium);
}

#[test]
fn todo_without_category_is_general() {
    let patterns = get_comment_patterns("rs");
    let task = parse_todo_line("    // TODO: generic fix", &patterns, 1, "a.rs").unwrap();
    assert_eq!(task.title, "generic fix");
    assert!(matches!(task.category, TaskCategory::General));
}

#[test]
fn todo_inside_string_literal_is_ignored() {
    let patterns = get_comment_patterns("rs");
    assert!(parse_todo_line("let s = \"TODO: not a task\";", &patterns, 3, "a.rs").is_none());
    assert!(parse_todo_line("// nothing to do here", &patterns, 4, "a.rs").is_none());
}

#[test]
fn source_content_tasks_carry_line_numbers() {
    let content = "fn main() {}\n// TODO(Auth): fix login bug\nlet x = \"TODO: no\";\n# TODO: hash\n";
    let tasks = parse_source_content(content, "rs", "a.rs");
    assert_eq!(tasks.len(), 1);
    assert_eq!(tasks[0].location.line_number, Some(2));
    let py = parse_source_content("x = 1\n    # TODO(Data):   load it  \n", "py", "b.py");
    assert_eq!(py.len(), 1);
    assert_eq!(py[0].title, "load it");
    assert_eq!(py[0].location.line_number, Some(2));
}

#[test]
fn comment_extraction() {
    let m = extract_todo_from_comment(" TODO(UI) : colors ").unwrap();
    assert_eq!(m.title, "colors");
    assert!(matches!(&m.category, TaskCategory::Custom(n) if n == "UI"));
    assert!(extract_todo_from_comment("no marker").is_none());
}

#[test]
fn markdown_heading_gives_title_and_medium_priority() {
    let task = parse_markdown_content("todo/auth/login.md", "intro\n# Implement X\n\nbody\n");
    assert_eq!(task.title, "Implement X");
    assert!(matches!(&task.category, TaskCategory::Custom(n) if n == "Auth"));
    assert_eq!(task.priority, TaskPriority::Medium);
    assert_eq!(task.location.line_number, None);
    assert_eq!(task.source, TaskSource::Markdown);

    let flat = parse_markdown_content("todo/login.md", "# Implement X\n");
    assert!(matches!(flat.category, TaskCategory::General));
}

#[test]
fn markdown_without_heading_uses_file_stem() {
    let task = parse_markdown_content("todo/write-docs.md", "no heading here\n");
    assert_eq!(task.title, "write-docs");
    assert_eq!(extract_first_h1("#notaheading\n  # Real  \n"), Some("Real".to_string()));
}

#[test]
fn priority_from_metadata_block() {
    assert_eq!(extract_priority_from_content("# T\n```yaml\npriority: \"high\"\n```\n"), TaskPriority::High);
    assert_eq!(extract_priority_from_content("# T\n```\npriority: LOW\n```\n"), TaskPriority::Low);
    assert_eq!(extract_priority_from_content("# T\n```yaml\nestimated_effort: 1d\n```\n"), TaskPriority::Medium);
    assert_eq!(extract_priority_from_content("# T\n"), TaskPriority::Medium);
    assert_eq!(extract_priority_from_content("# T\n**Priority:** High\n"), TaskPriority::High);
}

#[test]
fn category_from_path() {
    assert!(matches!(extract_category_from_path("proj/todo/auth/x.md"), TaskCategory::Custom(n) if n == "Auth"));
    assert!(matches!(extract_category_from_path("todo/x.md"), TaskCategory::General));
    assert!(matches!(extract_category_from_path("docs/x.md"), TaskCategory::General));
}

#[test]
fn metadata_block_text_spans_its_lines() {
    let c = "# T\n```yaml\npriority: high\nblocks: x\n```\nrest\n";
    assert_eq!(extract_yaml_metadata(c), Some("priority: high\nblocks: x\n".to_string()));
    assert_eq!(extract_yaml_metadata_block(c), Some("priority: high\nblocks: x\n".to_string()));
    let bare = "```\ndependencies: []\n```\n";
    assert_eq!(extract_yaml_metadata_block(bare), Some("dependencies: []\n".to_string()));
    assert_eq!(extract_yaml_metadata("```\nplain code\n```\n"), None);
}

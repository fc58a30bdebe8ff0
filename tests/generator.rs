use autodomd::common::{Task, TaskCategory, TaskPriority};
use autodomd::generator::{
    clean_yaml_array, extract_brief_description, extract_task_metadata, foundation_levels,
    parse_folder_dependencies, TaskFileInfo,
};
use autodomd::report::{generate_markdown_content, generate_summary, GeneratorConfig};

fn markdown_task(title: &str, path: &str) -> Task {
    Task::from_markdown(title.to_string(), TaskCategory::General, path.to_string())
}

fn with_content(content: &str) -> TaskFileInfo {
    TaskFileInfo { content: Some(content.to_string()), created: None, modified: None }
}

#[test]
fn test_generate_markdown_content_empty() {
    let tasks = Vec::new();
    let config = GeneratorConfig::default();
    let content = generate_markdown_content(&tasks, &Vec::new(), &config, 0);

    assert!(content.contains("Auto-generated"));
    assert!(content.contains("No tasks found"));
}

#[test]
fn test_generate_markdown_content_with_tasks() {
    let task = Task::from_code(
        "Test task".to_string(),
        TaskCategory::General,
        "test.rs".to_string(),
        42,
    );

    let tasks = vec![task];
    let config = GeneratorConfig::default();
    let content = generate_markdown_content(&tasks, &Vec::new(), &config, 0);

    assert!(content.contains("Auto-generated"));
    assert!(content.contains("General"));
    assert!(content.contains("Test task"));
    assert!(content.contains("test.rs:42"));
}

#[test]
fn test_generate_summary() {
    let task1 = Task::from_code(
        "Task 1".to_string(),
        TaskCategory::General,
        "test.rs".to_string(),
        1,
    );

    let task2 = Task::from_code(
        "Task 2".to_string(),
        TaskCategory::Custom("Auth".to_string()),
        "auth.rs".to_string(),
        2,
    );

    let tasks = vec![task1, task2];
    let summary = generate_summary(&tasks);

    assert!(summary.contains("Task Summary"));
    assert!(summary.contains("General"));
    assert!(summary.contains("Auth"));
}

#[test]
fn summary_counts_each_category_in_name_order() {
    let tasks = vec![
        Task::from_code("a".to_string(), TaskCategory::General, "x.rs".to_string(), 1),
        Task::from_code("b".to_string(), TaskCategory::Custom("Auth".to_string()), "x.rs".to_string(), 2),
        Task::from_code("c".to_string(), TaskCategory::General, "y.rs".to_string(), 3),
    ];
    assert_eq!(
        generate_summary(&tasks),
        "## Task Summary\n\n- **Auth**: 1 tasks\n- **General**: 2 tasks\n"
    );
    assert_eq!(generate_summary(&Vec::new()), "## Task Summary\n\n*No tasks found.*\n");
}

#[test]
fn empty_report_holds_notice_and_header_fields() {
    let config = GeneratorConfig::default();
    let content = generate_markdown_content(&Vec::new(), &Vec::new(), &config, 0);
    assert!(content.starts_with("---\nformat: extramark-todo-v1\ngenerator: autodomd\n"));
    assert!(content.contains("generated_at: 1970-01-01T00:00:00Z\n"));
    assert!(content.contains("total_tasks: 0\n"));
    assert!(content.contains("regenerate_command: autodomd generate\n"));
    assert!(content.ends_with("*No tasks found.*\n"));

    let bare = GeneratorConfig { include_header: false, ..GeneratorConfig::default() };
    assert_eq!(generate_markdown_content(&Vec::new(), &Vec::new(), &bare, 0), "*No tasks found.*\n");
}

#[test]
fn report_has_one_section_per_category() {
    let tasks = vec![
        Task::from_code("login".to_string(), TaskCategory::Custom("Auth".to_string()), "b.rs".to_string(), 3),
        Task::from_code("misc".to_string(), TaskCategory::General, "a.rs".to_string(), 1),
        Task::from_code("logout".to_string(), TaskCategory::Custom("Auth".to_string()), "a.rs".to_string(), 9),
        Task::from_code("more".to_string(), TaskCategory::General, "c.rs".to_string(), 2),
    ];
    let config = GeneratorConfig { include_header: false, ..GeneratorConfig::default() };
    let content = generate_markdown_content(&tasks, &Vec::new(), &config, 0);
    let headings: Vec<&str> = content.lines().filter(|l| l.starts_with("## ")).collect();
    assert_eq!(headings, vec!["## Auth", "## General"]);
    assert_eq!(
        content,
        "## Auth\n\n### logout - a.rs:9\n### login - b.rs:3\n\n## General\n\n### misc - a.rs:1\n### more - c.rs:2\n\n"
    );
    let again = generate_markdown_content(&tasks, &Vec::new(), &config, 12345);
    assert_eq!(content, again);
}

#[test]
fn report_orders_by_priority_within_a_section() {
    let mut low = markdown_task("Low one", "todo/a.md");
    low.priority = TaskPriority::Low;
    let mut high = markdown_task("High one", "todo/b.md");
    high.priority = TaskPriority::High;
    let tasks = vec![low, high];
    let config = GeneratorConfig { include_header: false, ..GeneratorConfig::default() };
    let content = generate_markdown_content(&tasks, &Vec::new(), &config, 0);
    assert_eq!(content, "## General\n\n### High one - todo/b.md\n### Low one - todo/a.md\n\n");
}

#[test]
fn report_enriches_markdown_tasks() {
    let body = "# Build it\n\n```yaml\npriority: high\ndependencies: [\"setup\"]\nblocks: [\"ship\"]\nestimated_effort: \"2 days\"\n```\n\n## Overview\nFirst sentence. Second one.\n\n## Details\nMore.\n";
    let tasks = vec![markdown_task("Build it", "todo/build.md"), markdown_task("Setup", "todo/setup.md")];
    let files = vec![
        TaskFileInfo { content: Some(body.to_string()), created: Some(0), modified: Some(86400) },
        TaskFileInfo::unknown(),
    ];
    let config = GeneratorConfig { include_header: false, ..GeneratorConfig::default() };
    let content = generate_markdown_content(&tasks, &files, &config, 0);
    assert_eq!(
        content,
        "## General\n\n### Setup - todo/setup.md\n### Build it - todo/build.md\n- Created: 1970-01-01T00:00:00Z\n- Modified: 1970-01-02T00:00:00Z\n- Effort: 2 days\n-- First sentence.\n\n**Relationships:** Depends: setup \u{2022} Enables: ship\n\n\n"
    );
}

#[test]
fn foundation_level_counts_folder_and_listed_dependencies() {
    let tasks = vec![
        markdown_task("Build it", "todo/010-core-functionality/build.md"),
        markdown_task("Setup", "todo/setup.md"),
    ];
    let files = vec![with_content("```yaml\ndependencies: [\"setup\", \"unknown-thing\"]\n```\n"), TaskFileInfo::unknown()];
    assert_eq!(foundation_levels(&tasks, &files), vec![2, 0]);
}

#[test]
fn clean_yaml_array_lists_items() {
    assert_eq!(clean_yaml_array("[\"a\", \"b\", ]"), "a, b");
    assert_eq!(clean_yaml_array("single"), "single");
    assert_eq!(clean_yaml_array("[]"), "");
}

#[test]
fn metadata_entries_come_from_the_block() {
    let content = "# T\n```yaml\npriority: \"high\"\n# comment\nempty:\nestimated_effort: 3h\n```\nkey: outside\n";
    let entries = extract_task_metadata(content);
    assert_eq!(
        entries,
        vec![
            ("priority".to_string(), "high".to_string()),
            ("estimated_effort".to_string(), "3h".to_string())
        ]
    );
    assert!(extract_task_metadata("no block here\n").is_empty());
}

#[test]
fn folder_dependencies_follow_the_parent_table() {
    assert_eq!(
        parse_folder_dependencies("todo/050-advanced-features/x.md"),
        Some(vec!["Implement Advanced Features".to_string()])
    );
    assert_eq!(parse_folder_dependencies("todo/x.md"), None);
    assert_eq!(parse_folder_dependencies("todo/other/x.md"), None);
}

#[test]
fn brief_description_takes_first_sentence_or_prefix() {
    let c = "# T\n\n## Overview\nDoes a thing. And more.\n\n## Next\n";
    assert_eq!(extract_brief_description(c), "Does a thing.");
    let long = format!("## Overview\n{}\n", "x".repeat(250));
    assert_eq!(extract_brief_description(&long), format!("{}...", "x".repeat(200)));
    assert_eq!(extract_brief_description("# T\nno overview\n"), "");
}

use auto_doc::settings::{Component, CrawlOptions, FileType, Project};

#[test]
fn test_crawl_options_default() {
    let options = CrawlOptions::default();
    assert_eq!(options.max_depth, None);
    assert!(!options.include_hidden);
    assert!(options.include_patterns.is_empty());
    assert!(options.exclude_patterns.is_empty());
    assert!(!options.git_mode);
}

#[test]
fn test_crawl_options_equality() {
    let options1 = CrawlOptions {
        max_depth: Some(5),
        include_hidden: true,
        include_patterns: vec!["*.rs".to_string(), "*.toml".to_string()],
        exclude_patterns: vec!["target/".to_string()],
        git_mode: true,
    };

    let options2 = CrawlOptions {
        max_depth: Some(5),
        include_hidden: true,
        include_patterns: vec!["*.rs".to_string(), "*.toml".to_string()],
        exclude_patterns: vec!["target/".to_string()],
        git_mode: true,
    };

    assert_eq!(options1, options2);
}

#[test]
fn crawl_options_inequality() {
    let base = CrawlOptions::default();
    let other = CrawlOptions {
        include_patterns: vec!["*.md".to_string()],
        ..CrawlOptions::default()
    };
    assert!(base != other);
}

#[test]
fn registry_defaults() {
    let component = Component::default();
    assert_eq!(component.relative_path, "doc-reader/_docs");
    let project = Project::default();
    assert_eq!(project.location, "/home/user/repos/auto-doc");
    assert_eq!(project.components.len(), 1);
    assert_eq!(project.components[0].0, "doc-reader");
    let _ = FileType::Toml;
}

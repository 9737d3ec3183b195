use auto_doc::markdown::{MarkdownConfig, MarkdownGenerator};

#[test]
fn config_defaults() {
    let config = MarkdownConfig::default();
    assert_eq!(config.output_dir, "./_docs");
    assert!(config.create_directory_indices);
    assert_eq!(config.directory_index_name, "README.md");
    assert!(config.project_root.is_none());
}

#[test]
fn builder_chains() {
    let config = MarkdownConfig::builder()
        .output_dir("out".to_string())
        .no_directory_indices()
        .use_index_md()
        .project_root("/repo".to_string())
        .build();
    assert_eq!(config.output_dir, "out");
    assert!(!config.create_directory_indices);
    assert_eq!(config.directory_index_name, "index.md");
    assert_eq!(config.project_root.as_deref(), Some("/repo"));

    let config2 = MarkdownConfig::builder()
        .create_directory_indices(true)
        .directory_index_name("SUMMARY.md".to_string())
        .no_project_root()
        .build();
    assert!(config2.create_directory_indices);
    assert_eq!(config2.directory_index_name, "SUMMARY.md");
    assert!(config2.project_root.is_none());

    let generator = MarkdownGenerator::new(config);
    assert_eq!(generator.config.output_dir, "out");
}

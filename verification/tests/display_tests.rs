use auto_doc::analysis::{FileAnalysis, Interface, InterfaceType};

#[test]
fn test_interface_display() {
    let interface = Interface {
        name: "parse_config".to_string(),
        interface_type: InterfaceType::Function,
        description: "Parses configuration from TOML file".to_string(),
    };

    let expected = "- **parse_config** (`🔧 Function`)\n  Parses configuration from TOML file";
    assert_eq!(interface.render(), expected);
}

#[test]
fn test_file_analysis_display() {
    let analysis = FileAnalysis {
        file_path: "src/config.rs".to_string(),
        file_type: "rs".to_string(),
        summary: "Configuration management module. Handles parsing and validation of application settings.".to_string(),
        external_dependencies: vec!["serde".to_string(), "toml".to_string()],
        public_interfaces: vec![
            Interface {
                name: "Config".to_string(),
                interface_type: InterfaceType::Struct,
                description: "Main configuration struct".to_string(),
            }
        ],
    };

    let output = analysis.render();
    assert!(output.contains("# 📄 File Analysis: `src/config.rs`"));
    assert!(output.contains("**Type:** `rs`"));
    assert!(output.contains("## 📚 External Dependencies"));
    assert!(output.contains("- `serde`"));
}

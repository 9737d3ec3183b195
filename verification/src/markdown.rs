//! Configuration for the markdown output layer.

use vstd::prelude::*;

verus! {

/// Where and how markdown files are laid out.
#[derive(Debug)]
pub struct MarkdownConfig {
    pub output_dir: String,
    pub create_directory_indices: bool,
    pub directory_index_name: String,
    pub project_root: Option<String>,
}

impl Default for MarkdownConfig {
    /// Writes into `./_docs` with `README.md` directory indices and no root
    /// to strip.
    fn default() -> (r: Self)
        ensures
            r.output_dir@ == "./_docs"@,
            r.create_directory_indices == true,
            r.directory_index_name@ == "README.md"@,
            r.project_root is None,
    {
        MarkdownConfig {
            output_dir: "./_docs".to_owned(),
            create_directory_indices: true,
            directory_index_name: "README.md".to_owned(),
            project_root: None,
        }
    }
}

impl MarkdownConfig {
    /// Create a new builder.
    pub fn builder() -> (r: MarkdownConfigBuilder)
        ensures
            r.config.output_dir@ == "./_docs"@,
            r.config.create_directory_indices == true,
            r.config.directory_index_name@ == "README.md"@,
            r.config.project_root is None,
    {
        MarkdownConfigBuilder::new()
    }
}

/// Builder for `MarkdownConfig` with a fluent interface.
#[derive(Debug)]
pub struct MarkdownConfigBuilder {
    pub config: MarkdownConfig,
}

impl MarkdownConfigBuilder {
    /// Create a new builder with default values.
    pub fn new() -> (r: Self)
        ensures
            r.config.output_dir@ == "./_docs"@,
            r.config.create_directory_indices == true,
            r.config.directory_index_name@ == "README.md"@,
            r.config.project_root is None,
    {
        MarkdownConfigBuilder { config: MarkdownConfig::default() }
    }

    /// Set the output directory where markdown files will be written.
    pub fn output_dir(self, dir: String) -> (r: Self)
        ensures
            r.config == (MarkdownConfig { output_dir: dir, ..self.config }),
    {
        MarkdownConfigBuilder { config: MarkdownConfig { output_dir: dir, ..self.config } }
    }

    /// Set whether to create directory index files.
    pub fn create_directory_indices(self, create: bool) -> (r: Self)
        ensures
            r.config == (MarkdownConfig { create_directory_indices: create, ..self.config }),
    {
        MarkdownConfigBuilder {
            config: MarkdownConfig { create_directory_indices: create, ..self.config },
        }
    }

    /// Disable directory index file creation.
    pub fn no_directory_indices(self) -> (r: Self)
        ensures
            r.config == (MarkdownConfig { create_directory_indices: false, ..self.config }),
    {
        MarkdownConfigBuilder {
            config: MarkdownConfig { create_directory_indices: false, ..self.config },
        }
    }

    /// Set the name for directory index files.
    pub fn directory_index_name(self, name: String) -> (r: Self)
        ensures
            r.config == (MarkdownConfig { directory_index_name: name, ..self.config }),
    {
        MarkdownConfigBuilder {
            config: MarkdownConfig { directory_index_name: name, ..self.config },
        }
    }

    /// Use `index.md` instead of `README.md` for directory indices.
    pub fn use_index_md(self) -> (r: Self)
        ensures
            r.config.output_dir == self.config.output_dir,
            r.config.create_directory_indices == self.config.create_directory_indices,
            r.config.directory_index_name@ == "index.md"@,
            r.config.project_root == self.config.project_root,
    {
        MarkdownConfigBuilder {
            config: MarkdownConfig {
                directory_index_name: "index.md".to_owned(),
                ..self.config
            },
        }
    }

    /// Set the project root path to strip from file paths.
    pub fn project_root(self, root: String) -> (r: Self)
        ensures
            r.config == (MarkdownConfig { project_root: Some(root), ..self.config }),
    {
        MarkdownConfigBuilder {
            config: MarkdownConfig { project_root: Some(root), ..self.config },
        }
    }

    /// Clear the project root.
    pub fn no_project_root(self) -> (r: Self)
        ensures
            r.config == (MarkdownConfig { project_root: None, ..self.config }),
    {
        MarkdownConfigBuilder { config: MarkdownConfig { project_root: None, ..self.config } }
    }

    /// Build the final configuration.
    pub fn build(self) -> (r: MarkdownConfig)
        ensures
            r == self.config,
    {
        self.config
    }
}

impl Default for MarkdownConfigBuilder {
    /// The builder with default values.
    fn default() -> (r: Self)
        ensures
            r.config.output_dir@ == "./_docs"@,
            r.config.create_directory_indices == true,
            r.config.directory_index_name@ == "README.md"@,
            r.config.project_root is None,
    {
        MarkdownConfigBuilder::new()
    }
}

/// Generates markdown documentation from analysis results; the writing
/// itself happens at the program's edge.
#[derive(Debug)]
pub struct MarkdownGenerator {
    pub config: MarkdownConfig,
}

impl MarkdownGenerator {
    /// A generator with the given configuration.
    pub fn new(config: MarkdownConfig) -> (r: Self)
        ensures
            r.config == config,
    {
        MarkdownGenerator { config }
    }
}

} // verus!

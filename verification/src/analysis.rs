//! The structured analysis results a backend is asked to produce, and the
//! context that shapes the prompts.

use vstd::prelude::*;

verus! {

/// Category of a public interface reported in an analysis.
#[derive(Debug, Clone, Copy, PartialEq, Eq, Structural)]
pub enum InterfaceType {
    Function,
    Struct,
    Trait,
    Module,
    Api,
    Configuration,
    DataModel,
}

/// The display label of an interface category.
pub open spec fn interface_type_label(t: InterfaceType) -> Seq<char> {
    match t {
        InterfaceType::Function => "🔧 Function"@,
        InterfaceType::Struct => "📦 Struct"@,
        InterfaceType::Trait => "🎯 Trait"@,
        InterfaceType::Module => "📁 Module"@,
        InterfaceType::Api => "🌐 API"@,
        InterfaceType::Configuration => "⚙️ Configuration"@,
        InterfaceType::DataModel => "🗄️ Data Model"@,
    }
}

impl InterfaceType {
    /// The display label of this category.
    pub fn label(&self) -> (r: &'static str)
        ensures
            r@ == interface_type_label(*self),
    {
        match self {
            InterfaceType::Function => "🔧 Function",
            InterfaceType::Struct => "📦 Struct",
            InterfaceType::Trait => "🎯 Trait",
            InterfaceType::Module => "📁 Module",
            InterfaceType::Api => "🌐 API",
            InterfaceType::Configuration => "⚙️ Configuration",
            InterfaceType::DataModel => "🗄️ Data Model",
        }
    }
}

/// One public interface of an analyzed component.
#[derive(Debug)]
pub struct Interface {
    pub name: String,
    pub interface_type: InterfaceType,
    pub description: String,
}

/// The rendered form of one interface entry.
pub open spec fn interface_render_spec(i: Interface) -> Seq<char> {
    "- **"@ + i.name@ + "** (`"@ + interface_type_label(i.interface_type) + "`)\n  "@
        + i.description@
}

impl Interface {
    /// Renders the interface as one markdown list entry.
    pub fn render(&self) -> (r: String)
        ensures
            r@ == interface_render_spec(*self),
    {
        let mut out = "- **".to_owned();
        out.append(self.name.as_str());
        out.append("** (`");
        out.append(self.interface_type.label());
        out.append("`)\n  ");
        out.append(self.description.as_str());
        out
    }
}

/// The structured analysis of one source file.
#[derive(Debug)]
pub struct FileAnalysis {
    pub file_path: String,
    pub file_type: String,
    pub summary: String,
    pub external_dependencies: Vec<String>,
    pub public_interfaces: Vec<Interface>,
}

/// The rendered dependency lines, one per dependency.
pub open spec fn dep_lines_spec(deps: Seq<String>) -> Seq<char>
    decreases deps,
{
    if deps.len() == 0 {
        Seq::empty()
    } else {
        "- `"@ + deps[0]@ + "`\n"@ + dep_lines_spec(deps.drop_first())
    }
}

/// The rendered interface entries, one per interface.
pub open spec fn iface_lines_spec(ifaces: Seq<Interface>) -> Seq<char>
    decreases ifaces,
{
    if ifaces.len() == 0 {
        Seq::empty()
    } else {
        interface_render_spec(ifaces[0]) + "\n"@ + iface_lines_spec(ifaces.drop_first())
    }
}

/// The rendered form of a file analysis: header, type, summary, then the
/// dependency and interface sections when they have content.
pub open spec fn file_analysis_render_spec(a: FileAnalysis) -> Seq<char> {
    "# 📄 File Analysis: `"@ + a.file_path@ + "`\n\n**Type:** `"@ + a.file_type@
        + "`\n\n## Summary\n"@ + a.summary@ + "\n\n"@ + (if a.external_dependencies@.len() > 0 {
        "## 📚 External Dependencies\n"@ + dep_lines_spec(a.external_dependencies@) + "\n"@
    } else {
        Seq::empty()
    }) + (if a.public_interfaces@.len() > 0 {
        "## 🔌 Public Interfaces\n"@ + iface_lines_spec(a.public_interfaces@)
    } else {
        Seq::empty()
    })
}

/// `dep_lines_spec` distributes over concatenation.
pub proof fn lemma_dep_lines_concat(a: Seq<String>, b: Seq<String>)
    ensures
        dep_lines_spec(a + b) == dep_lines_spec(a) + dep_lines_spec(b),
    decreases a,
{
    if a.len() == 0 {
        assert(a + b =~= b);
        assert(dep_lines_spec(a) + dep_lines_spec(b) =~= dep_lines_spec(b));
    } else {
        lemma_dep_lines_concat(a.drop_first(), b);
        assert((a + b).drop_first() =~= a.drop_first() + b);
        assert(dep_lines_spec(a + b) =~= dep_lines_spec(a) + dep_lines_spec(b));
    }
}

/// `iface_lines_spec` distributes over concatenation.
pub proof fn lemma_iface_lines_concat(a: Seq<Interface>, b: Seq<Interface>)
    ensures
        iface_lines_spec(a + b) == iface_lines_spec(a) + iface_lines_spec(b),
    decreases a,
{
    if a.len() == 0 {
        assert(a + b =~= b);
        assert(iface_lines_spec(a) + iface_lines_spec(b) =~= iface_lines_spec(b));
    } else {
        lemma_iface_lines_concat(a.drop_first(), b);
        assert((a + b).drop_first() =~= a.drop_first() + b);
        assert(iface_lines_spec(a + b) =~= iface_lines_spec(a) + iface_lines_spec(b));
    }
}

impl FileAnalysis {
    /// Renders the analysis as a markdown document.
    #[verifier::rlimit(60)]
    #[verifier::loop_isolation(false)]
    pub fn render(&self) -> (r: String)
        ensures
            r@ == file_analysis_render_spec(*self),
    {
        let mut out = "# 📄 File Analysis: `".to_owned();
        out.append(self.file_path.as_str());
        out.append("`\n\n**Type:** `");
        out.append(self.file_type.as_str());
        out.append("`\n\n## Summary\n");
        out.append(self.summary.as_str());
        out.append("\n\n");
        if self.external_dependencies.len() > 0 {
            out.append("## 📚 External Dependencies\n");
            let ghost base = out@;
            let mut i: usize = 0;
            proof {
                assert(self.external_dependencies@.subrange(0, 0) =~= Seq::<String>::empty());
                assert(dep_lines_spec(Seq::<String>::empty()) =~= Seq::<char>::empty());
            }
            while i < self.external_dependencies.len()
                invariant
                    i <= self.external_dependencies@.len(),
                    out@ == base + dep_lines_spec(
                        self.external_dependencies@.subrange(0, i as int),
                    ),
                decreases self.external_dependencies@.len() - i,
            {
                out.append("- `");
                out.append(self.external_dependencies[i].as_str());
                out.append("`\n");
                proof {
                    let pre = self.external_dependencies@.subrange(0, i as int);
                    let post = self.external_dependencies@.subrange(0, i + 1);
                    assert(post =~= pre + seq![self.external_dependencies@[i as int]]);
                    lemma_dep_lines_concat(pre, seq![self.external_dependencies@[i as int]]);
                    let single = seq![self.external_dependencies@[i as int]];
                    assert(single.drop_first() =~= Seq::<String>::empty());
                    assert(dep_lines_spec(Seq::<String>::empty()) =~= Seq::<char>::empty());
                    assert(dep_lines_spec(single) =~= "- `"@
                        + self.external_dependencies@[i as int]@ + "`\n"@);
                }
                i = i + 1;
            }
            proof {
                assert(self.external_dependencies@.subrange(
                    0,
                    self.external_dependencies@.len() as int,
                ) =~= self.external_dependencies@);
            }
            out.append("\n");
        }
        if self.public_interfaces.len() > 0 {
            out.append("## 🔌 Public Interfaces\n");
            let ghost base = out@;
            let mut i: usize = 0;
            proof {
                assert(self.public_interfaces@.subrange(0, 0) =~= Seq::<Interface>::empty());
                assert(iface_lines_spec(Seq::<Interface>::empty()) =~= Seq::<char>::empty());
            }
            while i < self.public_interfaces.len()
                invariant
                    i <= self.public_interfaces@.len(),
                    out@ == base + iface_lines_spec(self.public_interfaces@.subrange(0, i as int)),
                decreases self.public_interfaces@.len() - i,
            {
                let line = self.public_interfaces[i].render();
                out.append(line.as_str());
                out.append("\n");
                proof {
                    let pre = self.public_interfaces@.subrange(0, i as int);
                    let post = self.public_interfaces@.subrange(0, i + 1);
                    assert(post =~= pre + seq![self.public_interfaces@[i as int]]);
                    lemma_iface_lines_concat(pre, seq![self.public_interfaces@[i as int]]);
                    let single = seq![self.public_interfaces@[i as int]];
                    assert(single.drop_first() =~= Seq::<Interface>::empty());
                    assert(iface_lines_spec(Seq::<Interface>::empty()) =~= Seq::<char>::empty());
                    assert(iface_lines_spec(single) =~= interface_render_spec(
                        self.public_interfaces@[i as int],
                    ) + "\n"@);
                }
                i = i + 1;
            }
            proof {
                assert(self.public_interfaces@.subrange(
                    0,
                    self.public_interfaces@.len() as int,
                ) =~= self.public_interfaces@);
            }
        }
        out
    }
}

/// The structured analysis of one directory.
#[derive(Debug)]
pub struct DirectoryAnalysis {
    pub directory_path: String,
    pub depth_level: usize,
    pub summary: String,
    pub child_summaries: Vec<String>,
    pub key_components: Vec<String>,
    pub external_dependencies: Vec<String>,
    pub public_interfaces: Vec<Interface>,
}

/// The structured analysis of a whole project.
#[derive(Debug)]
pub struct ProjectAnalysis {
    pub project_overview: String,
    pub architecture_summary: String,
    pub core_technologies: Vec<String>,
    pub main_interfaces: Vec<Interface>,
    pub development_considerations: Vec<String>,
    pub extension_points: Vec<String>,
    pub risk_factors: Vec<Interface>,
}

/// The analysis of one immediate child of a directory.
#[derive(Debug)]
pub enum ChildAnalysis {
    File(FileAnalysis),
    Directory(DirectoryAnalysis),
}

/// Why an analysis request failed.
#[derive(Debug)]
pub enum AnalysisError {
    /// The backend conversation failed.
    LlmError(String),
    /// The response could not be parsed into the analysis shape.
    ParseError(String),
}

/// The kind of project being analyzed.
#[derive(Debug, Clone, Copy, PartialEq, Eq, Structural)]
pub enum ProjectType {
    WebApplication,
    Library,
    CliTool,
    SystemService,
    DeveloperTool,
    Unknown,
}

/// The label a project type carries in prompts.
pub open spec fn project_type_label(t: ProjectType) -> Seq<char> {
    match t {
        ProjectType::WebApplication => "WebApplication"@,
        ProjectType::Library => "Library"@,
        ProjectType::CliTool => "CliTool"@,
        ProjectType::SystemService => "SystemService"@,
        ProjectType::DeveloperTool => "DeveloperTool"@,
        ProjectType::Unknown => "Unknown"@,
    }
}

impl ProjectType {
    /// The label this project type carries in prompts.
    pub fn label(&self) -> (r: &'static str)
        ensures
            r@ == project_type_label(*self),
    {
        match self {
            ProjectType::WebApplication => "WebApplication",
            ProjectType::Library => "Library",
            ProjectType::CliTool => "CliTool",
            ProjectType::SystemService => "SystemService",
            ProjectType::DeveloperTool => "DeveloperTool",
            ProjectType::Unknown => "Unknown",
        }
    }
}

/// Who the analysis is written for.
#[derive(Debug, Clone, Copy, PartialEq, Eq, Structural)]
pub enum AnalysisAudience {
    LlmConsumption,
    HumanDeveloper,
    TechnicalDocumentation,
}

/// The label an audience carries in prompts.
pub open spec fn audience_label(a: AnalysisAudience) -> Seq<char> {
    match a {
        AnalysisAudience::LlmConsumption => "LlmConsumption"@,
        AnalysisAudience::HumanDeveloper => "HumanDeveloper"@,
        AnalysisAudience::TechnicalDocumentation => "TechnicalDocumentation"@,
    }
}

impl AnalysisAudience {
    /// The label this audience carries in prompts.
    pub fn label(&self) -> (r: &'static str)
        ensures
            r@ == audience_label(*self),
    {
        match self {
            AnalysisAudience::LlmConsumption => "LlmConsumption",
            AnalysisAudience::HumanDeveloper => "HumanDeveloper",
            AnalysisAudience::TechnicalDocumentation => "TechnicalDocumentation",
        }
    }
}

/// How deep the analysis goes.
#[derive(Debug, Clone, Copy, PartialEq, Eq, Structural)]
pub enum AnalysisDepth {
    Surface,
    Standard,
    Deep,
}

/// The label a depth carries in prompts.
pub open spec fn analysis_depth_label(d: AnalysisDepth) -> Seq<char> {
    match d {
        AnalysisDepth::Surface => "Surface"@,
        AnalysisDepth::Standard => "Standard"@,
        AnalysisDepth::Deep => "Deep"@,
    }
}

impl AnalysisDepth {
    /// The label this depth carries in prompts.
    pub fn label(&self) -> (r: &'static str)
        ensures
            r@ == analysis_depth_label(*self),
    {
        match self {
            AnalysisDepth::Surface => "Surface",
            AnalysisDepth::Standard => "Standard",
            AnalysisDepth::Deep => "Deep",
        }
    }
}

/// The context an analysis request runs under.
#[derive(Debug, Clone, Copy, PartialEq, Eq, Structural)]
pub struct AnalysisContext {
    pub project_type: ProjectType,
    pub target_audience: AnalysisAudience,
    pub analysis_depth: AnalysisDepth,
}

} // verus!

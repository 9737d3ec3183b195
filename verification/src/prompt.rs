//! Prompt assembly: placeholder substitution over the analysis templates,
//! and the instruction wrapper around a structured-output schema.

use vstd::prelude::*;

use crate::analysis::AnalysisContext;
use crate::errors::match_at;

verus! {

/// The first position at or after `i` where `pat` occurs.
pub open spec fn find_pat(s: Seq<char>, pat: Seq<char>, i: int) -> Option<int>
    decreases s.len() - i,
{
    if i < 0 || pat.len() < 1 || i + pat.len() > s.len() {
        None
    } else if match_at(s, pat, i) {
        Some(i)
    } else {
        find_pat(s, pat, i + 1)
    }
}

/// A found occurrence lies inside the text.
pub proof fn lemma_find_pat_bounds(s: Seq<char>, pat: Seq<char>, i: int)
    requires
        0 <= i,
        find_pat(s, pat, i) is Some,
    ensures
        i <= find_pat(s, pat, i)->Some_0,
        find_pat(s, pat, i)->Some_0 + pat.len() <= s.len(),
    decreases s.len() - i,
{
    if pat.len() >= 1 && i + pat.len() <= s.len() && !match_at(s, pat, i) {
        lemma_find_pat_bounds(s, pat, i + 1);
    }
}

/// The text with every occurrence of `pat` replaced by `rep`, left to
/// right, without revisiting replacements.
pub open spec fn replace_spec(s: Seq<char>, pat: Seq<char>, rep: Seq<char>) -> Seq<char>
    decreases s.len(),
    when pat.len() >= 1
{
    match find_pat(s, pat, 0) {
        None => s,
        Some(i) => {
            proof {
                lemma_find_pat_bounds(s, pat, 0);
            }
            s.subrange(0, i) + rep + replace_spec(
                s.subrange(i + pat.len(), s.len() as int),
                pat,
                rep,
            )
        },
    }
}

/// Finds the first occurrence of `pat` at or after `start`.
#[verifier::loop_isolation(false)]
fn find_pat_exec(s: &str, pat: &str, start: usize) -> (r: Option<usize>)
    requires
        start <= s@.len(),
        pat@.len() >= 1,
    ensures
        match r {
            Some(i) => find_pat(s@, pat@, start as int) == Some(i as int),
            None => find_pat(s@, pat@, start as int) is None,
        },
{
    let slen = s.unicode_len();
    let plen = pat.unicode_len();
    if plen > slen || plen > slen - start {
        return None;
    }
    let mut i: usize = start;
    while i <= slen - plen
        invariant
            start <= i,
            i <= slen - plen + 1,
            1 <= plen <= slen,
            find_pat(s@, pat@, start as int) == find_pat(s@, pat@, i as int),
        decreases slen - i,
    {
        if crate::extract::pat_at(s, pat, i) {
            return Some(i);
        }
        i = i + 1;
    }
    None
}

/// Replaces every occurrence of `pat` in `s` with `rep`, left to right.
#[verifier::loop_isolation(false)]
pub fn replace_all(s: &str, pat: &str, rep: &str) -> (r: String)
    requires
        pat@.len() >= 1,
    ensures
        r@ == replace_spec(s@, pat@, rep@),
{
    let mut out = String::new();
    let mut rest: String = s.to_owned();
    loop
        invariant
            out@ + replace_spec(rest@, pat@, rep@) == replace_spec(s@, pat@, rep@),
        decreases rest@.len(),
    {
        let rest_len = rest.as_str().unicode_len();
        match find_pat_exec(rest.as_str(), pat, 0) {
            Some(i) => {
                proof {
                    lemma_find_pat_bounds(rest@, pat@, 0);
                }
                let plen = pat.unicode_len();
                out.append(rest.as_str().substring_char(0, i));
                out.append(rep);
                let tail = rest.as_str().substring_char(i + plen, rest_len).to_owned();
                proof {
                    assert(out@ + replace_spec(tail@, pat@, rep@) == replace_spec(
                        s@,
                        pat@,
                        rep@,
                    ));
                }
                rest = tail;
            },
            None => {
                out.append(rest.as_str());
                proof {
                    assert(replace_spec(rest@, pat@, rep@) == rest@);
                }
                return out;
            },
        }
    }
}

/// The template texts the analysis prompts are assembled from. Placeholders
/// in braces are substituted per request.
#[derive(Debug)]
pub struct PromptTemplates {
    pub file_analysis_template: String,
    pub directory_synthesis_template: String,
    pub project_analysis_template: String,
}

/// The built-in file-analysis template.
pub open spec fn file_template_text() -> Seq<char> {
    "Analyze the source file at {FILE_PATH} within a {PROJECT_TYPE} project. Perform a {ANALYSIS_DEPTH} analysis for {TARGET_AUDIENCE}. Report the file's purpose, its external dependencies and its public interfaces."@
}

/// The built-in directory-synthesis template.
pub open spec fn directory_template_text() -> Seq<char> {
    "Synthesize the analyses of the children of {DIRECTORY_PATH} within a {PROJECT_TYPE} project into one directory-level summary."@
}

/// The built-in project-analysis template.
pub open spec fn project_template_text() -> Seq<char> {
    "Synthesize the child analyses of the {PROJECT_TYPE} project rooted at {PROJECT_ROOT} into a project-level analysis."@
}

impl Default for PromptTemplates {
    /// The built-in templates.
    fn default() -> (r: Self)
        ensures
            r.file_analysis_template@ == file_template_text(),
            r.directory_synthesis_template@ == directory_template_text(),
            r.project_analysis_template@ == project_template_text(),
    {
        PromptTemplates {
            file_analysis_template:
                "Analyze the source file at {FILE_PATH} within a {PROJECT_TYPE} project. Perform a {ANALYSIS_DEPTH} analysis for {TARGET_AUDIENCE}. Report the file's purpose, its external dependencies and its public interfaces.".to_owned(),
            directory_synthesis_template:
                "Synthesize the analyses of the children of {DIRECTORY_PATH} within a {PROJECT_TYPE} project into one directory-level summary.".to_owned(),
            project_analysis_template:
                "Synthesize the child analyses of the {PROJECT_TYPE} project rooted at {PROJECT_ROOT} into a project-level analysis.".to_owned(),
        }
    }
}

impl PromptTemplates {
    /// The file-analysis prompt: the template with the path and the three
    /// context labels substituted.
    pub fn build_file_analysis_prompt(&self, file_path: &str, context: &AnalysisContext) -> (r:
        String)
        ensures
            r@ == replace_spec(
                replace_spec(
                    replace_spec(
                        replace_spec(
                            self.file_analysis_template@,
                            "{FILE_PATH}"@,
                            file_path@,
                        ),
                        "{PROJECT_TYPE}"@,
                        crate::analysis::project_type_label(context.project_type),
                    ),
                    "{ANALYSIS_DEPTH}"@,
                    crate::analysis::analysis_depth_label(context.analysis_depth),
                ),
                "{TARGET_AUDIENCE}"@,
                crate::analysis::audience_label(context.target_audience),
            ),
    {
        proof {
            reveal_strlit("{FILE_PATH}");
            reveal_strlit("{PROJECT_TYPE}");
            reveal_strlit("{ANALYSIS_DEPTH}");
            reveal_strlit("{TARGET_AUDIENCE}");
        }
        let s1 = replace_all(self.file_analysis_template.as_str(), "{FILE_PATH}", file_path);
        let s2 = replace_all(s1.as_str(), "{PROJECT_TYPE}", context.project_type.label());
        let s3 = replace_all(s2.as_str(), "{ANALYSIS_DEPTH}", context.analysis_depth.label());
        replace_all(s3.as_str(), "{TARGET_AUDIENCE}", context.target_audience.label())
    }

    /// The directory-synthesis prompt: the template with the path and the
    /// project type substituted.
    pub fn build_directory_synthesis_prompt(
        &self,
        directory_path: &str,
        context: &AnalysisContext,
    ) -> (r: String)
        ensures
            r@ == replace_spec(
                replace_spec(
                    self.directory_synthesis_template@,
                    "{DIRECTORY_PATH}"@,
                    directory_path@,
                ),
                "{PROJECT_TYPE}"@,
                crate::analysis::project_type_label(context.project_type),
            ),
    {
        proof {
            reveal_strlit("{DIRECTORY_PATH}");
            reveal_strlit("{PROJECT_TYPE}");
        }
        let s1 = replace_all(
            self.directory_synthesis_template.as_str(),
            "{DIRECTORY_PATH}",
            directory_path,
        );
        replace_all(s1.as_str(), "{PROJECT_TYPE}", context.project_type.label())
    }

    /// The project-analysis prompt: the template with the project type and
    /// the root path substituted.
    pub fn build_project_analysis_prompt(&self, project_root: &str, context: &AnalysisContext) -> (
        r: String)
        ensures
            r@ == replace_spec(
                replace_spec(
                    self.project_analysis_template@,
                    "{PROJECT_TYPE}"@,
                    crate::analysis::project_type_label(context.project_type),
                ),
                "{PROJECT_ROOT}"@,
                project_root@,
            ),
    {
        proof {
            reveal_strlit("{PROJECT_TYPE}");
            reveal_strlit("{PROJECT_ROOT}");
        }
        let s1 = replace_all(
            self.project_analysis_template.as_str(),
            "{PROJECT_TYPE}",
            context.project_type.label(),
        );
        replace_all(s1.as_str(), "{PROJECT_ROOT}", project_root)
    }
}

/// The strict-output instructions that frame a schema for providers wanting
/// prompt-level schema guidance.
pub open spec fn structured_prompt_spec(system_prompt: Seq<char>, schema_text: Seq<char>) -> Seq<
    char,
> {
    system_prompt
        + "\nCRITICAL INSTRUCTIONS:\n- You MUST respond with ONLY a valid JSON object\n- NO explanatory text before or after the JSON\n- NO markdown code blocks or formatting\n- NO comments or additional content\n- The JSON must exactly match this schema:\n```json\n"@
        + schema_text + "\n```\nAny response that is not pure JSON will be rejected."@
}

/// Frames `schema_text` in the strict-output instructions after the system
/// prompt.
pub fn build_structured_prompt(system_prompt: &str, schema_text: &str) -> (r: String)
    ensures
        r@ == structured_prompt_spec(system_prompt@, schema_text@),
{
    let mut out = system_prompt.to_owned();
    out.append(
        "\nCRITICAL INSTRUCTIONS:\n- You MUST respond with ONLY a valid JSON object\n- NO explanatory text before or after the JSON\n- NO markdown code blocks or formatting\n- NO comments or additional content\n- The JSON must exactly match this schema:\n```json\n",
    );
    out.append(schema_text);
    out.append("\n```\nAny response that is not pure JSON will be rejected.");
    out
}

} // verus!

use auto_doc::analysis::{AnalysisAudience, AnalysisContext, AnalysisDepth, ProjectType};
use auto_doc::prompt::{build_structured_prompt, replace_all, PromptTemplates};

fn context() -> AnalysisContext {
    AnalysisContext {
        project_type: ProjectType::Library,
        target_audience: AnalysisAudience::LlmConsumption,
        analysis_depth: AnalysisDepth::Standard,
    }
}

#[test]
fn replace_all_substitutes_every_occurrence() {
    assert_eq!(replace_all("a-b-a", "a", "xy"), "xy-b-xy");
    assert_eq!(replace_all("none here", "zz", "q"), "none here");
    assert_eq!(replace_all("aaa", "aa", "b"), "ba");
}

#[test]
fn file_prompt_substitutes_placeholders() {
    let templates = PromptTemplates::default();
    let prompt = templates.build_file_analysis_prompt("src/lib.rs", &context());
    assert!(prompt.contains("src/lib.rs"));
    assert!(prompt.contains("Library"));
    assert!(prompt.contains("Standard"));
    assert!(prompt.contains("LlmConsumption"));
    assert!(!prompt.contains("{FILE_PATH}"));
    assert!(!prompt.contains("{PROJECT_TYPE}"));
}

#[test]
fn directory_and_project_prompts_substitute() {
    let templates = PromptTemplates::default();
    let dir = templates.build_directory_synthesis_prompt("src/util", &context());
    assert!(dir.contains("src/util"));
    assert!(dir.contains("Library"));
    let proj = templates.build_project_analysis_prompt("/repo", &context());
    assert!(proj.contains("/repo"));
    assert!(proj.contains("Library"));
}

#[test]
fn structured_prompt_frames_the_schema() {
    let prompt = build_structured_prompt("You are an analyst.", "{\"type\":\"OBJECT\"}");
    assert!(prompt.starts_with("You are an analyst."));
    assert!(prompt.contains("CRITICAL INSTRUCTIONS"));
    assert!(prompt.contains("{\"type\":\"OBJECT\"}"));
    assert!(prompt.ends_with("Any response that is not pure JSON will be rejected."));
}

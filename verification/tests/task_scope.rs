use context_harness::harness::task_scope::{
    area_lock_strict, infer_task_scope, is_bridge_path, is_core_integration_path,
    should_use_global_fallback, ResolvedOwnership, TaskScope,
};
use context_harness::harness::task_terms::{assemble_task_terms, task_term_parts, TaskTerms};

fn terms(task: &str) -> TaskTerms {
    assemble_task_terms(task_term_parts(task), Vec::new())
}

fn ownership(matched_command: Option<&str>) -> ResolvedOwnership {
    ResolvedOwnership {
        primary_area: Some("context-harness".to_string()),
        matched_command: matched_command.map(str::to_string),
        scoped_paths: Vec::new(),
        task_scope: TaskScope::SingleArea,
        bridge_paths: Vec::new(),
        cross_area_roots: Vec::new(),
    }
}

#[test]
fn diff_prompt_task_is_core_integration() {
    let task = "make context diff-prompt self-contained without env vars";
    assert_eq!(
        infer_task_scope(task, &terms(task), &ownership(None)),
        TaskScope::CoreIntegration
    );
}

#[test]
fn extension_wiring_task_is_cross_area() {
    let task = "wire repo intelligence extension into session prompt assembly";
    assert_eq!(
        infer_task_scope(task, &terms(task), &ownership(None)),
        TaskScope::CrossArea
    );
}

#[test]
fn renderer_task_is_single_area_without_command() {
    let task = "improve context packet prompt fragment rendering for models";
    assert_eq!(
        infer_task_scope(task, &terms(task), &ownership(None)),
        TaskScope::SingleArea
    );
    assert_eq!(
        infer_task_scope(task, &terms(task), &ownership(Some("context build"))),
        TaskScope::AreaPlusBridge
    );
    let task = "run the context eval on fixtures";
    assert_eq!(
        infer_task_scope(task, &terms(task), &ownership(None)),
        TaskScope::AreaPlusBridge
    );
    let task = "add prompt debug output";
    assert_eq!(
        infer_task_scope(task, &terms(task), &ownership(None)),
        TaskScope::CoreIntegration
    );
}

#[test]
fn bridge_and_core_integration_paths() {
    assert!(is_bridge_path("cli/src/context_cmd.rs", None));
    assert!(is_bridge_path("cli/src/main.rs", Some("cli")));
    assert!(!is_bridge_path("core/src/lib.rs", Some("core")));
    assert!(!is_bridge_path("context-harness/src/lib.rs", None));
    let task = "make diff prompt output self-contained";
    let t = terms(task);
    assert!(is_core_integration_path("core/src/prompt_debug.rs", &t, task));
    assert!(is_core_integration_path("core/src/session/mod.rs", &t, task));
    let task2 = "tune the budgeter";
    let t2 = terms(task2);
    assert!(!is_core_integration_path("core/src/prompt_debug.rs", &t2, task2));
    assert!(!is_core_integration_path("core/src/other.rs", &t, task));
}

#[test]
fn scope_locks_and_fallbacks() {
    assert!(area_lock_strict(TaskScope::SingleArea));
    assert!(!area_lock_strict(TaskScope::CrossArea));
    assert!(should_use_global_fallback(TaskScope::SingleArea, 1));
    assert!(!should_use_global_fallback(TaskScope::SingleArea, 2));
    assert!(should_use_global_fallback(TaskScope::CoreIntegration, 0));
    assert!(!should_use_global_fallback(TaskScope::CrossArea, 1));
    assert!(should_use_global_fallback(TaskScope::AreaPlusBridge, 1));
}

use jbundle::config::BuildSystem;
use jbundle::detect::{detect_build_system_enhanced, DetectedBuild, ProjectMarkers};
use jbundle::error::PackError;
use jbundle::gradle::{has_application_plugin, GradleProject, Subproject};
use jbundle::pipeline::{
    calculate_steps, crac_unsupported, jlink_args, merge_modules, modules_from_jdeps, parse_selection,
    select_gradle_subproject, split_modules, SubprojectChoice, DEFAULT_MODULES,
};

fn markers() -> ProjectMarkers {
    ProjectMarkers { deps_edn: false, project_clj: false, pom_xml: false, build_gradle: false, build_gradle_kts: false }
}

fn sub(name: &str, app: bool) -> Subproject {
    Subproject { name: name.to_string(), path: format!("/test/{name}"), has_application: app, main_class: None, add_modules: vec![] }
}

#[test]
fn application_subprojects_filters_correctly() {
    let project = GradleProject {
        root: "/test".to_string(),
        subprojects: vec![
            Subproject { name: "app".to_string(), path: "/test/app".to_string(), has_application: true, main_class: Some("Main".to_string()), add_modules: vec![] },
            Subproject { name: "lib".to_string(), path: "/test/lib".to_string(), has_application: false, main_class: None, add_modules: vec![] },
        ],
    };
    let apps = project.application_subprojects();
    assert_eq!(apps.len(), 1);
    assert_eq!(apps[0].name, "app");
}

#[test]
fn multi_project_shape() {
    let single_root = GradleProject { root: "/r".into(), subprojects: vec![sub("(root)", true)] };
    assert!(!single_root.is_multi_project());
    let single_sub = GradleProject { root: "/r".into(), subprojects: vec![sub("app", true)] };
    assert!(single_sub.is_multi_project());
}

#[test]
fn detects_deps_edn() {
    let m = ProjectMarkers { deps_edn: true, ..markers() };
    assert!(matches!(detect_build_system_enhanced("/p", &m, None), Ok(DetectedBuild::Simple(BuildSystem::DepsEdn))));
}

#[test]
fn deps_edn_has_priority_over_project_clj() {
    let m = ProjectMarkers { deps_edn: true, project_clj: true, pom_xml: true, ..markers() };
    assert!(matches!(detect_build_system_enhanced("/p", &m, None), Ok(DetectedBuild::Simple(BuildSystem::DepsEdn))));
}

#[test]
fn detects_leiningen_and_maven() {
    let m = ProjectMarkers { project_clj: true, pom_xml: true, ..markers() };
    assert!(matches!(detect_build_system_enhanced("/p", &m, None), Ok(DetectedBuild::Simple(BuildSystem::Leiningen))));
    let m = ProjectMarkers { pom_xml: true, ..markers() };
    assert!(matches!(detect_build_system_enhanced("/p", &m, None), Ok(DetectedBuild::Simple(BuildSystem::Maven))));
}

#[test]
fn detects_gradle_multi_project() {
    let m = ProjectMarkers { build_gradle_kts: true, ..markers() };
    let project = GradleProject { root: "/p".into(), subprojects: vec![sub("app", true), sub("lib", false)] };
    match detect_build_system_enhanced("/p", &m, Some(project)) {
        Ok(DetectedBuild::GradleMultiProject { app_subprojects, .. }) => {
            assert_eq!(app_subprojects.len(), 1);
            assert_eq!(app_subprojects[0].name, "app");
        }
        other => panic!("expected GradleMultiProject, got {other:?}"),
    }
    let m = ProjectMarkers { build_gradle: true, ..markers() };
    assert!(matches!(detect_build_system_enhanced("/p", &m, None), Ok(DetectedBuild::Simple(BuildSystem::Gradle))));
}

#[test]
fn error_when_no_build_system() {
    assert!(matches!(detect_build_system_enhanced("/p", &markers(), None), Err(PackError::NoBuildSystem(d)) if d == "/p"));
}

#[test]
fn application_plugin_forms() {
    assert!(has_application_plugin("plugins {\n    id(\"application\")\n}"));
    assert!(has_application_plugin("apply plugin: 'application'"));
    assert!(!has_application_plugin("group = \"application\""));
}

#[test]
fn step_counts() {
    assert_eq!(calculate_steps(true, false, false), 5);
    assert_eq!(calculate_steps(false, true, true), 8);
}

#[test]
fn subproject_selection() {
    let subs = vec![sub("app", true), sub("cli", true)];
    assert_eq!(select_gradle_subproject(&subs, Some("cli")).unwrap(), SubprojectChoice::Chosen(1));
    assert!(matches!(select_gradle_subproject(&subs, Some("x")), Err(PackError::GradleSubprojectNotFound(n)) if n == "x"));
    assert_eq!(select_gradle_subproject(&subs, None).unwrap(), SubprojectChoice::Prompt);
    assert_eq!(select_gradle_subproject(&subs[..1], None).unwrap(), SubprojectChoice::Chosen(0));
    assert!(matches!(select_gradle_subproject(&[], None), Err(PackError::NoApplicationSubproject)));
    let names = vec!["app".to_string(), "cli".to_string()];
    assert_eq!(parse_selection(" 2\n", &names).unwrap(), 1);
    assert!(parse_selection("0", &names).is_err());
    assert!(parse_selection("3", &names).is_err());
    assert!(parse_selection("two", &names).is_err());
}

#[test]
fn module_lists() {
    assert_eq!(modules_from_jdeps(false, "java.base"), DEFAULT_MODULES);
    assert_eq!(modules_from_jdeps(true, "  \n"), DEFAULT_MODULES);
    assert_eq!(modules_from_jdeps(true, "java.base,java.sql\n"), "java.base,java.sql");
    assert_eq!(split_modules("a,b,,c"), vec!["a", "b", "", "c"]);
    assert_eq!(merge_modules("java.base,java.sql", &vec!["jdk.unsupported".to_string(), "java.sql".to_string()]), "java.base,java.sql,jdk.unsupported");
    assert_eq!(merge_modules("java.base", &vec![]), "java.base");
}

#[test]
fn image_link_and_checkpoint_helpers() {
    assert_eq!(
        jlink_args("java.base", "/tmp/rt"),
        vec!["--add-modules", "java.base", "--strip-debug", "--no-man-pages", "--no-header-files", "--compress=zip-6", "--output", "/tmp/rt"]
    );
    assert!(crac_unsupported("Unrecognized VM option 'CRaCCheckpointTo=/dev/null'"));
    assert!(!crac_unsupported("openjdk version \"21\""));
}

use jbundle::pipeline::{first_stage, next_stage, plan_build_all, Stage, StageOutcome, StagePlan};

fn run(plan: &StagePlan, failing_checkpoint: bool) -> (Vec<Stage>, bool) {
    let mut stages = Vec::new();
    let mut s = first_stage(plan);
    let mut with_checkpoint = false;
    while s != Stage::Done {
        stages.push(s);
        let o = if s == Stage::Checkpoint && failing_checkpoint { StageOutcome::CheckpointFailed } else { StageOutcome::Done };
        let (next, cp) = next_stage(plan, s, o);
        if next == Stage::Pack {
            with_checkpoint = cp;
        }
        s = next;
    }
    (stages, with_checkpoint)
}

#[test]
fn stages_for_a_project_build() {
    let plan = StagePlan { is_jar_input: false, shrink: true, modules_override: false, reuse_runtime: false, crac: true };
    let (stages, cp) = run(&plan, false);
    assert_eq!(
        stages,
        vec![Stage::Detect, Stage::Build, Stage::Shrink, Stage::Probe, Stage::Runtime, Stage::Modules, Stage::Link, Stage::Checkpoint, Stage::Pack]
    );
    assert!(cp);
}

#[test]
fn stages_skip_what_was_given() {
    let plan = StagePlan { is_jar_input: true, shrink: false, modules_override: true, reuse_runtime: true, crac: false };
    let (stages, cp) = run(&plan, false);
    assert_eq!(stages, vec![Stage::Input, Stage::Probe, Stage::Runtime, Stage::Pack]);
    assert!(!cp);
}

#[test]
fn failed_checkpoint_packs_without_one() {
    let plan = StagePlan { is_jar_input: true, shrink: false, modules_override: false, reuse_runtime: false, crac: true };
    let (stages, cp) = run(&plan, true);
    assert_eq!(stages.last(), Some(&Stage::Pack));
    assert!(stages.contains(&Stage::Checkpoint));
    assert!(!cp);
    assert_eq!(next_stage(&plan, Stage::Checkpoint, StageOutcome::CheckpointFailed), (Stage::Pack, false));
}

#[test]
fn build_all_plans_each_application() {
    let project = GradleProject { root: "/p".into(), subprojects: vec![sub("app", true), sub("cli", true)] };
    let detected = DetectedBuild::GradleMultiProject { project, app_subprojects: vec![sub("app", true), sub("cli", true)] };
    let targets = plan_build_all(&detected, "dist").unwrap();
    assert_eq!(targets, vec![("app".to_string(), "dist/app".to_string()), ("cli".to_string(), "dist/cli".to_string())]);
    assert!(matches!(plan_build_all(&DetectedBuild::Simple(BuildSystem::Maven), "dist"), Err(PackError::BuildFailed(_))));
    let empty = DetectedBuild::GradleMultiProject { project: GradleProject { root: "/p".into(), subprojects: vec![] }, app_subprojects: vec![] };
    assert!(matches!(plan_build_all(&empty, "dist"), Err(PackError::BuildFailed(m)) if m.starts_with("No application")));
}

//! Which build tool a project directory uses.
use vstd::prelude::*;
use crate::config::BuildSystem;
use crate::error::PackError;
use crate::gradle::{app_subprojects, subproject_views, GradleProject, Subproject};
use crate::text::owned;

verus! {

/// Result of build system detection.
#[derive(Debug)]
pub enum DetectedBuild {
    /// deps.edn, Leiningen, Maven, or a single-module Gradle build
    Simple(BuildSystem),
    /// Gradle multi-project build with application subprojects
    GradleMultiProject { project: GradleProject, app_subprojects: Vec<Subproject> },
}

/// Which build files a project directory holds.
#[derive(Debug, Clone, Copy)]
pub struct ProjectMarkers {
    pub deps_edn: bool,
    pub project_clj: bool,
    pub pom_xml: bool,
    pub build_gradle: bool,
    pub build_gradle_kts: bool,
}

impl ProjectMarkers {
    pub open spec fn has_gradle(self) -> bool {
        self.build_gradle || self.build_gradle_kts
    }
}

pub open spec fn is_multi(p: GradleProject) -> bool {
    p.subprojects@.len() > 1 || (p.subprojects@.len() == 1 && p.subprojects@[0].name@ != "(root)"@)
}

/// Detects the build system: Clojure tools first (deps.edn, then Leiningen),
/// then Maven, then Gradle, which is a multi-project build when its parsed
/// project has several modules and application subprojects.
pub fn detect_build_system_enhanced(project_dir: &str, markers: &ProjectMarkers, gradle: Option<GradleProject>) -> (r: Result<DetectedBuild, PackError>)
    ensures
        markers.deps_edn ==> r matches Ok(DetectedBuild::Simple(BuildSystem::DepsEdn)),
        !markers.deps_edn && markers.project_clj ==> r matches Ok(
            DetectedBuild::Simple(BuildSystem::Leiningen),
        ),
        !markers.deps_edn && !markers.project_clj && markers.pom_xml ==> r matches Ok(
            DetectedBuild::Simple(BuildSystem::Maven),
        ),
        !markers.deps_edn && !markers.project_clj && !markers.pom_xml && markers.has_gradle() ==> (
        match gradle {
            Some(p) => if is_multi(p) && app_subprojects(p.subprojects@).len() > 0 {
                r matches Ok(DetectedBuild::GradleMultiProject { project: q, app_subprojects: a })
                    && q == p && subproject_views(a@) == subproject_views(app_subprojects(p.subprojects@))
            } else {
                r matches Ok(DetectedBuild::Simple(BuildSystem::Gradle))
            },
            None => r matches Ok(DetectedBuild::Simple(BuildSystem::Gradle)),
        }),
        !markers.deps_edn && !markers.project_clj && !markers.pom_xml && !markers.has_gradle() ==> (
        r matches Err(PackError::NoBuildSystem(d)) && d@ == project_dir@),
{
    if markers.deps_edn {
        return Ok(DetectedBuild::Simple(BuildSystem::DepsEdn));
    }
    if markers.project_clj {
        return Ok(DetectedBuild::Simple(BuildSystem::Leiningen));
    }
    if markers.pom_xml {
        return Ok(DetectedBuild::Simple(BuildSystem::Maven));
    }
    if markers.build_gradle || markers.build_gradle_kts {
        if let Some(project) = gradle {
            let apps = project.application_subproject_copies();
            proof {
                assert(subproject_views(apps@).len() == apps@.len());
                assert(subproject_views(app_subprojects(project.subprojects@)).len() == app_subprojects(
                    project.subprojects@,
                ).len());
            }
            if project.is_multi_project() && apps.len() > 0 {
                return Ok(DetectedBuild::GradleMultiProject { project, app_subprojects: apps });
            }
        }
        return Ok(DetectedBuild::Simple(BuildSystem::Gradle));
    }
    Err(PackError::NoBuildSystem(owned(project_dir)))
}

} // verus!

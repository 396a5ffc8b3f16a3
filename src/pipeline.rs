//! Decisions of the build pipeline between its stages.
use vstd::prelude::*;
use crate::error::PackError;
use crate::gradle::Subproject;
use crate::text::{has_infix, is_trim, join, owned, push_str, str_eq, trim, trimmed, views, contains};

verus! {

/// Number of steps a build shows: the input (or detection and build), the
/// optional shrink, the runtime, the module analysis, the image link, the
/// optional checkpoint, and the pack.
pub fn calculate_steps(is_jar_input: bool, shrink: bool, crac: bool) -> (r: usize)
    ensures
        r == (if is_jar_input {
            1usize
        } else {
            2
        }) + (if shrink {
            1usize
        } else {
            0
        }) + 4 + (if crac {
            1usize
        } else {
            0
        }),
{
    let base: usize = if is_jar_input {
        1
    } else {
        2
    };
    let shrink_step: usize = if shrink {
        1
    } else {
        0
    };
    let crac_step: usize = if crac {
        1
    } else {
        0
    };
    base + shrink_step + 4 + crac_step
}

/// How a subproject of a multi-project build is chosen.
#[derive(Debug, Clone, Copy, PartialEq, Eq, Structural)]
pub enum SubprojectChoice {
    /// The subproject at this index.
    Chosen(usize),
    /// Several candidates: ask the user.
    Prompt,
}

/// Chooses the subproject to build: the named one, the only one, or none
/// when there is a choice to make.
pub fn select_gradle_subproject(app_subprojects: &[Subproject], cli_selection: Option<&str>) -> (r: Result<SubprojectChoice, PackError>)
    ensures
        match cli_selection {
            Some(name) => match r {
                Ok(SubprojectChoice::Chosen(i)) => i < app_subprojects@.len()
                    && app_subprojects@[i as int].name@ == name@ && forall|j: int|
                    0 <= j < i ==> #[trigger] app_subprojects@[j].name@ != name@,
                Err(PackError::GradleSubprojectNotFound(n)) => n@ == name@ && forall|j: int|
                    0 <= j < app_subprojects@.len() ==> #[trigger] app_subprojects@[j].name@ != name@,
                _ => false,
            },
            None => if app_subprojects@.len() == 1 {
                r == Ok::<SubprojectChoice, PackError>(SubprojectChoice::Chosen(0))
            } else if app_subprojects@.len() == 0 {
                r matches Err(PackError::NoApplicationSubproject)
            } else {
                r == Ok::<SubprojectChoice, PackError>(SubprojectChoice::Prompt)
            },
        },
{
    match cli_selection {
        Some(name) => {
            let mut i: usize = 0;
            while i < app_subprojects.len()
                invariant
                    cli_selection == Some(name),
                    i <= app_subprojects@.len(),
                    forall|j: int| 0 <= j < i ==> #[trigger] app_subprojects@[j].name@ != name@,
                decreases app_subprojects@.len() - i,
            {
                if str_eq(app_subprojects[i].name.as_str(), name) {
                    assert(app_subprojects@[i as int].name@ == name@);
                    return Ok(SubprojectChoice::Chosen(i));
                }
                i += 1;
            }
            Err(PackError::GradleSubprojectNotFound(owned(name)))
        },
        None => {
            if app_subprojects.len() == 1 {
                Ok(SubprojectChoice::Chosen(0))
            } else if app_subprojects.len() == 0 {
                Err(PackError::NoApplicationSubproject)
            } else {
                Ok(SubprojectChoice::Prompt)
            }
        },
    }
}

/// The subproject an answer to the prompt picks: a number from 1 to the count.
pub fn parse_selection(input: &str, names: &Vec<String>) -> (r: Result<usize, PackError>)
    ensures
        match crate::download::parse_u64(trimmed(input@)) {
            Some(v) => if 1 <= v <= names@.len() {
                r == Ok::<usize, PackError>((v - 1) as usize)
            } else {
                r matches Err(PackError::MultipleApplicationSubprojects(_))
            },
            None => r matches Err(PackError::MultipleApplicationSubprojects(_)),
        },
{
    let t = trim(input);
    match crate::download::parse_decimal_u64(t) {
        Some(v) => {
            if v >= 1 && v <= names.len() as u64 {
                Ok((v - 1) as usize)
            } else {
                Err(PackError::MultipleApplicationSubprojects(crate::gradle::copy_strings(names)))
            }
        },
        None => Err(PackError::MultipleApplicationSubprojects(crate::gradle::copy_strings(names))),
    }
}

/// Modules linked when the module analysis fails or finds nothing.
pub const DEFAULT_MODULES: &'static str = "java.base,java.logging,java.sql,java.naming,java.management,java.instrument,java.desktop,java.xml,java.net.http";

/// The module list from the module analyzer's run: its trimmed output, or the
/// default set when it failed or printed nothing.
pub fn modules_from_jdeps(success: bool, stdout: &str) -> (r: String)
    ensures
        r@ == if success && trimmed(stdout@).len() > 0 {
            trimmed(stdout@)
        } else {
            DEFAULT_MODULES@
        },
{
    if !success {
        return owned(DEFAULT_MODULES);
    }
    let t = trim(stdout);
    if t.unicode_len() == 0 {
        owned(DEFAULT_MODULES)
    } else {
        owned(t)
    }
}

/// The pieces of `s` between commas.
pub open spec fn split_commas(s: Seq<char>) -> Seq<Seq<char>>
    decreases s.len(),
{
    if s.len() == 0 {
        seq![seq![]]
    } else {
        let p = split_commas(s.drop_last());
        if s.last() == ',' {
            p.push(seq![])
        } else {
            p.update(p.len() - 1, p.last().push(s.last()))
        }
    }
}

proof fn lemma_split_nonempty(s: Seq<char>)
    ensures
        split_commas(s).len() >= 1,
    decreases s.len(),
{
    if s.len() > 0 {
        lemma_split_nonempty(s.drop_last());
    }
}

/// Splits a comma-separated list.
pub fn split_modules(list: &str) -> (r: Vec<String>)
    ensures
        views(r@) == split_commas(list@),
{
    let n = list.unicode_len();
    let mut parts: Vec<String> = Vec::new();
    parts.push(String::new());
    let mut i: usize = 0;
    while i < n
        invariant
            n == list@.len(),
            i <= n,
            parts@.len() >= 1,
            views(parts@) == split_commas(list@.subrange(0, i as int)),
        decreases n - i,
    {
        let c = list.get_char(i);
        proof {
            let t = list@.subrange(0, i + 1);
            assert(t.drop_last() =~= list@.subrange(0, i as int));
            lemma_split_nonempty(list@.subrange(0, i as int));
        }
        let ghost before = views(parts@);
        if c == ',' {
            parts.push(String::new());
            assert(views(parts@) =~= before.push(seq![]));
        } else {
            let last = parts.len() - 1;
            let mut cur = parts[last].clone();
            crate::text::push_char(&mut cur, c);
            parts.set(last, cur);
            assert(views(parts@) =~= before.update(before.len() - 1, before.last().push(c)));
        }
        i += 1;
    }
    assert(list@.subrange(0, n as int) =~= list@);
    parts
}

/// Keeps the first occurrence of each element.
pub open spec fn dedup(s: Seq<Seq<char>>) -> Seq<Seq<char>>
    decreases s.len(),
{
    if s.len() == 0 {
        seq![]
    } else {
        let p = dedup(s.drop_last());
        if p.contains(s.last()) {
            p
        } else {
            p.push(s.last())
        }
    }
}

/// The modules found by analysis together with those a subproject adds,
/// each once, in order of first appearance.
pub fn merge_modules(modules: &str, extra: &Vec<String>) -> (r: String)
    ensures
        extra@.len() == 0 ==> r@ == modules@,
        extra@.len() > 0 ==> r@ == join(dedup(split_commas(modules@) + views(extra@)), ","@),
{
    if extra.len() == 0 {
        return owned(modules);
    }
    let mut all = split_modules(modules);
    let ghost first = views(all@);
    let mut k: usize = 0;
    while k < extra.len()
        invariant
            k <= extra@.len(),
            views(all@) == first + views(extra@).subrange(0, k as int),
        decreases extra@.len() - k,
    {
        let ghost before = views(all@);
        let x = extra[k].clone();
        all.push(x);
        assert(views(all@) =~= before.push(extra@[k as int]@));
        assert(views(extra@).subrange(0, k + 1) =~= views(extra@).subrange(0, k as int).push(extra@[k as int]@));
        assert(views(all@) =~= first + views(extra@).subrange(0, k + 1));
        k += 1;
    }
    assert(views(extra@).subrange(0, extra@.len() as int) =~= views(extra@));
    let mut kept: Vec<String> = Vec::new();
    let mut i: usize = 0;
    while i < all.len()
        invariant
            i <= all@.len(),
            views(kept@) == dedup(views(all@).subrange(0, i as int)),
        decreases all@.len() - i,
    {
        let mut seen = false;
        let mut j: usize = 0;
        while j < kept.len()
            invariant
                i < all@.len(),
                j <= kept@.len(),
                views(kept@).len() == kept@.len(),
                seen == exists|q: int| 0 <= q < j && views(kept@)[q] == all@[i as int]@,
            decreases kept@.len() - j,
        {
            let same = str_eq(kept[j].as_str(), all[i].as_str());
            proof {
                assert(views(kept@)[j as int] == kept@[j as int]@);
                if !same {
                    assert forall|q: int| 0 <= q < j + 1 && views(kept@)[q] == all@[i as int]@ implies 0
                        <= q < j && views(kept@)[q] == all@[i as int]@ by {}
                }
            }
            if same {
                seen = true;
            }
            j += 1;
        }
        proof {
            let t = views(all@).subrange(0, i + 1);
            assert(t.drop_last() =~= views(all@).subrange(0, i as int));
            assert(t.last() == all@[i as int]@);
            if views(kept@).contains(all@[i as int]@) {
                let q = choose|q: int| 0 <= q < views(kept@).len() && views(kept@)[q] == all@[i as int]@;
                assert(seen);
            }
        }
        let ghost before = views(kept@);
        if !seen {
            kept.push(all[i].clone());
            assert(views(kept@) =~= before.push(all@[i as int]@));
        }
        i += 1;
    }
    assert(views(all@).subrange(0, all@.len() as int) =~= views(all@));
    crate::text::join_strings(kept.as_slice(), ",")
}

/// Whether the runtime's answer to a probe run shows that it cannot take
/// checkpoints.
pub fn crac_unsupported(stderr: &str) -> (r: bool)
    ensures
        r == (has_infix(stderr@, "Unrecognized VM option"@) || has_infix(
            stderr@,
            "Could not create the Java Virtual Machine"@,
        )),
{
    contains(stderr, "Unrecognized VM option") || contains(
        stderr,
        "Could not create the Java Virtual Machine",
    )
}

/// Arguments of the image linker for a module list and an output directory.
pub fn jlink_args(modules: &str, output: &str) -> (r: Vec<String>)
    ensures
        views(r@) == seq![
            "--add-modules"@,
            modules@,
            "--strip-debug"@,
            "--no-man-pages"@,
            "--no-header-files"@,
            "--compress=zip-6"@,
            "--output"@,
            output@,
        ],
{
    let r = vec![
        owned("--add-modules"),
        owned(modules),
        owned("--strip-debug"),
        owned("--no-man-pages"),
        owned("--no-header-files"),
        owned("--compress=zip-6"),
        owned("--output"),
        owned(output),
    ];
    assert(views(r@) =~= seq![
        "--add-modules"@,
        modules@,
        "--strip-debug"@,
        "--no-man-pages"@,
        "--no-header-files"@,
        "--compress=zip-6"@,
        "--output"@,
        output@,
    ]);
    r
}

/// The report of a failed image link: the command, then whatever it printed,
/// or how it ended when it printed nothing.
pub fn jlink_failure(cmd: &str, stderr: &str, stdout: &str, exit: &str) -> (r: PackError)
    ensures
        r matches PackError::JlinkFailed(m) && m@ == "command: "@ + cmd@ + "\n"@ + (if stderr@.len()
            > 0 {
            "stderr:\n"@ + stderr@
        } else {
            seq![]
        }) + (if stdout@.len() > 0 {
            "stdout:\n"@ + stdout@
        } else {
            seq![]
        }) + (if stderr@.len() == 0 && stdout@.len() == 0 {
            "process exited with "@ + exit@
        } else {
            seq![]
        }),
{
    let mut m = owned("command: ");
    push_str(&mut m, cmd);
    push_str(&mut m, "\n");
    let e = stderr.unicode_len() > 0;
    let o = stdout.unicode_len() > 0;
    if e {
        push_str(&mut m, "stderr:\n");
        push_str(&mut m, stderr);
    }
    if o {
        push_str(&mut m, "stdout:\n");
        push_str(&mut m, stdout);
    }
    if !e && !o {
        push_str(&mut m, "process exited with ");
        push_str(&mut m, exit);
    }
    assert(m@ =~= "command: "@ + cmd@ + "\n"@ + (if stderr@.len() > 0 {
        "stderr:\n"@ + stderr@
    } else {
        seq![]
    }) + (if stdout@.len() > 0 {
        "stdout:\n"@ + stdout@
    } else {
        seq![]
    }) + (if stderr@.len() == 0 && stdout@.len() == 0 {
        "process exited with "@ + exit@
    } else {
        seq![]
    }));
    PackError::JlinkFailed(m)
}

/// A stage of a build, in the order the stages run.
#[derive(Debug, Clone, Copy, PartialEq, Eq, Structural)]
pub enum Stage {
    /// Take a prebuilt archive as it is.
    Input,
    /// Find the project's build system.
    Detect,
    /// Build the project's archive.
    Build,
    /// Rewrite the archive without non-essential entries.
    Shrink,
    /// Find the language version the archive needs.
    Probe,
    /// Make the full runtime available.
    Runtime,
    /// Find the modules the archive uses.
    Modules,
    /// Link a minimal runtime image.
    Link,
    /// Take a warm-start checkpoint.
    Checkpoint,
    /// Write the executable.
    Pack,
    Done,
}

/// What a build's configuration decides about its stages.
#[derive(Debug, Clone, Copy, PartialEq, Eq, Structural)]
pub struct StagePlan {
    pub is_jar_input: bool,
    pub shrink: bool,
    /// A module list was given.
    pub modules_override: bool,
    /// A usable runtime image was given.
    pub reuse_runtime: bool,
    pub crac: bool,
}

/// How a stage ended, where it matters: a checkpoint may fail without
/// failing the build.
#[derive(Debug, Clone, Copy, PartialEq, Eq, Structural)]
pub enum StageOutcome {
    Done,
    CheckpointFailed,
}

/// Position of a stage in the run order.
pub open spec fn stage_index(s: Stage) -> nat {
    match s {
        Stage::Input => 0,
        Stage::Detect => 1,
        Stage::Build => 2,
        Stage::Shrink => 3,
        Stage::Probe => 4,
        Stage::Runtime => 5,
        Stage::Modules => 6,
        Stage::Link => 7,
        Stage::Checkpoint => 8,
        Stage::Pack => 9,
        Stage::Done => 10,
    }
}

/// The first stage: the archive as given, or detecting the build system.
pub open spec fn first_stage_of(plan: StagePlan) -> Stage {
    if plan.is_jar_input {
        Stage::Input
    } else {
        Stage::Detect
    }
}

/// The stage after the archive is ready.
pub open spec fn after_archive(plan: StagePlan) -> Stage {
    if plan.shrink {
        Stage::Shrink
    } else {
        Stage::Probe
    }
}

/// The stage after the module list is known.
pub open spec fn after_modules(plan: StagePlan) -> Stage {
    if plan.reuse_runtime {
        after_image(plan)
    } else {
        Stage::Link
    }
}

/// The stage after the runtime image is ready.
pub open spec fn after_image(plan: StagePlan) -> Stage {
    if plan.crac {
        Stage::Checkpoint
    } else {
        Stage::Pack
    }
}

/// The next stage, and whether the executable is packed with a checkpoint
/// (only after a checkpoint that succeeded).
pub open spec fn stage_after(plan: StagePlan, s: Stage, o: StageOutcome) -> (Stage, bool) {
    match s {
        Stage::Input => (after_archive(plan), false),
        Stage::Detect => (Stage::Build, false),
        Stage::Build => (after_archive(plan), false),
        Stage::Shrink => (Stage::Probe, false),
        Stage::Probe => (Stage::Runtime, false),
        Stage::Runtime => (if plan.modules_override {
            after_modules(plan)
        } else {
            Stage::Modules
        }, false),
        Stage::Modules => (after_modules(plan), false),
        Stage::Link => (after_image(plan), false),
        Stage::Checkpoint => (Stage::Pack, o == StageOutcome::Done),
        Stage::Pack => (Stage::Done, false),
        Stage::Done => (Stage::Done, false),
    }
}

/// The first stage of a build.
pub fn first_stage(plan: &StagePlan) -> (r: Stage)
    ensures
        r == first_stage_of(*plan),
{
    if plan.is_jar_input {
        Stage::Input
    } else {
        Stage::Detect
    }
}

/// The stage that follows `s`, which ended with `o`.
pub fn next_stage(plan: &StagePlan, s: Stage, o: StageOutcome) -> (r: (Stage, bool))
    ensures
        r == stage_after(*plan, s, o),
{
    let after_archive = if plan.shrink {
        Stage::Shrink
    } else {
        Stage::Probe
    };
    let after_image = if plan.crac {
        Stage::Checkpoint
    } else {
        Stage::Pack
    };
    let after_modules = if plan.reuse_runtime {
        after_image
    } else {
        Stage::Link
    };
    match s {
        Stage::Input => (after_archive, false),
        Stage::Detect => (Stage::Build, false),
        Stage::Build => (after_archive, false),
        Stage::Shrink => (Stage::Probe, false),
        Stage::Probe => (Stage::Runtime, false),
        Stage::Runtime => (if plan.modules_override {
            after_modules
        } else {
            Stage::Modules
        }, false),
        Stage::Modules => (after_modules, false),
        Stage::Link => (after_image, false),
        Stage::Checkpoint => (Stage::Pack, o == StageOutcome::Done),
        Stage::Pack => (Stage::Done, false),
        Stage::Done => (Stage::Done, false),
    }
}

/// Stages run in strict order; the archive comes from the input or from
/// detecting and building the project; shrinking runs only when asked and
/// always when asked; module analysis is skipped exactly when a module list
/// was given, and linking exactly when a usable runtime was given; a
/// checkpoint is taken only when asked; and a failed checkpoint leads to
/// packing without one, as does every way into packing but a checkpoint that
/// succeeded.
pub proof fn lemma_stage_order(plan: StagePlan, s: Stage, o: StageOutcome)
    ensures
        s != Stage::Done ==> stage_index(stage_after(plan, s, o).0) > stage_index(s),
        s == Stage::Done ==> stage_after(plan, s, o).0 == Stage::Done,
        stage_after(plan, s, o).0 == Stage::Shrink ==> plan.shrink,
        plan.shrink && (s == Stage::Input || s == Stage::Build) ==> stage_after(plan, s, o).0 == Stage::Shrink,
        stage_after(plan, s, o).0 == Stage::Build <==> s == Stage::Detect,
        s == Stage::Runtime ==> (stage_after(plan, s, o).0 == Stage::Modules <==> !plan.modules_override),
        stage_after(plan, s, o).0 == Stage::Modules ==> s == Stage::Runtime && !plan.modules_override,
        (s == Stage::Modules || (s == Stage::Runtime && plan.modules_override)) ==> (stage_after(plan, s, o).0
            == Stage::Link <==> !plan.reuse_runtime),
        stage_after(plan, s, o).0 == Stage::Link ==> !plan.reuse_runtime,
        stage_after(plan, s, o).0 == Stage::Checkpoint ==> plan.crac,
        plan.crac && (s == Stage::Link || (s == Stage::Modules && plan.reuse_runtime)) ==> stage_after(
            plan,
            s,
            o,
        ).0 == Stage::Checkpoint,
        stage_after(plan, Stage::Checkpoint, StageOutcome::CheckpointFailed) == (Stage::Pack, false),
        stage_after(plan, s, o).1 ==> s == Stage::Checkpoint && o == StageOutcome::Done,
        s == Stage::Checkpoint ==> stage_after(plan, s, o).0 == Stage::Pack,
{
}

/// The stages a run visits from `s`, following at most `fuel` steps, when
/// every stage ends normally.
pub open spec fn stages_from(plan: StagePlan, s: Stage, fuel: nat) -> Seq<Stage>
    decreases fuel,
{
    if fuel == 0 || s == Stage::Done {
        seq![]
    } else {
        seq![s] + stages_from(plan, stage_after(plan, s, StageOutcome::Done).0, (fuel - 1) as nat)
    }
}

pub open spec fn pairs_view(v: Seq<(String, String)>) -> Seq<(Seq<char>, Seq<char>)> {
    v.map_values(|t: (String, String)| (t.0@, t.1@))
}

/// The stages a build runs when every stage ends normally.
pub open spec fn planned_stages(plan: StagePlan) -> Seq<Stage> {
    (if plan.is_jar_input {
        seq![Stage::Input]
    } else {
        seq![Stage::Detect, Stage::Build]
    }) + (if plan.shrink {
        seq![Stage::Shrink]
    } else {
        seq![]
    }) + seq![Stage::Probe, Stage::Runtime] + (if plan.modules_override {
        seq![]
    } else {
        seq![Stage::Modules]
    }) + (if plan.reuse_runtime {
        seq![]
    } else {
        seq![Stage::Link]
    }) + (if plan.crac {
        seq![Stage::Checkpoint]
    } else {
        seq![]
    }) + seq![Stage::Pack]
}

proof fn lemma_run_image(plan: StagePlan, f: nat)
    requires
        f >= 2,
    ensures
        stages_from(plan, after_image(plan), f) == (if plan.crac {
            seq![Stage::Checkpoint]
        } else {
            seq![]
        }) + seq![Stage::Pack],
{
    let g = (f - 1) as nat;
    let h = (f - 2) as nat;
    assert(stages_from(plan, Stage::Done, g) =~= seq![]);
    assert(stages_from(plan, Stage::Done, h) =~= seq![]);
    assert(stages_from(plan, Stage::Pack, g) =~= seq![Stage::Pack] + stages_from(plan, Stage::Done, h));
    assert(stages_from(plan, Stage::Pack, f) =~= seq![Stage::Pack] + stages_from(plan, Stage::Done, g));
    if plan.crac {
        assert(stages_from(plan, Stage::Checkpoint, f) =~= seq![Stage::Checkpoint] + stages_from(plan, Stage::Pack, g));
    }
}

proof fn lemma_run_modules(plan: StagePlan, f: nat)
    requires
        f >= 3,
    ensures
        stages_from(plan, after_modules(plan), f) == (if plan.reuse_runtime {
            seq![]
        } else {
            seq![Stage::Link]
        }) + (if plan.crac {
            seq![Stage::Checkpoint]
        } else {
            seq![]
        }) + seq![Stage::Pack],
{
    lemma_run_image(plan, f);
    lemma_run_image(plan, (f - 1) as nat);
    if !plan.reuse_runtime {
        assert(stages_from(plan, Stage::Link, f) =~= seq![Stage::Link] + stages_from(plan, after_image(plan), (f - 1) as nat));
    }
}

proof fn lemma_run_probe(plan: StagePlan, f: nat)
    requires
        f >= 6,
    ensures
        stages_from(plan, Stage::Probe, f) == seq![Stage::Probe, Stage::Runtime] + (if plan.modules_override {
            seq![]
        } else {
            seq![Stage::Modules]
        }) + stages_from(plan, after_modules(plan), 3),
{
    lemma_run_modules(plan, 3);
    lemma_run_modules(plan, (f - 2) as nat);
    lemma_run_modules(plan, (f - 3) as nat);
    let rest = stages_from(plan, Stage::Runtime, (f - 1) as nat);
    if plan.modules_override {
        assert(rest =~= seq![Stage::Runtime] + stages_from(plan, after_modules(plan), (f - 2) as nat));
    } else {
        assert(stages_from(plan, Stage::Modules, (f - 2) as nat) =~= seq![Stage::Modules] + stages_from(plan, after_modules(plan), (f - 3) as nat));
        assert(rest =~= seq![Stage::Runtime] + stages_from(plan, Stage::Modules, (f - 2) as nat));
    }
    assert(stages_from(plan, Stage::Probe, f) =~= seq![Stage::Probe] + rest);
}

/// A run from the first stage visits exactly the planned stages, in order.
pub proof fn lemma_planned_run(plan: StagePlan)
    ensures
        stages_from(plan, first_stage_of(plan), 11) == planned_stages(plan),
{
    lemma_run_modules(plan, 3);
    let tail = stages_from(plan, after_modules(plan), 3);
    let from_probe = seq![Stage::Probe, Stage::Runtime] + (if plan.modules_override {
        seq![]
    } else {
        seq![Stage::Modules]
    }) + tail;
    lemma_run_probe(plan, 6);
    lemma_run_probe(plan, 7);
    lemma_run_probe(plan, 8);
    lemma_run_probe(plan, 9);
    lemma_run_probe(plan, 10);
    let n: nat = if plan.is_jar_input {
        10
    } else {
        9
    };
    let after = stages_from(plan, after_archive(plan), n);
    if plan.shrink {
        assert(stages_from(plan, Stage::Shrink, n) =~= seq![Stage::Shrink] + stages_from(plan, Stage::Probe, (n - 1) as nat));
        assert(stages_from(plan, Stage::Probe, (n - 1) as nat) == from_probe);
        assert(after =~= seq![Stage::Shrink] + from_probe);
    } else {
        assert(stages_from(plan, Stage::Probe, n) == from_probe);
        assert(after =~= seq![] + from_probe);
    }
    assert(after =~= (if plan.shrink {
        seq![Stage::Shrink]
    } else {
        seq![]
    }) + from_probe);
    if plan.is_jar_input {
        assert(stages_from(plan, Stage::Input, 11) =~= seq![Stage::Input] + after);
    } else {
        assert(stages_from(plan, Stage::Build, 10) =~= seq![Stage::Build] + after);
        assert(stages_from(plan, Stage::Detect, 11) =~= seq![Stage::Detect] + stages_from(plan, Stage::Build, 10));
    }
    assert(stages_from(plan, first_stage_of(plan), 11) =~= planned_stages(plan));
}

/// The subprojects a `--all` build packs, with the executable each gets:
/// `base/<name>`.
pub open spec fn build_all_targets(subs: Seq<Subproject>, base: Seq<char>) -> Seq<(Seq<char>, Seq<char>)> {
    subs.map_values(|s: Subproject| (s.name@, crate::config::join_path(base, s.name@)))
}

/// Plans a build of every application subproject: refused unless the project
/// is a multi-project build with application subprojects.
pub fn plan_build_all(detected: &crate::detect::DetectedBuild, base_output: &str) -> (r: Result<Vec<(String, String)>, PackError>)
    ensures
        match detected {
            crate::detect::DetectedBuild::Simple(_) => r matches Err(PackError::BuildFailed(m)) && m@
                == "--all flag requires a Gradle multi-project build. No subprojects with application plugin found."@,
            crate::detect::DetectedBuild::GradleMultiProject { app_subprojects, .. } => if app_subprojects@.len() == 0 {
                r matches Err(PackError::BuildFailed(m)) && m@ == "No application subprojects found in Gradle multi-project."@
            } else {
                r matches Ok(v) && pairs_view(v@) == build_all_targets(app_subprojects@, base_output@)
            },
        },
{
    match detected {
        crate::detect::DetectedBuild::Simple(_) => Err(PackError::BuildFailed(owned(
            "--all flag requires a Gradle multi-project build. No subprojects with application plugin found.",
        ))),
        crate::detect::DetectedBuild::GradleMultiProject { app_subprojects, .. } => {
            if app_subprojects.len() == 0 {
                return Err(PackError::BuildFailed(owned("No application subprojects found in Gradle multi-project.")));
            }
            let mut out: Vec<(String, String)> = Vec::new();
            let mut i: usize = 0;
            while i < app_subprojects.len()
                invariant
                    i <= app_subprojects@.len(),
                    pairs_view(out@) == build_all_targets(app_subprojects@.subrange(0, i as int), base_output@),
                decreases app_subprojects@.len() - i,
            {
                let name = app_subprojects[i].name.clone();
                let path = crate::config::join_path_str(base_output, name.as_str());
                let ghost before = pairs_view(out@);
                out.push((name, path));
                assert(pairs_view(out@) =~= before.push((name@, path@)));
                assert(build_all_targets(app_subprojects@.subrange(0, i + 1), base_output@) =~= build_all_targets(
                    app_subprojects@.subrange(0, i as int),
                    base_output@,
                ).push((app_subprojects@[i as int].name@, crate::config::join_path(base_output@, app_subprojects@[i as int].name@))));
                assert(pairs_view(out@) =~= build_all_targets(app_subprojects@.subrange(0, i + 1), base_output@));
                i += 1;
            }
            assert(app_subprojects@.subrange(0, app_subprojects@.len() as int) =~= app_subprojects@);
            Ok(out)
        },
    }
}

} // verus!

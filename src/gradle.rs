//! Gradle projects: their subprojects and which of them are applications.
use vstd::prelude::*;
use crate::pattern::{
    all_groups_view, captures, captures_all, group_if, group_opt, group_view, groups_view, regex_captures,
    regex_captures_all, GroupsView,
};
use crate::text::{contains, find_from, find_spec, has_prefix, owned, starts_with, str_eq, str_views, trim, trimmed, views};

verus! {

/// A parsed Gradle project (potentially multi-module).
#[derive(Debug)]
pub struct GradleProject {
    pub root: String,
    pub subprojects: Vec<Subproject>,
}

/// A Gradle subproject with application-related configuration.
#[derive(Debug)]
pub struct Subproject {
    pub name: String,
    pub path: String,
    pub has_application: bool,
    pub main_class: Option<String>,
    pub add_modules: Vec<String>,
}

/// The application subprojects, in order.
pub open spec fn app_subprojects(v: Seq<Subproject>) -> Seq<Subproject>
    decreases v.len(),
{
    if v.len() == 0 {
        seq![]
    } else if v.last().has_application {
        app_subprojects(v.drop_last()).push(v.last())
    } else {
        app_subprojects(v.drop_last())
    }
}

/// What a subproject says, as plain values.
pub open spec fn subproject_view(s: Subproject) -> (Seq<char>, Seq<char>, bool, Option<Seq<char>>, Seq<String>) {
    (
        s.name@,
        s.path@,
        s.has_application,
        match s.main_class {
            Some(m) => Some(m@),
            None => None,
        },
        s.add_modules@,
    )
}

pub open spec fn subproject_views(v: Seq<Subproject>) -> Seq<(Seq<char>, Seq<char>, bool, Option<Seq<char>>, Seq<String>)> {
    v.map_values(|s: Subproject| subproject_view(s))
}

pub open spec fn deref_all(v: Seq<&Subproject>) -> Seq<Subproject> {
    v.map_values(|s: &Subproject| *s)
}

/// A copy of a list of strings.
pub fn copy_strings(v: &Vec<String>) -> (r: Vec<String>)
    ensures
        r@ == v@,
{
    let mut r: Vec<String> = Vec::new();
    let mut i: usize = 0;
    while i < v.len()
        invariant
            i <= v@.len(),
            r@ == v@.subrange(0, i as int),
        decreases v@.len() - i,
    {
        r.push(v[i].clone());
        assert(r@ =~= v@.subrange(0, i + 1));
        i += 1;
    }
    assert(v@.subrange(0, v@.len() as int) =~= v@);
    r
}

impl Subproject {
    /// A field-by-field copy.
    pub fn copy(&self) -> (r: Subproject)
        ensures
            subproject_view(r) == subproject_view(*self),
    {
        let main_class = match &self.main_class {
            Some(m) => Some(m.clone()),
            None => None,
        };
        Subproject {
            name: self.name.clone(),
            path: self.path.clone(),
            has_application: self.has_application,
            main_class,
            add_modules: copy_strings(&self.add_modules),
        }
    }
}

impl GradleProject {
    /// Subprojects that have the application plugin.
    pub fn application_subprojects(&self) -> (r: Vec<&Subproject>)
        ensures
            deref_all(r@) == app_subprojects(self.subprojects@),
    {
        let mut r: Vec<&Subproject> = Vec::new();
        let mut i: usize = 0;
        while i < self.subprojects.len()
            invariant
                i <= self.subprojects@.len(),
                deref_all(r@) == app_subprojects(self.subprojects@.subrange(0, i as int)),
            decreases self.subprojects@.len() - i,
        {
            let s = &self.subprojects[i];
            proof {
                let t = self.subprojects@.subrange(0, i + 1);
                assert(t.drop_last() =~= self.subprojects@.subrange(0, i as int));
            }
            if s.has_application {
                r.push(s);
            }
            assert(deref_all(r@) =~= app_subprojects(self.subprojects@.subrange(0, i + 1)));
            i += 1;
        }
        assert(self.subprojects@.subrange(0, self.subprojects@.len() as int) =~= self.subprojects@);
        r
    }

    /// Copies of the application subprojects, in order.
    pub fn application_subproject_copies(&self) -> (r: Vec<Subproject>)
        ensures
            subproject_views(r@) == subproject_views(app_subprojects(self.subprojects@)),
    {
        let mut r: Vec<Subproject> = Vec::new();
        let mut i: usize = 0;
        while i < self.subprojects.len()
            invariant
                i <= self.subprojects@.len(),
                subproject_views(r@) == subproject_views(app_subprojects(self.subprojects@.subrange(0, i as int))),
            decreases self.subprojects@.len() - i,
        {
            let s = &self.subprojects[i];
            proof {
                let t = self.subprojects@.subrange(0, i + 1);
                assert(t.drop_last() =~= self.subprojects@.subrange(0, i as int));
            }
            let ghost before = r@;
            if s.has_application {
                let c = s.copy();
                r.push(c);
                assert(subproject_views(r@) =~= subproject_views(before).push(subproject_view(*s)));
            }
            assert(subproject_views(r@) =~= subproject_views(app_subprojects(self.subprojects@.subrange(0, i + 1))));
            i += 1;
        }
        assert(self.subprojects@.subrange(0, self.subprojects@.len() as int) =~= self.subprojects@);
        r
    }

    /// A build of several modules: more than one subproject, or one that is
    /// not the root project itself.
    pub fn is_multi_project(&self) -> (r: bool)
        ensures
            r == (self.subprojects@.len() > 1 || (self.subprojects@.len() == 1
                && self.subprojects@[0].name@ != "(root)"@)),
    {
        self.subprojects.len() > 1 || (self.subprojects.len() == 1 && !str_eq(
            self.subprojects[0].name.as_str(),
            "(root)",
        ))
    }
}

/// Whether a build script applies the `application` plugin, in one of the
/// forms the Kotlin and Groovy DSLs use.
pub open spec fn applies_application(content: Seq<char>) -> bool {
    crate::text::has_infix(content, "id(\"application\")"@) || crate::text::has_infix(
        content,
        "id 'application'"@,
    ) || crate::text::has_infix(content, "id \"application\""@) || crate::text::has_infix(
        content,
        "plugin: 'application'"@,
    ) || crate::text::has_infix(content, "apply plugin: 'application'"@) || crate::text::has_infix(
        content,
        "apply plugin: \"application\""@,
    )
}

pub fn has_application_plugin(content: &str) -> (r: bool)
    ensures
        r == applies_application(content@),
{
    contains(content, "id(\"application\")") || contains(content, "id 'application'") || contains(
        content,
        "id \"application\"",
    ) || contains(content, "plugin: 'application'") || contains(
        content,
        "apply plugin: 'application'",
    ) || contains(content, "apply plugin: \"application\"")
}

pub const PROJECT_RE: &'static str = r#"["':]+([a-zA-Z0-9_\-:]+)["']"#;
pub const MAIN_CLASS_KTS_RE: &'static str = r#"mainClass\.set\s*\(\s*["']([^"']+)["']\s*\)"#;
pub const MAIN_CLASS_GROOVY_RE: &'static str = r#"mainClass(?:Name)?\s*=\s*["']([^"']+)["']"#;
pub const ADD_MODULE_RE: &'static str = r#"addModules\.add\s*\(\s*["']([^"']+)["']\s*\)"#;
pub const ADD_MODULES_ALL_RE: &'static str = r#"addModules\.addAll\s*\(\s*listOf\s*\(([^)]+)\)\s*\)"#;
pub const QUOTED_RE: &'static str = r#"["']([^"']+)["']"#;

/// The main class a build script sets, in the Kotlin or else the Groovy form.
pub open spec fn main_class_of(content: Seq<char>) -> Option<Seq<char>> {
    match regex_captures(MAIN_CLASS_KTS_RE@, content) {
        Some(c) => group_opt(c, 1),
        None => match regex_captures(MAIN_CLASS_GROOVY_RE@, content) {
            Some(c) => group_opt(c, 1),
            None => None,
        },
    }
}

/// Extracts `mainClass.set("...")`, `mainClass = '...'` or `mainClassName = '...'`.
pub fn extract_main_class(content: &str) -> (r: Option<String>)
    ensures
        group_view(r) == main_class_of(content@),
{
    match captures(MAIN_CLASS_KTS_RE, content) {
        Some(c) => group_if(&c, 1),
        None => match captures(MAIN_CLASS_GROOVY_RE, content) {
            Some(c) => group_if(&c, 1),
            None => None,
        },
    }
}

/// Group 1 of each match that has it, in order.
pub open spec fn first_groups(ms: Seq<GroupsView>) -> Seq<Seq<char>>
    decreases ms.len(),
{
    if ms.len() == 0 {
        seq![]
    } else {
        let prev = first_groups(ms.drop_last());
        match group_opt(ms.last(), 1) {
            Some(g) => prev.push(g),
            None => prev,
        }
    }
}

/// The quoted names inside each `addModules.addAll(listOf(...))`, in order.
pub open spec fn listed_modules(ms: Seq<GroupsView>) -> Seq<Seq<char>>
    decreases ms.len(),
{
    if ms.len() == 0 {
        seq![]
    } else {
        let prev = listed_modules(ms.drop_last());
        match group_opt(ms.last(), 1) {
            Some(inner) => prev + first_groups(regex_captures_all(QUOTED_RE@, inner)),
            None => prev,
        }
    }
}

/// The modules a build script adds to the runtime.
pub open spec fn add_modules_of(content: Seq<char>) -> Seq<Seq<char>> {
    first_groups(regex_captures_all(ADD_MODULE_RE@, content)) + listed_modules(
        regex_captures_all(ADD_MODULES_ALL_RE@, content),
    )
}

/// Appends group 1 of each match.
pub fn push_first_groups(out: &mut Vec<String>, ms: &Vec<Vec<Option<String>>>)
    ensures
        views(final(out)@) == views(old(out)@) + first_groups(all_groups_view(ms@)),
{
    let mut i: usize = 0;
    while i < ms.len()
        invariant
            i <= ms@.len(),
            views(out@) == views(old(out)@) + first_groups(all_groups_view(ms@.subrange(0, i as int))),
        decreases ms@.len() - i,
    {
        proof {
            let t = all_groups_view(ms@.subrange(0, i + 1));
            assert(t.drop_last() =~= all_groups_view(ms@.subrange(0, i as int)));
            assert(t.last() == groups_view(ms@[i as int]@));
        }
        let ghost before = views(out@);
        match group_if(&ms[i], 1) {
            Some(g) => {
                out.push(g);
                assert(views(out@) =~= before.push(g@));
            },
            None => {},
        }
        i += 1;
        assert(views(out@) =~= views(old(out)@) + first_groups(all_groups_view(ms@.subrange(0, i as int))));
    }
    assert(ms@.subrange(0, ms@.len() as int) =~= ms@);
}

/// Extracts `addModules.add("...")` and `addModules.addAll(listOf(...))` entries.
pub fn extract_add_modules(content: &str) -> (r: Vec<String>)
    ensures
        views(r@) == add_modules_of(content@),
{
    let mut modules: Vec<String> = Vec::new();
    push_first_groups(&mut modules, &captures_all(ADD_MODULE_RE, content));
    let ghost head = views(modules@);
    let lists = captures_all(ADD_MODULES_ALL_RE, content);
    let mut i: usize = 0;
    while i < lists.len()
        invariant
            i <= lists@.len(),
            views(modules@) == head + listed_modules(all_groups_view(lists@.subrange(0, i as int))),
        decreases lists@.len() - i,
    {
        proof {
            let t = all_groups_view(lists@.subrange(0, i + 1));
            assert(t.drop_last() =~= all_groups_view(lists@.subrange(0, i as int)));
            assert(t.last() == groups_view(lists@[i as int]@));
        }
        match group_if(&lists[i], 1) {
            Some(inner) => {
                push_first_groups(&mut modules, &captures_all(QUOTED_RE, inner.as_str()));
            },
            None => {},
        }
        i += 1;
        assert(views(modules@) =~= head + listed_modules(all_groups_view(lists@.subrange(0, i as int))));
    }
    assert(lists@.subrange(0, lists@.len() as int) =~= lists@);
    modules
}

/// `s` without leading colons.
pub open spec fn strip_colons(s: Seq<char>) -> Seq<char>
    decreases s.len(),
{
    if s.len() > 0 && s[0] == ':' {
        strip_colons(s.drop_first())
    } else {
        s
    }
}

/// The code of a settings line: the trimmed line up to a `//` comment.
pub open spec fn code_of(t: Seq<char>) -> Seq<char> {
    let k = find_spec(t, "//"@, 0);
    if k >= 0 && k <= t.len() {
        t.subrange(0, k)
    } else {
        t
    }
}

/// Whether a trimmed settings line includes projects.
pub open spec fn is_include_line(t: Seq<char>) -> bool {
    !(has_prefix(t, "//"@) || has_prefix(t, "#"@) || has_prefix(t, "*"@)) && has_prefix(code_of(t), "include"@)
        && !has_prefix(code_of(t), "includeBuild"@) && !has_prefix(code_of(t), "includeFlat"@)
}

/// Adds names not yet present, in order.
pub open spec fn add_new(acc: Seq<Seq<char>>, names: Seq<Seq<char>>) -> Seq<Seq<char>>
    decreases names.len(),
{
    if names.len() == 0 {
        acc
    } else {
        let n = strip_colons(names[0]);
        add_new(if acc.contains(n) {
            acc
        } else {
            acc.push(n)
        }, names.drop_first())
    }
}

/// The projects included by the lines from `i` on, after `acc`.
pub open spec fn includes_scan(lines: Seq<Seq<char>>, i: int, acc: Seq<Seq<char>>) -> Seq<Seq<char>>
    decreases lines.len() - i,
{
    if i < 0 || i >= lines.len() {
        acc
    } else {
        let t = trimmed(lines[i]);
        if is_include_line(t) {
            includes_scan(lines, i + 1, add_new(acc, first_groups(regex_captures_all(PROJECT_RE@, code_of(t)))))
        } else {
            includes_scan(lines, i + 1, acc)
        }
    }
}

fn strip_leading_colons(s: &str) -> (r: &str)
    ensures
        r@ == strip_colons(s@),
{
    let n = s.unicode_len();
    let mut i: usize = 0;
    assert(s@.subrange(0, n as int) =~= s@);
    while i < n && s.get_char(i) == ':'
        invariant
            n == s@.len(),
            i <= n,
            strip_colons(s@) == strip_colons(s@.subrange(i as int, n as int)),
        decreases n - i,
    {
        assert(s@.subrange(i as int, n as int).drop_first() =~= s@.subrange(i + 1, n as int));
        i += 1;
    }
    s.substring_char(i, n)
}

fn add_new_names(acc: &mut Vec<String>, names: &Vec<String>)
    ensures
        views(final(acc)@) == add_new(views(old(acc)@), views(names@)),
{
    let mut i: usize = 0;
    assert(views(names@).subrange(0, names@.len() as int) =~= views(names@));
    while i < names.len()
        invariant
            i <= names@.len(),
            add_new(views(old(acc)@), views(names@)) == add_new(views(acc@), views(names@).subrange(i as int, names@.len() as int)),
        decreases names@.len() - i,
    {
        let n = strip_leading_colons(names[i].as_str());
        let mut seen = false;
        let mut j: usize = 0;
        while j < acc.len()
            invariant
                j <= acc@.len(),
                seen == exists|q: int| 0 <= q < j && views(acc@)[q] == n@,
            decreases acc@.len() - j,
        {
            let same = str_eq(acc[j].as_str(), n);
            proof {
                assert(views(acc@)[j as int] == acc@[j as int]@);
                if !same {
                    assert forall|q: int| 0 <= q < j + 1 && views(acc@)[q] == n@ implies 0 <= q < j
                        && views(acc@)[q] == n@ by {}
                }
            }
            if same {
                seen = true;
            }
            j += 1;
        }
        proof {
            let rest = views(names@).subrange(i as int, names@.len() as int);
            assert(rest[0] == names@[i as int]@);
            assert(rest.drop_first() =~= views(names@).subrange(i + 1, names@.len() as int));
            if views(acc@).contains(n@) {
                let q = choose|q: int| 0 <= q < views(acc@).len() && views(acc@)[q] == n@;
                assert(seen);
            }
        }
        let ghost before = views(acc@);
        if !seen {
            acc.push(owned(n));
            assert(views(acc@) =~= before.push(n@));
        }
        i += 1;
    }
    assert(views(names@).subrange(names@.len() as int, names@.len() as int) =~= seq![]);
}

/// Projects a settings script includes with `include`, without duplicates
/// (not `includeBuild` or `includeFlat`, and not in comments).
pub fn parse_includes(content: &str) -> (r: Vec<String>)
    ensures
        views(r@) == includes_scan(crate::parser::lines_from(content@, 0), 0, seq![]),
{
    let lines = crate::parser::split_lines(content);
    let ghost lv = views(lines@);
    let mut includes: Vec<String> = Vec::new();
    let mut i: usize = 0;
    assert(views(includes@) =~= seq![]);
    while i < lines.len()
        invariant
            lv == views(lines@),
            i <= lines@.len(),
            includes_scan(lv, 0, seq![]) == includes_scan(lv, i as int, views(includes@)),
        decreases lines@.len() - i,
    {
        let t = trim(lines[i].as_str());
        let skip = starts_with(t, "//") || starts_with(t, "#") || starts_with(t, "*");
        let code = match find_from(t, "//", 0) {
            Some(k) => t.substring_char(0, k),
            None => t,
        };
        if !skip && starts_with(code, "include") && !starts_with(code, "includeBuild") && !starts_with(code, "includeFlat") {
            let mut names: Vec<String> = Vec::new();
            push_first_groups(&mut names, &captures_all(PROJECT_RE, code));
            assert(views(names@) =~= first_groups(regex_captures_all(PROJECT_RE@, code@)));
            add_new_names(&mut includes, &names);
        }
        i += 1;
    }
    includes
}

/// Build output and tool directories.
pub open spec fn skip_dir_names() -> Seq<Seq<char>> {
    seq![
        "build"@,
        "build-logic"@,
        ".gradle"@,
        ".git"@,
        "gradle"@,
        "buildSrc"@,
        "node_modules"@,
        "target"@,
        ".idea"@,
        "versions"@,
        "test-support"@,
    ]
}

/// Directories never taken for subprojects.
pub open spec fn skipped_dir(name: Seq<char>) -> bool {
    skip_dir_names().contains(name) || has_prefix(name, "."@)
}

/// Whether a directory is never a subproject: build output, tooling, or hidden.
pub fn is_skipped_dir(name: &str) -> (r: bool)
    ensures
        r == skipped_dir(name@),
{
    let list = vec![
        "build", "build-logic", ".gradle", ".git", "gradle", "buildSrc", "node_modules", "target", ".idea",
        "versions", "test-support",
    ];
    let ghost lv = skip_dir_names();
    assert(str_views(list@) =~= lv);
    let mut i: usize = 0;
    while i < list.len()
        invariant
            i <= list@.len(),
            str_views(list@) == lv,
            lv == skip_dir_names(),
            forall|j: int| 0 <= j < i ==> lv[j] != name@,
        decreases list@.len() - i,
    {
        if str_eq(list[i], name) {
            assert(lv[i as int] == name@);
            assert(lv.contains(name@));
            return true;
        }
        i += 1;
    }
    assert(!lv.contains(name@));
    starts_with(name, ".")
}

} // verus!

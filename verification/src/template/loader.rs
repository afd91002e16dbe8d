//! What the template loader decides: where templates come from, which file
//! names a template may have, when a cached template may be used, how the
//! names found on disk are listed, and which templates a template depends on.
//!
//! Reading directories and files, and running git, are not here.

use vstd::prelude::*;
use crate::patterns::{groups_view, regex_all_captures, regex_captures_all, regex_valid};
use crate::template::slice::cat2;
use crate::text::{str_in_exec, strs};
use crate::time::Span;

verus! {

/// Template source configuration
#[derive(Debug, Clone)]
pub enum TemplateSource {
    /// Load templates from local filesystem directories
    Local(Vec<String>),
    /// Load templates from a Git repository
    Git {
        /// Git repository URL
        url: String,
        /// Branch or commit to use
        ref_spec: String,
        /// Subdirectory within the repository containing templates
        template_dir: Option<String>,
        /// Local path for cloning the repository
        local_clone_path: String,
    },
}

/// The extensions a template file may have, the bare name first.
pub open spec fn template_extensions() -> Seq<Seq<char>> {
    seq![""@, ".j2"@, ".jinja"@, ".jinja2"@, ".tmpl"@]
}

/// The file names tried for a template, in the order they are tried.
pub fn template_file_names(template_name: &str) -> (r: Vec<String>)
    ensures
        strs(r@) == template_extensions().map_values(|e: Seq<char>| template_name@ + e),
{
    let mut r: Vec<String> = Vec::new();
    r.push(template_name.to_string());
    r.push(cat2(template_name, ".j2"));
    r.push(cat2(template_name, ".jinja"));
    r.push(cat2(template_name, ".jinja2"));
    r.push(cat2(template_name, ".tmpl"));
    proof {
        reveal_strlit("");
        assert(template_name@ + ""@ =~= template_name@);
        assert(strs(r@) =~= template_extensions().map_values(|e: Seq<char>| template_name@ + e));
    }
    r
}

/// Whether a cached template may be served instead of reading its file.
/// Without hot reloading any cached copy is served; with it, only one that
/// is at least as recent as the file's modification time, when that time
/// can be read.
pub open spec fn cache_usable(hot_reload: bool, cached_at: Option<Span>, file_modified: Option<Span>) -> bool {
    match cached_at {
        None => false,
        Some(c) => !hot_reload || (file_modified matches Some(m) && m.nanos <= c.nanos),
    }
}

/// Decide whether to serve a cached template: `cached_at` is when the
/// cached copy's file was last modified, `file_modified` the file's
/// modification time now.
pub fn use_cached_template(hot_reload: bool, cached_at: Option<Span>, file_modified: Option<Span>) -> (b: bool)
    ensures
        b == cache_usable(hot_reload, cached_at, file_modified),
{
    match cached_at {
        None => false,
        Some(c) => {
            if !hot_reload {
                true
            } else {
                match file_modified {
                    Some(m) => m.nanos <= c.nanos,
                    None => false,
                }
            }
        },
    }
}

/// The template names found in the directories, sorted, each once.
pub fn list_template_names(found: Vec<String>) -> (r: Vec<String>)
    ensures
        crate::template::validation::sorted_distinct(strs(r@)),
        strs(r@).to_set() == strs(found@).to_set(),
{
    crate::template::validation::sorted_unique(found)
}

// ---------------------------------------------------------------------------
// Dependencies
// ---------------------------------------------------------------------------

pub open spec fn include_pattern() -> Seq<char> {
    "\\{\\%\\s*include\\s+[\"']([^\"']+)[\"']\\s*\\%\\}"@
}

pub open spec fn extends_pattern() -> Seq<char> {
    "\\{\\%\\s*extends\\s+[\"']([^\"']+)[\"']\\s*\\%\\}"@
}

pub open spec fn import_pattern() -> Seq<char> {
    "\\{\\%\\s*import\\s+[\"']([^\"']+)[\"']\\s*.*\\%\\}"@
}

/// The first group of each match that has one, in order.
pub open spec fn first_groups(all: Seq<Seq<Option<Seq<char>>>>) -> Seq<Seq<char>>
    decreases all.len(),
{
    if all.len() == 0 {
        Seq::empty()
    } else {
        first_groups(all.drop_last()) + if all.last().len() > 1 && all.last()[1] is Some {
            seq![all.last()[1]->0]
        } else {
            Seq::empty()
        }
    }
}

/// The names the pattern captures in the content; nothing when the pattern
/// does not compile.
pub open spec fn captured_names(pattern: Seq<char>, content: Seq<char>) -> Seq<Seq<char>> {
    if regex_valid(pattern) {
        first_groups(regex_captures_all(pattern, content))
    } else {
        Seq::empty()
    }
}

/// The templates a template names in its include, extends and import
/// statements: all includes first, then extends, then imports.
pub open spec fn dependencies_of(content: Seq<char>) -> Seq<Seq<char>> {
    captured_names(include_pattern(), content) + captured_names(extends_pattern(), content) + captured_names(
        import_pattern(),
        content,
    )
}

fn push_captured(out: &mut Vec<String>, pattern: &str, content: &str)
    ensures
        strs(final(out)@) == strs(old(out)@) + captured_names(pattern@, content@),
{
    let ghost start = strs(out@);
    match regex_all_captures(pattern, content) {
        None => {
            assert(strs(out@) =~= start + captured_names(pattern@, content@));
        },
        Some(all) => {
            let ghost av = all@.map_values(|g: Vec<Option<String>>| groups_view(g@));
            let mut i: usize = 0;
            while i < all.len()
                invariant
                    i <= all@.len(),
                    av == all@.map_values(|g: Vec<Option<String>>| groups_view(g@)),
                    strs(out@) == start + first_groups(av.take(i as int)),
                decreases all.len() - i,
            {
                let g = &all[i];
                let ghost before = strs(out@);
                proof {
                    let t = av.take(i + 1);
                    assert(t.drop_last() =~= av.take(i as int));
                    assert(t.last() == groups_view(g@));
                }
                if g.len() > 1 {
                    match &g[1] {
                        Some(name) => {
                            out.push(name.clone());
                            proof {
                                assert(groups_view(g@)[1] == Some(name@));
                                assert(strs(out@) =~= before.push(name@));
                            }
                        },
                        None => {},
                    }
                }
                proof {
                    assert(strs(out@) =~= start + first_groups(av.take(i + 1)));
                }
                i = i + 1;
            }
            assert(av.take(i as int) =~= av);
        },
    }
}

/// Extract template dependencies from template content: the names in
/// `{% include %}`, `{% extends %}` and `{% import %}` statements.
pub fn extract_dependencies(template_content: &str) -> (r: Vec<String>)
    ensures
        strs(r@) == dependencies_of(template_content@),
{
    let mut r: Vec<String> = Vec::new();
    proof {
        assert(strs(r@) =~= Seq::<Seq<char>>::empty());
    }
    push_captured(&mut r, "\\{\\%\\s*include\\s+[\"']([^\"']+)[\"']\\s*\\%\\}", template_content);
    push_captured(&mut r, "\\{\\%\\s*extends\\s+[\"']([^\"']+)[\"']\\s*\\%\\}", template_content);
    push_captured(&mut r, "\\{\\%\\s*import\\s+[\"']([^\"']+)[\"']\\s*.*\\%\\}", template_content);
    proof {
        assert(strs(r@) =~= dependencies_of(template_content@));
    }
    r
}


// ---------------------------------------------------------------------------
// Dependency resolution
// ---------------------------------------------------------------------------

/// Why a template's dependencies could not be resolved.
#[derive(Debug, Clone, PartialEq)]
pub enum DependencyError {
    /// A template depends on itself, directly or through others
    Circular(String),
    /// A template could not be loaded: the loader's message
    Load(String),
}

pub open spec fn dependency_error_text(e: DependencyError) -> Seq<char> {
    match e {
        DependencyError::Circular(n) => "Circular dependency detected involving template: "@ + n@,
        DependencyError::Load(m) => m@,
    }
}

impl DependencyError {
    /// The message the error is reported with.
    pub fn message(&self) -> (s: String)
        ensures
            s@ == dependency_error_text(*self),
    {
        match self {
            DependencyError::Circular(n) => cat2("Circular dependency detected involving template: ", n.as_str()),
            DependencyError::Load(m) => m.clone(),
        }
    }
}

/// A template whose dependencies are being resolved: its name, the
/// dependencies its content names, and how many of them are resolved.
#[derive(Debug)]
pub struct Frame {
    pub name: String,
    pub deps: Vec<String>,
    pub next: usize,
}

/// What the caller reports back: the loaded template's content, or why it
/// could not be loaded.
#[derive(Debug)]
pub enum WalkEvent {
    Loaded(String),
    LoadFailed(String),
}

/// What the walk asks for next: load a template, or the walk is over.
#[derive(Debug)]
pub enum WalkAction {
    Load(String),
    Done(Vec<String>),
    Failed(DependencyError),
}

/// A depth-first resolution of a template's dependencies, driven by the
/// caller, who loads each template it asks for.
pub struct DependencyWalk {
    /// The template whose dependencies are resolved
    pub root: String,
    /// The resolved templates, each after its dependencies
    pub resolved: Vec<String>,
    /// The dependencies of each resolved template
    pub finished: Vec<Vec<String>>,
    /// The templates being resolved, outermost first
    pub stack: Vec<Frame>,
    /// The template the caller is asked to load
    pub pending: Option<String>,
    /// The content of every template loaded so far, by name
    pub loaded: Ghost<Map<Seq<char>, Seq<char>>>,
}

pub open spec fn names_on(st: Seq<Frame>) -> Seq<Seq<char>> {
    st.map_values(|f: Frame| f.name@)
}

pub open spec fn no_dups(s: Seq<Seq<char>>) -> bool {
    forall|i: int, j: int| 0 <= i < j < s.len() ==> #[trigger] s[i] != #[trigger] s[j]
}

/// `d` is among the first `i` elements of `s`.
pub open spec fn comes_before(s: Seq<Seq<char>>, d: Seq<char>, i: int) -> bool {
    exists|j: int| 0 <= j < i && #[trigger] s[j] == d
}

/// Every dependency of each template comes before it.
pub open spec fn topological(order: Seq<Seq<char>>, deps: Seq<Seq<Seq<char>>>) -> bool {
    forall|i: int, k: int| 0 <= i < order.len() && 0 <= k < deps[i].len() ==> comes_before(order, #[trigger] deps[i][k], i)
}

/// `x` is among the dependencies of a template after position `i`.
pub open spec fn needed_later(deps: Seq<Seq<Seq<char>>>, x: Seq<char>, i: int) -> bool {
    exists|j: int| i < j < deps.len() && (#[trigger] deps[j]).contains(x)
}

/// `x` is among the dependencies of a template on the stack.
pub open spec fn needed_on(st: Seq<Frame>, x: Seq<char>) -> bool {
    exists|k: int| 0 <= k < st.len() && strs((#[trigger] st[k]).deps@).contains(x)
}

/// The amount of work left on the stack.
pub open spec fn work_left(st: Seq<Frame>) -> nat
    decreases st.len(),
{
    if st.len() == 0 {
        0
    } else {
        work_left(st.drop_last()) + (st.last().deps@.len() - st.last().next) as nat + 1
    }
}

impl DependencyWalk {
    pub open spec fn order(self) -> Seq<Seq<char>> {
        strs(self.resolved@)
    }

    pub open spec fn all_deps(self) -> Seq<Seq<Seq<char>>> {
        self.finished@.map_values(|d: Vec<String>| strs(d@))
    }

    pub open spec fn frames_ok(self) -> bool {
        let r = self.order();
        let st = self.stack@;
        &&& forall|j: int| 0 <= j < st.len() ==> (#[trigger] st[j]).next <= st[j].deps@.len()
        &&& forall|j: int, k: int| 0 <= j < st.len() && 0 <= k < st[j].next ==> r.contains(#[trigger] st[j].deps@[k]@)
        &&& forall|j: int|
            0 <= j < st.len() - 1 ==> (#[trigger] st[j]).next < st[j].deps@.len() && st[j].deps@[st[j].next as int]@
                == st[j + 1].name@
    }

    pub open spec fn pending_ok(self) -> bool {
        let r = self.order();
        let st = self.stack@;
        match self.pending {
            Some(p) => {
                &&& !r.contains(p@)
                &&& !names_on(st).contains(p@)
                &&& (st.len() == 0 ==> r.len() == 0 && p@ == self.root@)
                &&& (st.len() > 0 ==> st.last().next < st.last().deps@.len() && st.last().deps@[st.last().next as int]@ == p@)
            },
            None => true,
        }
    }

    /// The dependencies recorded for each template, on the stack or
    /// resolved, are those its loaded content names.
    pub open spec fn deps_from_content(self) -> bool {
        let r = self.order();
        let st = self.stack@;
        &&& forall|j: int| 0 <= j < st.len() ==> self.loaded@.dom().contains((#[trigger] st[j]).name@) && strs(st[j].deps@)
            == dependencies_of(self.loaded@[st[j].name@])
        &&& forall|i: int| 0 <= i < r.len() ==> self.loaded@.dom().contains(#[trigger] r[i]) && self.all_deps()[i]
            == dependencies_of(self.loaded@[r[i]])
    }

    /// Every resolved template is the root, a dependency of a template
    /// resolved after it, or a dependency of a template being resolved.
    pub open spec fn justified(self) -> bool {
        let r = self.order();
        forall|i: int| 0 <= i < r.len() ==> #[trigger] r[i] == self.root@ || needed_later(self.all_deps(), r[i], i)
            || needed_on(self.stack@, r[i])
    }

    /// The walk's invariant.
    pub open spec fn wf(self) -> bool {
        let r = self.order();
        let ns = names_on(self.stack@);
        &&& self.finished@.len() == self.resolved@.len()
        &&& no_dups(r)
        &&& no_dups(ns)
        &&& forall|k: int| 0 <= k < ns.len() ==> !r.contains(#[trigger] ns[k])
        &&& topological(r, self.all_deps())
        &&& self.frames_ok()
        &&& (self.stack@.len() > 0 ==> self.stack@[0].name@ == self.root@)
        &&& self.pending_ok()
        &&& self.deps_from_content()
        &&& self.justified()
    }

    /// Start resolving the dependencies of `root`: the caller is asked to
    /// load it.
    pub fn start(root: String) -> (r: (Self, WalkAction))
        ensures
            r.0.wf(),
            r.0.root == root,
            r.0.order().len() == 0,
            r.0.stack@.len() == 0,
            r.0.pending == Some(root),
            r.0.loaded@ == Map::<Seq<char>, Seq<char>>::empty(),
            r.1 matches WalkAction::Load(n) && n == root,
    {
        let w = DependencyWalk {
            root: root.clone(),
            resolved: Vec::new(),
            finished: Vec::new(),
            stack: Vec::new(),
            pending: Some(root.clone()),
            loaded: Ghost(Map::empty()),
        };
        proof {
            assert(w.order() =~= Seq::<Seq<char>>::empty());
            assert(names_on(w.stack@) =~= Seq::<Seq<char>>::empty());
        }
        (w, WalkAction::Load(root))
    }

    fn on_stack(&self, d: &String) -> (b: bool)
        ensures
            b == names_on(self.stack@).contains(d@),
    {
        let mut i: usize = 0;
        while i < self.stack.len()
            invariant
                i <= self.stack@.len(),
                forall|j: int| 0 <= j < i ==> #[trigger] self.stack@[j].name@ != d@,
            decreases self.stack.len() - i,
        {
            if self.stack[i].name == *d {
                assert(names_on(self.stack@)[i as int] == d@);
                return true;
            }
            i = i + 1;
        }
        proof {
            if names_on(self.stack@).contains(d@) {
                let j = choose|j: int| 0 <= j < names_on(self.stack@).len() && names_on(self.stack@)[j] == d@;
                assert(self.stack@[j].name@ == d@);
            }
        }
        false
    }
}


proof fn lemma_str_in_contains(v: Seq<String>, x: Seq<char>)
    ensures
        crate::text::str_in(v, x) == strs(v).contains(x),
{
    if crate::text::str_in(v, x) {
        let i = choose|i: int| 0 <= i < v.len() && #[trigger] v[i]@ == x;
        assert(strs(v)[i] == x);
    }
    if strs(v).contains(x) {
        let i = choose|i: int| 0 <= i < strs(v).len() && strs(v)[i] == x;
        assert(v[i]@ == x);
    }
}

proof fn lemma_work_pop(st: Seq<Frame>)
    requires
        st.len() > 0,
    ensures
        work_left(st) == work_left(st.drop_last()) + (st.last().deps@.len() - st.last().next) as nat + 1,
{
}

impl DependencyWalk {
    /// Resolve as far as the loaded templates allow: skip dependencies
    /// already resolved, finish the templates whose dependencies all are,
    /// and stop at the first dependency to load, or at a cycle.
    fn advance(&mut self) -> (a: WalkAction)
        requires
            old(self).wf(),
            old(self).pending is None,
            old(self).stack@.len() > 0,
        ensures
            final(self).wf(),
            final(self).root == old(self).root,
            final(self).loaded@ == old(self).loaded@,
            final(self).order().len() >= old(self).order().len(),
            final(self).order().take(old(self).order().len() as int) == old(self).order(),
            match a {
                WalkAction::Load(n) => final(self).pending == Some(n),
                WalkAction::Done(v) => strs(v@) == final(self).order() && final(self).stack@.len() == 0
                    && final(self).pending is None && final(self).order().len() > 0 && final(self).order().last()
                    == final(self).root@,
                WalkAction::Failed(e) => final(self).pending is None && (e matches DependencyError::Circular(d)
                    && names_on(final(self).stack@).contains(d@) && final(self).stack@.len() > 0
                    && final(self).stack@.last().deps@[final(self).stack@.last().next as int]@ == d@),
            },
    {
        let ghost r0 = self.order();
        let ghost root0 = self.root;
        let ghost ld0 = self.loaded@;
        while self.stack.len() > 0
            invariant
                self.wf(),
                self.loaded@ == ld0,
                ld0 == old(self).loaded@,
                self.pending is None,
                self.root == root0,
                root0 == old(self).root,
                r0 == old(self).order(),
                self.order().len() >= r0.len(),
                self.order().take(r0.len() as int) == r0,
                self.stack@.len() == 0 ==> self.order().len() > 0 && self.order().last() == self.root@,
            decreases work_left(self.stack@),
        {
            let ghost s0 = self.stack@;
            let ghost r = self.order();
            let ghost w0 = *self;
            proof {
                lemma_work_pop(s0);
            }
            let mut f = self.stack.pop().unwrap();
            proof {
                assert(self.stack@ == s0.drop_last());
                assert(f == s0.last());
            }
            if f.next < f.deps.len() {
                let d = f.deps[f.next].clone();
                proof {
                    lemma_str_in_contains(self.resolved@, d@);
                }
                if str_in_exec(&self.resolved, &d) {
                    let ghost f_old = f;
                    f.next = f.next + 1;
                    self.stack.push(f);
                    proof {
                        let s1 = self.stack@;
                        assert(s1 == s0.drop_last().push(f));
                        assert(s1.drop_last() == s0.drop_last());
                        assert(names_on(s1) =~= names_on(s0));
                        assert forall|j: int, k: int| 0 <= j < s1.len() && 0 <= k < s1[j].next implies r.contains(
                            #[trigger] s1[j].deps@[k]@,
                        ) by {
                            if j < s1.len() - 1 {
                                assert(s1[j] == s0[j]);
                            } else if k < f_old.next {
                                assert(s0[j] == f_old);
                            }
                        }
                        assert forall|j: int| 0 <= j < s1.len() - 1 implies (#[trigger] s1[j]).next < s1[j].deps@.len()
                            && s1[j].deps@[s1[j].next as int]@ == s1[j + 1].name@ by {
                            assert(s1[j] == s0[j]);
                            if j + 1 < s1.len() - 1 {
                                assert(s1[j + 1] == s0[j + 1]);
                            } else {
                                assert(s1[j + 1].name == s0[j + 1].name);
                            }
                        }
                        assert forall|j: int| 0 <= j < s1.len() implies (#[trigger] s1[j]).next <= s1[j].deps@.len() by {
                            if j < s1.len() - 1 {
                                assert(s1[j] == s0[j]);
                            }
                        }
                        if s1.len() > 1 {
                            assert(s1[0] == s0[0]);
                        }
                        assert(self.frames_ok());
                        assert forall|j: int| 0 <= j < s1.len() implies self.loaded@.dom().contains((#[trigger] s1[j]).name@)
                            && strs(s1[j].deps@) == dependencies_of(self.loaded@[s1[j].name@]) by {
                            if j < s1.len() - 1 {
                                assert(s1[j] == s0[j]);
                            } else {
                                assert(s0[j] == f_old);
                            }
                        }
                        assert forall|x: Seq<char>| needed_on(s0, x) implies needed_on(s1, x) by {
                            let k = choose|k: int| 0 <= k < s0.len() && strs((#[trigger] s0[k]).deps@).contains(x);
                            if k < s1.len() - 1 {
                                assert(s1[k] == s0[k]);
                            } else {
                                assert(s0[k] == f_old);
                            }
                            assert(strs(s1[k].deps@).contains(x));
                        }
                        assert(self.deps_from_content());
                        assert(self.justified());
                    }
                } else if f.name == d || self.on_stack(&d) {
                    self.stack.push(f);
                    proof {
                        assert(self.stack@ =~= s0);
                        if f.name@ == d@ {
                            assert(names_on(s0)[s0.len() - 1] == d@);
                        } else {
                            assert(names_on(s0.drop_last()).contains(d@));
                            let j = choose|j: int| 0 <= j < names_on(s0.drop_last()).len() && names_on(s0.drop_last())[j] == d@;
                            assert(names_on(s0)[j] == d@);
                        }
                    }
                    return WalkAction::Failed(DependencyError::Circular(d));
                } else {
                    self.stack.push(f);
                    self.pending = Some(d.clone());
                    proof {
                        assert(self.stack@ =~= s0);
                        assert(!names_on(s0).contains(d@)) by {
                            if names_on(s0).contains(d@) {
                                let j = choose|j: int| 0 <= j < names_on(s0).len() && names_on(s0)[j] == d@;
                                if j < s0.len() - 1 {
                                    assert(names_on(s0.drop_last())[j] == d@);
                                }
                            }
                        }
                    }
                    return WalkAction::Load(d);
                }
            } else {
                let ghost fname = f.name@;
                let ghost fdeps = strs(f.deps@);
                let ghost ad0 = self.all_deps();
                self.resolved.push(f.name);
                self.finished.push(f.deps);
                proof {
                    let r1 = self.order();
                    let st = self.stack@;
                    assert(r1 =~= r.push(fname));
                    assert(names_on(st) =~= names_on(s0).drop_last());
                    assert(names_on(s0)[s0.len() - 1] == fname);
                    assert(!r.contains(fname));
                    assert(no_dups(r1)) by {
                        assert forall|i: int, j: int| 0 <= i < j < r1.len() implies #[trigger] r1[i] != #[trigger] r1[j] by {
                            if j == r1.len() - 1 {
                                assert(r1[i] == r[i]);
                            }
                        }
                    }
                    assert forall|k: int| 0 <= k < names_on(st).len() implies !r1.contains(#[trigger] names_on(st)[k]) by {
                        assert(names_on(st)[k] == names_on(s0)[k]);
                        assert(names_on(s0)[k] != names_on(s0)[s0.len() - 1]);
                        if r1.contains(names_on(st)[k]) {
                            let i = choose|i: int| 0 <= i < r1.len() && r1[i] == names_on(st)[k];
                            if i < r.len() {
                                assert(r[i] == r1[i]);
                            }
                        }
                    }
                    let ad = self.all_deps();
                    assert(ad =~= ad0.push(fdeps));
                    assert forall|i: int, k: int| 0 <= i < r1.len() && 0 <= k < ad[i].len() implies comes_before(
                        r1,
                        #[trigger] ad[i][k],
                        i,
                    ) by {
                        if i < r.len() {
                            assert(ad[i] == ad0[i]);
                            assert(comes_before(r, ad0[i][k], i));
                            let j = choose|j: int| 0 <= j < i && #[trigger] r[j] == ad[i][k];
                            assert(r1[j] == r[j]);
                        } else {
                            assert(ad[i] == fdeps);
                            assert(s0[s0.len() - 1] == f);
                            assert(r.contains(f.deps@[k]@));
                            let j = choose|j: int| 0 <= j < r.len() && r[j] == f.deps@[k]@;
                            assert(r1[j] == r[j]);
                        }
                    }
                    assert forall|j: int, k: int| 0 <= j < st.len() && 0 <= k < st[j].next implies r1.contains(
                        #[trigger] st[j].deps@[k]@,
                    ) by {
                        assert(st[j] == s0[j]);
                        assert(r.contains(st[j].deps@[k]@));
                        let i = choose|i: int| 0 <= i < r.len() && r[i] == st[j].deps@[k]@;
                        assert(r1[i] == r[i]);
                    }
                    assert forall|j: int| 0 <= j < st.len() - 1 implies (#[trigger] st[j]).next < st[j].deps@.len()
                        && st[j].deps@[st[j].next as int]@ == st[j + 1].name@ by {
                        assert(st[j] == s0[j]);
                        assert(st[j + 1] == s0[j + 1]);
                    }
                    if st.len() > 0 {
                        assert(st[0] == s0[0]);
                    } else {
                        assert(s0[0] == f);
                    }
                    assert(s0[s0.len() - 1] == f);
                    assert forall|j: int| 0 <= j < st.len() implies self.loaded@.dom().contains((#[trigger] st[j]).name@)
                        && strs(st[j].deps@) == dependencies_of(self.loaded@[st[j].name@]) by {
                        assert(st[j] == s0[j]);
                    }
                    assert forall|i: int| 0 <= i < r1.len() implies self.loaded@.dom().contains(#[trigger] r1[i])
                        && ad[i] == dependencies_of(self.loaded@[r1[i]]) by {
                        if i < r.len() {
                            assert(r1[i] == r[i]);
                            assert(ad[i] == ad0[i]);
                        } else {
                            assert(r1[i] == fname);
                            assert(ad[i] == fdeps);
                        }
                    }
                    assert(self.deps_from_content());
                    assert(w0.justified());
                    assert forall|i: int| 0 <= i < r1.len() implies #[trigger] r1[i] == self.root@ || needed_later(ad, r1[i], i)
                        || needed_on(st, r1[i]) by {
                        if i < r.len() {
                            assert(r1[i] == r[i]);
                            assert(r[i] == w0.root@ || needed_later(ad0, r[i], i) || needed_on(s0, r[i]));
                            if needed_later(ad0, r[i], i) {
                                let j = choose|j: int| i < j < ad0.len() && (#[trigger] ad0[j]).contains(r[i]);
                                assert(ad[j] == ad0[j]);
                            } else if r[i] != self.root@ {
                                let k = choose|k: int| 0 <= k < s0.len() && strs((#[trigger] s0[k]).deps@).contains(r[i]);
                                if k < st.len() {
                                    assert(st[k] == s0[k]);
                                } else {
                                    let last = r.len() as int;
                                    assert(ad[last] == fdeps);
                                    assert(ad[last].contains(r[i]));
                                    assert(i < last < ad.len());
                                }
                            }
                        } else {
                            assert(r1[i] == fname);
                            if s0.len() > 1 {
                                let j = s0.len() - 2;
                                assert(st[j] == s0[j]);
                                assert(s0[j].deps@[s0[j].next as int]@ == s0[j + 1].name@);
                                assert(strs(st[j].deps@)[st[j].next as int] == fname);
                            } else {
                                assert(s0[0] == f);
                            }
                        }
                    }
                    assert(self.justified());
                    assert(r1.take(r0.len() as int) =~= r.take(r0.len() as int));
                }
            }
        }
        let out = crate::text::copy_strings(&self.resolved);
        WalkAction::Done(out)
    }
}


impl DependencyWalk {
    /// Take the caller's report on the template it was asked to load: a
    /// failure ends the walk with the loader's message; a loaded template's
    /// dependencies are resolved as far as the loaded templates allow. Says
    /// what to do next.
    pub fn step(&mut self, event: WalkEvent) -> (a: WalkAction)
        requires
            old(self).wf(),
            old(self).pending is Some,
        ensures
            final(self).wf(),
            final(self).root == old(self).root,
            final(self).order().len() >= old(self).order().len(),
            final(self).order().take(old(self).order().len() as int) == old(self).order(),
            event matches WalkEvent::LoadFailed(m) ==> (a matches WalkAction::Failed(DependencyError::Load(e)) && e == m
                && final(self).pending is None && final(self).loaded@ == old(self).loaded@),
            event matches WalkEvent::Loaded(c) ==> final(self).loaded@ == old(self).loaded@.insert(
                old(self).pending->0@,
                c@,
            ),
            event is Loaded ==> match a {
                WalkAction::Load(n) => final(self).pending == Some(n),
                WalkAction::Done(v) => strs(v@) == final(self).order() && final(self).stack@.len() == 0
                    && final(self).pending is None && final(self).order().len() > 0 && final(self).order().last()
                    == final(self).root@,
                WalkAction::Failed(e) => final(self).pending is None && (e matches DependencyError::Circular(d)
                    && names_on(final(self).stack@).contains(d@) && final(self).stack@.len() > 0
                    && final(self).stack@.last().deps@[final(self).stack@.last().next as int]@ == d@),
            },
    {
        match event {
            WalkEvent::LoadFailed(m) => {
                self.pending = None;
                WalkAction::Failed(DependencyError::Load(m))
            },
            WalkEvent::Loaded(content) => {
                let ghost w0 = *self;
                let name = self.pending.take().unwrap();
                let deps = extract_dependencies(content.as_str());
                let ghost s0 = self.stack@;
                let ghost r = self.order();
                self.loaded = Ghost(self.loaded@.insert(name@, content@));
                self.stack.push(Frame { name, deps, next: 0 });
                proof {
                    let s1 = self.stack@;
                    assert(names_on(s1) =~= names_on(s0).push(name@));
                    assert(no_dups(names_on(s1))) by {
                        assert forall|i: int, j: int| 0 <= i < j < names_on(s1).len() implies #[trigger] names_on(s1)[i]
                            != #[trigger] names_on(s1)[j] by {
                            if j == s0.len() {
                                assert(names_on(s0)[i] == names_on(s1)[i]);
                                assert(names_on(s0).contains(names_on(s0)[i]));
                            } else {
                                assert(names_on(s0)[i] == names_on(s1)[i]);
                                assert(names_on(s0)[j] == names_on(s1)[j]);
                            }
                        }
                    }
                    assert forall|k: int| 0 <= k < names_on(s1).len() implies !r.contains(#[trigger] names_on(s1)[k]) by {
                        if k < s0.len() {
                            assert(names_on(s0)[k] == names_on(s1)[k]);
                        }
                    }
                    assert forall|j: int| 0 <= j < s1.len() implies (#[trigger] s1[j]).next <= s1[j].deps@.len() by {
                        if j < s0.len() {
                            assert(s1[j] == s0[j]);
                        }
                    }
                    assert forall|j: int, k: int| 0 <= j < s1.len() && 0 <= k < s1[j].next implies r.contains(
                        #[trigger] s1[j].deps@[k]@,
                    ) by {
                        assert(j < s0.len());
                        assert(s1[j] == s0[j]);
                    }
                    assert forall|j: int| 0 <= j < s1.len() - 1 implies (#[trigger] s1[j]).next < s1[j].deps@.len()
                        && s1[j].deps@[s1[j].next as int]@ == s1[j + 1].name@ by {
                        assert(s1[j] == s0[j]);
                        if j + 1 < s0.len() {
                            assert(s1[j + 1] == s0[j + 1]);
                        }
                    }
                    if s0.len() > 0 {
                        assert(s1[0] == s0[0]);
                    }
                    assert(self.frames_ok());
                    assert(!names_on(s0).contains(name@));
                    assert(!r.contains(name@));
                    assert forall|j: int| 0 <= j < s1.len() implies self.loaded@.dom().contains((#[trigger] s1[j]).name@)
                        && strs(s1[j].deps@) == dependencies_of(self.loaded@[s1[j].name@]) by {
                        if j < s0.len() {
                            assert(s1[j] == s0[j]);
                            assert(names_on(s0)[j] == s0[j].name@);
                            assert(s0[j].name@ != name@);
                        }
                    }
                    assert forall|i: int| 0 <= i < r.len() implies self.loaded@.dom().contains(#[trigger] r[i])
                        && self.all_deps()[i] == dependencies_of(self.loaded@[r[i]]) by {
                        assert(r[i] != name@);
                    }
                    assert(self.deps_from_content());
                    assert(w0.justified());
                    assert forall|x: Seq<char>| needed_on(s0, x) implies needed_on(s1, x) by {
                        let k = choose|k: int| 0 <= k < s0.len() && strs((#[trigger] s0[k]).deps@).contains(x);
                        assert(s1[k] == s0[k]);
                    }
                    assert(self.justified());
                }
                self.advance()
            },
        }
    }
}

/// Every resolved template comes after all of its dependencies, and none
/// comes twice.
pub proof fn law_resolution_order(w: DependencyWalk)
    requires
        w.wf(),
    ensures
        no_dups(w.order()),
        topological(w.order(), w.all_deps()),
        w.all_deps().len() == w.order().len(),
{
}

/// Once the stack is empty (the walk is done), the resolved templates are
/// exactly those reachable from the root through the dependencies their
/// loaded contents name: each one's dependencies are those of its content
/// and come before it, and each one is the root or a dependency of a
/// template resolved after it.
pub proof fn law_resolution_reaches_exactly(w: DependencyWalk)
    requires
        w.wf(),
        w.stack@.len() == 0,
    ensures
        forall|i: int| 0 <= i < w.order().len() ==> w.loaded@.dom().contains(#[trigger] w.order()[i])
            && w.all_deps()[i] == dependencies_of(w.loaded@[w.order()[i]]),
        forall|i: int, k: int| 0 <= i < w.order().len() && 0 <= k < w.all_deps()[i].len() ==> comes_before(
            w.order(),
            #[trigger] w.all_deps()[i][k],
            i,
        ),
        forall|i: int| 0 <= i < w.order().len() ==> #[trigger] w.order()[i] == w.root@ || needed_later(
            w.all_deps(),
            w.order()[i],
            i,
        ),
{
    assert forall|i: int| 0 <= i < w.order().len() implies #[trigger] w.order()[i] == w.root@ || needed_later(
        w.all_deps(),
        w.order()[i],
        i,
    ) by {
        assert(!needed_on(w.stack@, w.order()[i]));
    }
}

} // verus!

//! Template scope resolution, conflict detection and composition.
//!
//! A template applies to a target context when its scope (if any) admits the
//! context's device type, vendor and configuration context. Applicable
//! templates get a priority (their own, or the resolver's default, raised when
//! the scope singles out the target's vendor or device type) and are ordered
//! by priority, highest first, then by identifier.

use vstd::prelude::*;
use crate::text::{str_in, str_in_exec, opt_str, copy_opt_string, strs, opt_strs, decimal, push_str, push_decimal, push_all, chars_to_string, string_chars, chars_eq};
use crate::order::{lex_le, str_le, lemma_lex_le_antisymmetric, lemma_lex_le_total, lemma_lex_le_transitive, lemma_lex_le_reflexive};
use crate::template::header::{TemplateHeader, TemplateScope, MatchPattern, HeaderModel, HeaderParser, HeaderError, pattern_checkable, pattern_matches};

verus! {

/// Template scope context for resolution
#[derive(Debug, Clone, PartialEq)]
pub struct ScopeContext {
    /// Device type (e.g., "router", "switch", "firewall")
    pub device_type: Option<String>,
    /// Vendor (e.g., "cisco", "juniper", "arista")
    pub vendor: Option<String>,
    /// Configuration context (e.g., "global", "interface", "routing")
    pub context: String,
    /// Additional metadata for scope matching, as key/value pairs
    pub metadata: Vec<(String, String)>,
}

pub type ContextModel = (Option<Seq<char>>, Option<Seq<char>>, Seq<char>, Seq<(Seq<char>, Seq<char>)>);

pub open spec fn pairs_model(v: Seq<(String, String)>) -> Seq<(Seq<char>, Seq<char>)> {
    v.map_values(|p: (String, String)| (p.0@, p.1@))
}

impl ScopeContext {
    pub open spec fn model(&self) -> ContextModel {
        (opt_str(self.device_type), opt_str(self.vendor), self.context@, pairs_model(self.metadata@))
    }

    /// A copy with the same content.
    pub fn duplicate(&self) -> (r: Self)
        ensures
            r.model() == self.model(),
    {
        let mut metadata: Vec<(String, String)> = Vec::new();
        let mut i: usize = 0;
        while i < self.metadata.len()
            invariant
                i <= self.metadata@.len(),
                metadata@.len() == i,
                pairs_model(metadata@) == pairs_model(self.metadata@).take(i as int),
            decreases self.metadata.len() - i,
        {
            let ghost before = metadata@;
            let k = self.metadata[i].0.clone();
            let v = self.metadata[i].1.clone();
            metadata.push((k, v));
            assert forall|j: int| 0 <= j < i + 1 implies #[trigger] pairs_model(metadata@)[j]
                == pairs_model(self.metadata@).take(i + 1)[j] by {
                if j < i {
                    assert(metadata@[j] == before[j]);
                    assert(pairs_model(before)[j] == (before[j].0@, before[j].1@));
                }
            }
            i = i + 1;
            assert(pairs_model(metadata@) =~= pairs_model(self.metadata@).take(i as int));
        }
        assert(pairs_model(self.metadata@).take(i as int) =~= pairs_model(self.metadata@));
        ScopeContext {
            device_type: copy_opt_string(&self.device_type),
            vendor: copy_opt_string(&self.vendor),
            context: self.context.clone(),
            metadata,
        }
    }
}

/// Template with resolved scope information
#[derive(Debug, Clone, PartialEq)]
pub struct ScopedTemplate {
    /// Template identifier
    pub id: String,
    /// Template content
    pub content: String,
    /// Parsed header information
    pub header: TemplateHeader,
    /// Resolved scope context
    pub scope_context: ScopeContext,
    /// Calculated priority (higher = more priority)
    pub resolved_priority: u32,
}

/// Template scope resolver
#[derive(Debug, Clone, Copy)]
pub struct ScopeResolver {
    /// Default priority for templates without explicit priority
    pub default_priority: u32,
    /// Priority boost for vendor-specific templates
    pub vendor_priority_boost: u32,
    /// Priority boost for device-type-specific templates
    pub device_type_priority_boost: u32,
}

/// A set of templates: identifier, then content and parsed header.
pub type TemplateEntry = (String, (String, TemplateHeader));

// ---------------------------------------------------------------------------
// Specification
// ---------------------------------------------------------------------------

/// A scope admits a context when each restriction it sets is met: the
/// context has a device type (vendor) among those listed, and its
/// configuration context is among those listed.
pub open spec fn scope_admits(s: TemplateScope, c: ScopeContext) -> bool {
    &&& (match s.device_types {
        Some(d) => match c.device_type {
            Some(t) => str_in(d@, t@),
            None => false,
        },
        None => true,
    })
    &&& (match s.vendors {
        Some(v) => match c.vendor {
            Some(t) => str_in(v@, t@),
            None => false,
        },
        None => true,
    })
    &&& (match s.contexts {
        Some(x) => str_in(x@, c.context@),
        None => true,
    })
}

/// A template applies to a context unless its scope excludes it.
pub open spec fn applies(h: TemplateHeader, c: ScopeContext) -> bool {
    match h.scope {
        Some(s) => scope_admits(s, c),
        None => true,
    }
}

/// The scope names exactly one vendor, and it is the context's vendor.
pub open spec fn vendor_specific(h: TemplateHeader, c: ScopeContext) -> bool {
    match h.scope {
        Some(s) => match s.vendors {
            Some(v) => match c.vendor {
                Some(t) => v@.len() == 1 && str_in(v@, t@),
                None => false,
            },
            None => false,
        },
        None => false,
    }
}

/// The scope names exactly one device type, and it is the context's.
pub open spec fn device_specific(h: TemplateHeader, c: ScopeContext) -> bool {
    match h.scope {
        Some(s) => match s.device_types {
            Some(d) => match c.device_type {
                Some(t) => d@.len() == 1 && str_in(d@, t@),
                None => false,
            },
            None => false,
        },
        None => false,
    }
}

/// The priority a template resolves to in a context.
pub open spec fn priority_in(r: ScopeResolver, h: TemplateHeader, c: ScopeContext) -> int {
    (match h.priority {
        Some(p) => p as int,
        None => r.default_priority as int,
    }) + (if vendor_specific(h, c) {
        r.vendor_priority_boost as int
    } else {
        0
    }) + (if device_specific(h, c) {
        r.device_type_priority_boost as int
    } else {
        0
    })
}

/// The resolved priority of a template fits in a `u32`.
pub open spec fn priority_fits(r: ScopeResolver, h: TemplateHeader, c: ScopeContext) -> bool {
    priority_in(r, h, c) <= u32::MAX
}

/// `st` is the scoped form of the template `(id, content, h)` in context `c`.
pub open spec fn is_scoped(
    st: ScopedTemplate,
    r: ScopeResolver,
    id: Seq<char>,
    content: Seq<char>,
    h: TemplateHeader,
    c: ScopeContext,
) -> bool {
    &&& st.id@ == id
    &&& st.content@ == content
    &&& st.header.model() == h.model()
    &&& st.header.pattern == h.pattern
    &&& st.scope_context.model() == c.model()
    &&& st.resolved_priority == priority_in(r, h, c)
}

/// Highest priority first, then identifiers in lexicographic order.
pub open spec fn precedes_or_ties(a: ScopedTemplate, b: ScopedTemplate) -> bool {
    a.resolved_priority > b.resolved_priority || (a.resolved_priority == b.resolved_priority
        && lex_le(a.id@, b.id@))
}

pub open spec fn priority_sorted(s: Seq<ScopedTemplate>) -> bool {
    forall|a: int, b: int| 0 <= a < b < s.len() ==> #[trigger] precedes_or_ties(s[a], s[b])
}

/// Every applicable template that the resolver must price fits in a `u32`.
pub open spec fn all_priorities_fit(
    r: ScopeResolver,
    ts: Seq<TemplateEntry>,
    c: ScopeContext,
) -> bool {
    forall|i: int| 0 <= i < ts.len() && applies(#[trigger] ts[i].1.1, c) ==> priority_fits(r, ts[i].1.1, c)
}

/// `out` holds the scoped forms of exactly the applicable templates of `ts`,
/// each once, `src[k]` naming the template `out[k]` comes from, and `out` is
/// ordered by priority, then identifier.
pub open spec fn resolution_of(
    r: ScopeResolver,
    ts: Seq<TemplateEntry>,
    c: ScopeContext,
    out: Seq<ScopedTemplate>,
    src: Seq<int>,
) -> bool {
    &&& src.len() == out.len()
    &&& src.no_duplicates()
    &&& forall|k: int|
        0 <= k < out.len() ==> 0 <= #[trigger] src[k] < ts.len() && applies(ts[src[k]].1.1, c)
            && is_scoped(out[k], r, ts[src[k]].0@, ts[src[k]].1.0@, ts[src[k]].1.1, c)
    &&& forall|i: int| 0 <= i < ts.len() && applies(#[trigger] ts[i].1.1, c) ==> src.contains(i)
    &&& priority_sorted(out)
}

proof fn lemma_precedes_total(a: ScopedTemplate, b: ScopedTemplate)
    ensures
        precedes_or_ties(a, b) || precedes_or_ties(b, a),
{
    lemma_lex_le_total(a.id@, b.id@);
}

proof fn lemma_precedes_transitive(a: ScopedTemplate, b: ScopedTemplate, c: ScopedTemplate)
    requires
        precedes_or_ties(a, b),
        precedes_or_ties(b, c),
    ensures
        precedes_or_ties(a, c),
{
    if a.resolved_priority == b.resolved_priority && b.resolved_priority == c.resolved_priority {
        lemma_lex_le_transitive(a.id@, b.id@, c.id@);
    }
}

// ---------------------------------------------------------------------------
// Resolution
// ---------------------------------------------------------------------------

impl ScopeResolver {
    /// Create a new scope resolver with default configuration
    pub fn new() -> (r: Self)
        ensures
            r.default_priority == 100,
            r.vendor_priority_boost == 50,
            r.device_type_priority_boost == 25,
    {
        ScopeResolver { default_priority: 100, vendor_priority_boost: 50, device_type_priority_boost: 25 }
    }

    /// Create a scope resolver with custom priority configuration
    pub fn with_priorities(default: u32, vendor_boost: u32, device_type_boost: u32) -> (r: Self)
        ensures
            r.default_priority == default,
            r.vendor_priority_boost == vendor_boost,
            r.device_type_priority_boost == device_type_boost,
    {
        ScopeResolver {
            default_priority: default,
            vendor_priority_boost: vendor_boost,
            device_type_priority_boost: device_type_boost,
        }
    }

    /// Check if a template scope admits the target context.
    pub fn scope_matches(&self, template_scope: &TemplateScope, target_context: &ScopeContext) -> (b: bool)
        ensures
            b == scope_admits(*template_scope, *target_context),
    {
        if let Some(allowed) = &template_scope.device_types {
            match &target_context.device_type {
                Some(t) => {
                    if !str_in_exec(allowed, t) {
                        return false;
                    }
                },
                None => {
                    return false;
                },
            }
        }
        if let Some(allowed) = &template_scope.vendors {
            match &target_context.vendor {
                Some(t) => {
                    if !str_in_exec(allowed, t) {
                        return false;
                    }
                },
                None => {
                    return false;
                },
            }
        }
        if let Some(allowed) = &template_scope.contexts {
            if !str_in_exec(allowed, &target_context.context) {
                return false;
            }
        }
        true
    }

    /// Calculate the resolved priority of a template in the given context.
    pub fn calculate_priority(&self, header: &TemplateHeader, target_context: &ScopeContext) -> (p: u32)
        requires
            priority_fits(*self, *header, *target_context),
        ensures
            p == priority_in(*self, *header, *target_context),
    {
        let mut priority: u32 = match header.priority {
            Some(p) => p,
            None => self.default_priority,
        };
        if let Some(scope) = &header.scope {
            if let Some(vendors) = &scope.vendors {
                if let Some(t) = &target_context.vendor {
                    if vendors.len() == 1 && str_in_exec(vendors, t) {
                        priority = priority + self.vendor_priority_boost;
                    }
                }
            }
            if let Some(devices) = &scope.device_types {
                if let Some(t) = &target_context.device_type {
                    if devices.len() == 1 && str_in_exec(devices, t) {
                        priority = priority + self.device_type_priority_boost;
                    }
                }
            }
        }
        priority
    }

    /// Resolve a template's scope in a context: `None` when the scope excludes
    /// the context, else the template with its resolved priority.
    pub fn resolve_scope(
        &self,
        template_id: &str,
        template_content: &str,
        header: &TemplateHeader,
        target_context: &ScopeContext,
    ) -> (r: Option<ScopedTemplate>)
        requires
            applies(*header, *target_context) ==> priority_fits(*self, *header, *target_context),
        ensures
            r is Some <==> applies(*header, *target_context),
            r matches Some(st) ==> is_scoped(st, *self, template_id@, template_content@, *header, *target_context),
    {
        if let Some(scope) = &header.scope {
            if !self.scope_matches(scope, target_context) {
                return None;
            }
        }
        let resolved_priority = self.calculate_priority(header, target_context);
        Some(ScopedTemplate {
            id: template_id.to_string(),
            content: template_content.to_string(),
            header: header.duplicate(),
            scope_context: target_context.duplicate(),
            resolved_priority,
        })
    }

    fn resolve_in_order(&self, templates: &Vec<TemplateEntry>, target_context: &ScopeContext) -> (r: (Vec<ScopedTemplate>, Ghost<Seq<int>>))
        requires
            all_priorities_fit(*self, templates@, *target_context),
        ensures
            resolution_of(*self, templates@, *target_context, r.0@, r.1@),
    {
        let mut out: Vec<ScopedTemplate> = Vec::new();
        let ghost mut src: Seq<int> = Seq::empty();
        let mut i: usize = 0;
        while i < templates.len()
            invariant
                i <= templates@.len(),
                all_priorities_fit(*self, templates@, *target_context),
                src.len() == out@.len(),
                src.no_duplicates(),
                forall|k: int| 0 <= k < src.len() ==> #[trigger] src[k] < i,
                forall|k: int|
                    0 <= k < out@.len() ==> 0 <= #[trigger] src[k] < templates@.len() && applies(templates@[src[k]].1.1, *target_context)
                        && is_scoped(out@[k], *self, templates@[src[k]].0@, templates@[src[k]].1.0@, templates@[src[k]].1.1, *target_context),
                forall|j: int| 0 <= j < i && applies(#[trigger] templates@[j].1.1, *target_context) ==> src.contains(j),
                priority_sorted(out@),
            decreases templates.len() - i,
        {
            let entry = &templates[i];
            match self.resolve_scope(entry.0.as_str(), (entry.1).0.as_str(), &(entry.1).1, target_context) {
                Some(st) => {
                    let ghost old_out = out@;
                    let ghost old_src = src;
                    let pos = insert_by_priority(&mut out, st);
                    proof {
                        src = old_src.insert(pos as int, i as int);
                        assert forall|k: int| 0 <= k < src.len() implies #[trigger] src[k] < i + 1 by {
                            if k < pos { assert(src[k] == old_src[k]); }
                            else if k > pos { assert(src[k] == old_src[k - 1]); }
                        }
                        assert forall|a: int, b: int| 0 <= a < b < src.len() implies src[a] != src[b] by {
                            if a != pos as int && b != pos as int {
                                let a0 = if a < pos { a } else { a - 1 };
                                let b0 = if b < pos { b } else { b - 1 };
                                assert(src[a] == old_src[a0]);
                                assert(src[b] == old_src[b0]);
                            } else if a == pos as int {
                                let b0 = if b < pos { b } else { b - 1 };
                                assert(src[b] == old_src[b0]);
                            } else {
                                let a0 = if a < pos { a } else { a - 1 };
                                assert(src[a] == old_src[a0]);
                            }
                        }
                        assert forall|k: int| 0 <= k < out@.len() implies 0 <= #[trigger] src[k] < templates@.len() && applies(templates@[src[k]].1.1, *target_context)
                            && is_scoped(out@[k], *self, templates@[src[k]].0@, templates@[src[k]].1.0@, templates@[src[k]].1.1, *target_context) by {
                            if k < pos {
                                assert(src[k] == old_src[k]);
                                assert(out@[k] == old_out[k]);
                            } else if k > pos {
                                assert(src[k] == old_src[k - 1]);
                                assert(out@[k] == old_out[k - 1]);
                            }
                        }
                        assert forall|j: int| 0 <= j < i + 1 && applies(#[trigger] templates@[j].1.1, *target_context) implies src.contains(j) by {
                            if j == i {
                                assert(src[pos as int] == j);
                            } else {
                                assert(old_src.contains(j));
                                let k = choose|k: int| 0 <= k < old_src.len() && old_src[k] == j;
                                if k < pos { assert(src[k] == j); } else { assert(src[k + 1] == j); }
                            }
                        }
                    }
                },
                None => {},
            }
            i = i + 1;
        }
        (out, Ghost(src))
    }

    /// Resolve every template for a context and order the applicable ones by
    /// priority (highest first), then by template identifier.
    pub fn resolve_multiple(&self, templates: &Vec<TemplateEntry>, target_context: &ScopeContext) -> (out: Vec<ScopedTemplate>)
        requires
            all_priorities_fit(*self, templates@, *target_context),
        ensures
            exists|src: Seq<int>| resolution_of(*self, templates@, *target_context, out@, src),
    {
        let (out, src) = self.resolve_in_order(templates, target_context);
        out
    }
}

/// Insert `x` after every element it does not strictly precede, keeping the
/// sequence ordered by priority, then identifier.
fn insert_by_priority(v: &mut Vec<ScopedTemplate>, x: ScopedTemplate) -> (pos: usize)
    requires
        priority_sorted(old(v)@),
    ensures
        pos <= old(v)@.len(),
        final(v)@ == old(v)@.insert(pos as int, x),
        priority_sorted(final(v)@),
{
    let mut pos: usize = 0;
    while pos < v.len()
        invariant
            pos <= v@.len(),
            v@ == old(v)@,
            priority_sorted(v@),
            forall|a: int| 0 <= a < pos ==> #[trigger] precedes_or_ties(v@[a], x),
        ensures
            pos <= v@.len(),
            v@ == old(v)@,
            priority_sorted(v@),
            forall|a: int| 0 <= a < pos ==> #[trigger] precedes_or_ties(v@[a], x),
            pos < v@.len() ==> (x.resolved_priority > v@[pos as int].resolved_priority
                || (x.resolved_priority == v@[pos as int].resolved_priority && !lex_le(v@[pos as int].id@, x.id@))),
        decreases v.len() - pos,
    {
        let y = &v[pos];
        let strictly_before = x.resolved_priority > y.resolved_priority
            || (x.resolved_priority == y.resolved_priority && !str_le(&y.id, &x.id));
        if strictly_before {
            break;
        }
        proof {
            lemma_precedes_total(x, v@[pos as int]);
        }
        pos = pos + 1;
    }
    let ghost before = v@;
    proof {
        if pos < before.len() {
            // x strictly precedes before[pos]
            assert(precedes_or_ties(x, before[pos as int])) by {
                if !(x.resolved_priority > before[pos as int].resolved_priority) {
                    lemma_lex_le_total(before[pos as int].id@, x.id@);
                }
            }
        }
    }
    v.insert(pos, x);
    proof {
        let s = v@;
        assert forall|a: int, b: int| 0 <= a < b < s.len() implies #[trigger] precedes_or_ties(s[a], s[b]) by {
            if b < pos {
                assert(s[a] == before[a] && s[b] == before[b]);
            } else if b == pos as int {
                assert(s[a] == before[a]);
            } else if a == pos as int {
                assert(s[b] == before[b - 1]);
                if b - 1 > pos {
                    assert(precedes_or_ties(before[pos as int], before[b - 1]));
                    lemma_precedes_transitive(x, before[pos as int], before[b - 1]);
                }
            } else if a < pos {
                assert(s[a] == before[a] && s[b] == before[b - 1]);
            } else {
                assert(s[a] == before[a - 1] && s[b] == before[b - 1]);
            }
        }
    }
    pos
}

impl ScopeResolver {
    pub open spec fn default_spec() -> ScopeResolver {
        ScopeResolver { default_priority: 100, vendor_priority_boost: 50, device_type_priority_boost: 25 }
    }
}

// ---------------------------------------------------------------------------
// Conflicts
// ---------------------------------------------------------------------------

/// Template conflict report
#[derive(Debug, Clone, PartialEq)]
pub struct TemplateConflict {
    /// Configuration pattern that has conflicts
    pub pattern: String,
    /// ID of the winning template
    pub winning_template: String,
    /// IDs of templates that were overridden
    pub conflicting_templates: Vec<String>,
    /// Reason for the conflict resolution
    pub resolution_reason: String,
}

pub type ConflictModel = (Seq<char>, Seq<char>, Seq<Seq<char>>, Seq<char>);

impl TemplateConflict {
    pub open spec fn model(&self) -> ConflictModel {
        (self.pattern@, self.winning_template@, strs(self.conflicting_templates@), self.resolution_reason@)
    }
}

/// The key under which templates that could conflict are grouped.
pub open spec fn pattern_key(p: MatchPattern) -> Seq<char> {
    match p {
        MatchPattern::Exact(x) => x@,
        MatchPattern::Regex(x) => "regex:"@ + x@,
        MatchPattern::HierarchicalPath(x) => "hierarchical:"@ + x@,
        MatchPattern::Glob(x) => "glob:"@ + x@,
    }
}

pub open spec fn key_at(r: Seq<ScopedTemplate>, k: int) -> Seq<char> {
    pattern_key(r[k].header.pattern)
}

/// Positions below `n`, in order, of the templates whose key is `key`.
pub open spec fn members_upto(r: Seq<ScopedTemplate>, key: Seq<char>, n: int) -> Seq<int>
    decreases n,
{
    if n <= 0 {
        Seq::empty()
    } else if key_at(r, n - 1) == key {
        members_upto(r, key, n - 1).push(n - 1)
    } else {
        members_upto(r, key, n - 1)
    }
}

/// Positions, in order, of the templates whose key is `key`.
pub open spec fn members(r: Seq<ScopedTemplate>, key: Seq<char>) -> Seq<int> {
    members_upto(r, key, r.len() as int)
}

/// The template at `k` is the first with its key.
pub open spec fn first_with_key(r: Seq<ScopedTemplate>, k: int) -> bool {
    forall|j: int| 0 <= j < k ==> key_at(r, j) != key_at(r, k)
}

/// Positions below `n`, in order, of the first template of each key that two
/// or more templates share.
pub open spec fn conflict_heads_upto(r: Seq<ScopedTemplate>, n: int) -> Seq<int>
    decreases n,
{
    if n <= 0 {
        Seq::empty()
    } else if first_with_key(r, n - 1) && members(r, key_at(r, n - 1)).len() >= 2 {
        conflict_heads_upto(r, n - 1).push(n - 1)
    } else {
        conflict_heads_upto(r, n - 1)
    }
}

pub open spec fn conflict_heads(r: Seq<ScopedTemplate>) -> Seq<int> {
    conflict_heads_upto(r, r.len() as int)
}

/// Why the first template of a group won over the second.
pub open spec fn resolution_reason(winner: u32, runner_up: u32) -> Seq<char> {
    if winner > runner_up {
        "Higher priority ("@ + decimal(winner as nat) + " vs "@ + decimal(runner_up as nat) + ")"@
    } else {
        "Lexicographic ordering by template ID"@
    }
}

/// The conflict report for the group of templates sharing the key of `r[k]`:
/// the first member wins, the others are overridden, in order.
pub open spec fn conflict_for(r: Seq<ScopedTemplate>, k: int) -> ConflictModel {
    let m = members(r, key_at(r, k));
    (
        key_at(r, k),
        r[m[0]].id@,
        m.skip(1).map_values(|j: int| r[j].id@),
        resolution_reason(r[m[0]].resolved_priority, r[m[1]].resolved_priority),
    )
}

/// The conflicts among an ordered list of templates: one per key that two or
/// more templates share, in the order the keys first appear.
pub open spec fn conflicts_of(r: Seq<ScopedTemplate>) -> Seq<ConflictModel> {
    conflict_heads(r).map_values(|k: int| conflict_for(r, k))
}

fn pattern_key_exec(p: &MatchPattern) -> (k: Vec<char>)
    ensures
        k@ == pattern_key(*p),
{
    let mut k: Vec<char> = Vec::new();
    match p {
        MatchPattern::Exact(x) => {
            push_str(&mut k, x.as_str());
        },
        MatchPattern::Regex(x) => {
            push_str(&mut k, "regex:");
            push_str(&mut k, x.as_str());
        },
        MatchPattern::HierarchicalPath(x) => {
            push_str(&mut k, "hierarchical:");
            push_str(&mut k, x.as_str());
        },
        MatchPattern::Glob(x) => {
            push_str(&mut k, "glob:");
            push_str(&mut k, x.as_str());
        },
    }
    k
}

fn reason_exec(winner: u32, runner_up: u32) -> (s: String)
    ensures
        s@ == resolution_reason(winner, runner_up),
{
    let mut v: Vec<char> = Vec::new();
    if winner > runner_up {
        push_str(&mut v, "Higher priority (");
        push_decimal(&mut v, winner as u64);
        push_str(&mut v, " vs ");
        push_decimal(&mut v, runner_up as u64);
        push_str(&mut v, ")");
    } else {
        push_str(&mut v, "Lexicographic ordering by template ID");
        assert(v@ =~= "Lexicographic ordering by template ID"@);
    }
    chars_to_string(v.as_slice())
}

proof fn lemma_members_bounds(r: Seq<ScopedTemplate>, key: Seq<char>, n: int)
    requires
        0 <= n <= r.len(),
    ensures
        forall|i: int| 0 <= i < members_upto(r, key, n).len() ==> 0 <= #[trigger] members_upto(r, key, n)[i] < n
            && key_at(r, members_upto(r, key, n)[i]) == key,
        forall|i: int, j: int| 0 <= i < j < members_upto(r, key, n).len() ==> #[trigger] members_upto(r, key, n)[i] < #[trigger] members_upto(r, key, n)[j],
    decreases n,
{
    if n > 0 {
        lemma_members_bounds(r, key, n - 1);
        let prev = members_upto(r, key, n - 1);
        let cur = members_upto(r, key, n);
        if key_at(r, n - 1) == key {
            assert(cur == prev.push(n - 1));
            assert forall|i: int| 0 <= i < cur.len() implies 0 <= #[trigger] cur[i] < n && key_at(r, cur[i]) == key by {
                if i < prev.len() {
                    assert(cur[i] == prev[i]);
                }
            }
            assert forall|i: int, j: int| 0 <= i < j < cur.len() implies #[trigger] cur[i] < #[trigger] cur[j] by {
                assert(cur[i] == prev[i]);
                if j < prev.len() {
                    assert(cur[j] == prev[j]);
                }
            }
        } else {
            assert(cur == prev);
        }
    }
}

proof fn lemma_first_member(r: Seq<ScopedTemplate>, k: int, n: int)
    requires
        0 <= k < n <= r.len(),
        first_with_key(r, k),
    ensures
        members_upto(r, key_at(r, k), n).len() >= 1,
        members_upto(r, key_at(r, k), n)[0] == k,
    decreases n,
{
    if n - 1 > k {
        lemma_first_member(r, k, n - 1);
    } else {
        assert(n - 1 == k);
        assert(members_upto(r, key_at(r, k), k).len() == 0) by {
            lemma_members_bounds(r, key_at(r, k), k);
            if members_upto(r, key_at(r, k), k).len() > 0 {
                let j = members_upto(r, key_at(r, k), k)[0];
                assert(key_at(r, j) == key_at(r, k));
            }
        }
    }
}

/// Positions, in order, of the templates whose key is `key`.
fn members_exec(keys: &Vec<Vec<char>>, key: &Vec<char>, Ghost(r): Ghost<Seq<ScopedTemplate>>) -> (m: Vec<usize>)
    requires
        keys@.len() == r.len(),
        forall|k: int| 0 <= k < r.len() ==> #[trigger] keys@[k]@ == key_at(r, k),
    ensures
        m@.map_values(|x: usize| x as int) == members(r, key@),
{
    let mut m: Vec<usize> = Vec::new();
    let mut j: usize = 0;
    while j < keys.len()
        invariant
            j <= keys@.len(),
            keys@.len() == r.len(),
            forall|k: int| 0 <= k < r.len() ==> #[trigger] keys@[k]@ == key_at(r, k),
            m@.map_values(|x: usize| x as int) == members_upto(r, key@, j as int),
        decreases keys.len() - j,
    {
        let ghost before = m@;
        if chars_eq(keys[j].as_slice(), key.as_slice()) {
            m.push(j);
            assert(m@.map_values(|x: usize| x as int) =~= before.map_values(|x: usize| x as int).push(j as int));
        }
        j = j + 1;
    }
    m
}

/// The conflicts among templates already ordered by priority then identifier:
/// for each pattern key shared by two or more templates (in the order the
/// keys first appear), the first template with that key wins and the others
/// are reported as overridden.
pub fn conflicts_in(resolved: &Vec<ScopedTemplate>) -> (out: Vec<TemplateConflict>)
    ensures
        out@.map_values(|c: TemplateConflict| c.model()) == conflicts_of(resolved@),
{
    let ghost r = resolved@;
    let mut keys: Vec<Vec<char>> = Vec::new();
    let mut i: usize = 0;
    while i < resolved.len()
        invariant
            i <= r.len(),
            r == resolved@,
            keys@.len() == i,
            forall|k: int| 0 <= k < i ==> #[trigger] keys@[k]@ == key_at(r, k),
        decreases resolved.len() - i,
    {
        let k = pattern_key_exec(&resolved[i].header.pattern);
        keys.push(k);
        i = i + 1;
    }
    let mut out: Vec<TemplateConflict> = Vec::new();
    let mut k: usize = 0;
    while k < resolved.len()
        invariant
            k <= r.len(),
            r == resolved@,
            keys@.len() == r.len(),
            forall|x: int| 0 <= x < r.len() ==> #[trigger] keys@[x]@ == key_at(r, x),
            out@.map_values(|c: TemplateConflict| c.model()) == conflict_heads_upto(r, k as int).map_values(|x: int| conflict_for(r, x)),
        decreases resolved.len() - k,
    {
        let ghost before = out@.map_values(|c: TemplateConflict| c.model());
        let mut first = true;
        let mut j: usize = 0;
        while j < k
            invariant
                j <= k < r.len(),
                keys@.len() == r.len(),
                forall|x: int| 0 <= x < r.len() ==> #[trigger] keys@[x]@ == key_at(r, x),
                first == (forall|y: int| 0 <= y < j ==> key_at(r, y) != key_at(r, k as int)),
            decreases k - j,
        {
            if chars_eq(keys[j].as_slice(), keys[k].as_slice()) {
                first = false;
            }
            j = j + 1;
        }
        let m = members_exec(&keys, &keys[k], Ghost(r));
        proof {
            lemma_members_bounds(r, key_at(r, k as int), r.len() as int);
        }
        if first && m.len() >= 2 {
            proof {
                lemma_first_member(r, k as int, r.len() as int);
            }
            let w = m[0];
            let l = m[1];
            let ghost mv = m@.map_values(|x: usize| x as int);
            assert(mv[0] == w as int && mv[1] == l as int);
            let mut losers: Vec<String> = Vec::new();
            let mut t: usize = 1;
            while t < m.len()
                invariant
                    1 <= t <= m@.len(),
                    losers@.len() == t - 1,
                    mv == m@.map_values(|x: usize| x as int),
                    forall|y: int| 0 <= y < mv.len() ==> 0 <= #[trigger] mv[y] < r.len(),
                    r == resolved@,
                    strs(losers@) == mv.skip(1).take(t - 1).map_values(|x: int| r[x].id@),
                decreases m.len() - t,
            {
                let ghost lb = losers@;
                let idx = m[t];
                assert(mv[t as int] == idx as int);
                let id = resolved[idx].id.clone();
                losers.push(id);
                proof {
                    assert forall|y: int| 0 <= y < t implies #[trigger] strs(losers@)[y] == mv.skip(1).take(t as int).map_values(|x: int| r[x].id@)[y] by {
                        if y < t - 1 {
                            assert(losers@[y] == lb[y]);
                            assert(strs(lb)[y] == lb[y]@);
                        }
                    }
                    assert(strs(losers@) =~= mv.skip(1).take(t as int).map_values(|x: int| r[x].id@));
                }
                t = t + 1;
            }
            assert(mv.skip(1).take(t - 1) =~= mv.skip(1));
            let conflict = TemplateConflict {
                pattern: chars_to_string(keys[k].as_slice()),
                winning_template: resolved[w].id.clone(),
                conflicting_templates: losers,
                resolution_reason: reason_exec(resolved[w].resolved_priority, resolved[l].resolved_priority),
            };
            out.push(conflict);
            assert(out@.map_values(|c: TemplateConflict| c.model()) =~= before.push(conflict_for(r, k as int)));
        }
        k = k + 1;
    }
    out
}

// ---------------------------------------------------------------------------
// Composition
// ---------------------------------------------------------------------------

/// Template identifiers are pairwise distinct (as the keys of a map are).
pub open spec fn distinct_ids(ts: Seq<TemplateEntry>) -> bool {
    forall|a: int, b: int| 0 <= a < b < ts.len() ==> ts[a].0@ != ts[b].0@
}

/// The templates of `r` whose pattern matches the path, in order.
pub open spec fn matching_upto(r: Seq<ScopedTemplate>, path: Seq<char>, n: int) -> Seq<ScopedTemplate>
    decreases n,
{
    if n <= 0 {
        Seq::empty()
    } else if pattern_matches(r[n - 1].header.pattern, path) {
        matching_upto(r, path, n - 1).push(r[n - 1])
    } else {
        matching_upto(r, path, n - 1)
    }
}

pub open spec fn matching(r: Seq<ScopedTemplate>, path: Seq<char>) -> Seq<ScopedTemplate> {
    matching_upto(r, path, r.len() as int)
}

/// The identifier is among those a conflict overrides.
pub open spec fn overridden(cs: Seq<ConflictModel>, id: Seq<char>) -> bool {
    exists|c: int, j: int| 0 <= c < cs.len() && 0 <= j < cs[c].2.len() && #[trigger] cs[c].2[j] == id
}

/// The templates of `m` that no conflict overrides, in order.
pub open spec fn kept_upto(m: Seq<ScopedTemplate>, cs: Seq<ConflictModel>, n: int) -> Seq<ScopedTemplate>
    decreases n,
{
    if n <= 0 {
        Seq::empty()
    } else if !overridden(cs, m[n - 1].id@) {
        kept_upto(m, cs, n - 1).push(m[n - 1])
    } else {
        kept_upto(m, cs, n - 1)
    }
}

/// Every pattern among the ordered templates can be checked against paths.
pub open spec fn all_checkable(r: Seq<ScopedTemplate>) -> bool {
    forall|k: int| 0 <= k < r.len() ==> pattern_checkable(#[trigger] r[k].header.pattern)
}

/// Result of template composition
#[derive(Debug, Clone, PartialEq)]
pub struct CompositionResult {
    /// Templates selected for this configuration path
    pub selected_templates: Vec<ScopedTemplate>,
    /// Conflicts detected during composition
    pub conflicts: Vec<TemplateConflict>,
    /// Configuration path this result applies to
    pub config_path: String,
    /// Scope context used for composition
    pub context: ScopeContext,
}

/// A composition for `path` from templates ordered as `r`: the templates
/// whose pattern matches the path, their conflicts, and the matching
/// templates no conflict overrides, in order.
pub open spec fn composes(res: CompositionResult, r: Seq<ScopedTemplate>, path: Seq<char>, c: ScopeContext) -> bool {
    let m = matching(r, path);
    let cs = conflicts_of(m);
    &&& res.conflicts@.map_values(|x: TemplateConflict| x.model()) == cs
    &&& res.selected_templates@ == kept_upto(m, cs, m.len() as int)
    &&& res.config_path@ == path
    &&& res.context.model() == c.model()
}

/// The templates of `r` whose pattern matches the path, in order; an error
/// when some pattern cannot be checked.
#[verifier::loop_isolation(false)]
fn select_matching(templates: Vec<ScopedTemplate>, config_path: &str) -> (out: Result<Vec<ScopedTemplate>, HeaderError>)
    ensures
        out is Ok <==> all_checkable(templates@),
        out matches Ok(m) ==> m@ == matching(templates@, config_path@),
{
    let ghost orig = templates@;
    let n = templates.len();
    let mut r = templates;
    let parser = HeaderParser::new();
    let mut out: Vec<ScopedTemplate> = Vec::new();
    let mut i: usize = 0;
    assert(orig.skip(0) =~= orig);
    while r.len() > 0
        invariant
            i <= orig.len(),
            n == orig.len(),
            i + r@.len() == orig.len(),
            r@ == orig.skip(i as int),
            forall|k: int| 0 <= k < i ==> pattern_checkable(#[trigger] orig[k].header.pattern),
            out@ == matching_upto(orig, config_path@, i as int),
        decreases r.len(),
    {
        let x = r.remove(0);
        assert(x == orig[i as int]);
        assert(r@ =~= orig.skip(i + 1));
        match parser.matches(&x.header, config_path) {
            Ok(b) => {
                if b {
                    out.push(x);
                }
            },
            Err(e) => {
                assert(!all_checkable(orig));
                return Err(e);
            },
        }
        i = i + 1;
    }
    assert(i == orig.len());
    Ok(out)
}

/// Every applicable template's pattern can be checked against paths.
pub open spec fn applicable_checkable(ts: Seq<TemplateEntry>, c: ScopeContext) -> bool {
    forall|i: int| 0 <= i < ts.len() && applies(#[trigger] ts[i].1.1, c) ==> pattern_checkable(ts[i].1.1.pattern)
}

proof fn lemma_checkable_resolution(r: ScopeResolver, ts: Seq<TemplateEntry>, c: ScopeContext, out: Seq<ScopedTemplate>, src: Seq<int>)
    requires
        resolution_of(r, ts, c, out, src),
    ensures
        all_checkable(out) <==> applicable_checkable(ts, c),
{
    if all_checkable(out) {
        assert forall|i: int| 0 <= i < ts.len() && applies(#[trigger] ts[i].1.1, c) implies pattern_checkable(ts[i].1.1.pattern) by {
            assert(src.contains(i));
            let k = choose|k: int| 0 <= k < src.len() && src[k] == i;
            assert(pattern_checkable(out[k].header.pattern));
        }
    }
    if applicable_checkable(ts, c) {
        assert forall|k: int| 0 <= k < out.len() implies pattern_checkable(#[trigger] out[k].header.pattern) by {
            assert(0 <= src[k] < ts.len());
        }
    }
}

/// The templates of `m` that no conflict overrides, in order.
fn keep_unconflicted(m: Vec<ScopedTemplate>, conflicts: &Vec<TemplateConflict>) -> (out: Vec<ScopedTemplate>)
    ensures
        out@ == kept_upto(m@, conflicts@.map_values(|x: TemplateConflict| x.model()), m@.len() as int),
{
    let ghost cs = conflicts@.map_values(|x: TemplateConflict| x.model());
    let ghost orig = m@;
    let n = m.len();
    let mut r = m;
    let mut out: Vec<ScopedTemplate> = Vec::new();
    let mut i: usize = 0;
    assert(orig.skip(0) =~= orig);
    while r.len() > 0
        invariant
            i <= orig.len(),
            n == orig.len(),
            i + r@.len() == orig.len(),
            r@ == orig.skip(i as int),
            cs == conflicts@.map_values(|x: TemplateConflict| x.model()),
            out@ == kept_upto(orig, cs, i as int),
        decreases r.len(),
    {
        let x = r.remove(0);
        assert(x == orig[i as int]);
        assert(r@ =~= orig.skip(i + 1));
        let mut hit = false;
        let mut c: usize = 0;
        while c < conflicts.len()
            invariant
                c <= conflicts@.len(),
                cs == conflicts@.map_values(|x: TemplateConflict| x.model()),
                hit == (exists|cc: int, j: int| 0 <= cc < c && 0 <= j < cs[cc].2.len() && #[trigger] cs[cc].2[j] == x.id@),
            decreases conflicts.len() - c,
        {
            let ids = &conflicts[c].conflicting_templates;
            assert(cs[c as int].2 == strs(ids@));
            let mut j: usize = 0;
            while j < ids.len()
                invariant
                    j <= ids@.len(),
                    c < conflicts@.len(),
                    cs == conflicts@.map_values(|x: TemplateConflict| x.model()),
                    cs[c as int].2 == strs(ids@),
                    hit == ((exists|cc: int, k: int| 0 <= cc < c && 0 <= k < cs[cc].2.len() && #[trigger] cs[cc].2[k] == x.id@)
                        || (exists|k: int| 0 <= k < j && #[trigger] cs[c as int].2[k] == x.id@)),
                decreases ids.len() - j,
            {
                if ids[j] == x.id {
                    hit = true;
                }
                assert(cs[c as int].2[j as int] == ids@[j as int]@);
                j = j + 1;
            }
            c = c + 1;
        }
        if !hit {
            out.push(x);
        }
        i = i + 1;
    }
    out
}

/// Template conflict detection system
#[derive(Debug, Clone)]
pub struct ConflictDetector {
    /// Resolver for scope management
    pub resolver: ScopeResolver,
}

impl ConflictDetector {
    /// Create a new conflict detector
    pub fn new() -> (d: Self)
        ensures
            d.resolver == ScopeResolver::default_spec(),
    {
        ConflictDetector { resolver: ScopeResolver::new() }
    }

    /// Create a conflict detector with custom resolver
    pub fn with_resolver(resolver: ScopeResolver) -> (d: Self)
        ensures
            d.resolver == resolver,
    {
        ConflictDetector { resolver }
    }

    /// Detect conflicts between the templates that apply to a context: the
    /// templates are resolved and ordered, then grouped by pattern.
    pub fn detect_conflicts(&self, templates: &Vec<TemplateEntry>, target_context: &ScopeContext) -> (out: Vec<TemplateConflict>)
        requires
            all_priorities_fit(self.resolver, templates@, *target_context),
        ensures
            exists|r: Seq<ScopedTemplate>, src: Seq<int>|
                resolution_of(self.resolver, templates@, *target_context, r, src)
                    && out@.map_values(|c: TemplateConflict| c.model()) == conflicts_of(r),
    {
        let (resolved, src) = self.resolver.resolve_in_order(templates, target_context);
        let out = conflicts_in(&resolved);
        assert(resolution_of(self.resolver, templates@, *target_context, resolved@, src@));
        out
    }
}

/// Template composition system for combining multiple templates
#[derive(Debug, Clone)]
pub struct TemplateComposer {
    /// Resolver for scope management
    pub resolver: ScopeResolver,
    /// Conflict detector for identifying template conflicts
    pub conflict_detector: ConflictDetector,
}

impl TemplateComposer {
    /// Create a new template composer
    pub fn new() -> (c: Self)
        ensures
            c.resolver == ScopeResolver::default_spec(),
            c.conflict_detector.resolver == c.resolver,
    {
        let resolver = ScopeResolver::new();
        let conflict_detector = ConflictDetector::with_resolver(resolver);
        TemplateComposer { resolver, conflict_detector }
    }

    /// Create a composer with custom resolver
    pub fn with_resolver(resolver: ScopeResolver) -> (c: Self)
        ensures
            c.resolver == resolver,
            c.conflict_detector.resolver == resolver,
    {
        let conflict_detector = ConflictDetector::with_resolver(resolver);
        TemplateComposer { resolver, conflict_detector }
    }

    /// Compose templates for a configuration path: resolve and order the
    /// templates that apply to the context, keep those whose header matches
    /// the path, report their conflicts, and select the matching templates
    /// that no conflict overrides.
    pub fn compose(&self, templates: &Vec<TemplateEntry>, target_context: &ScopeContext, config_path: &str) -> (out: Result<CompositionResult, HeaderError>)
        requires
            all_priorities_fit(self.resolver, templates@, *target_context),
        ensures
            out is Ok <==> applicable_checkable(templates@, *target_context),
            out matches Ok(res) ==> exists|r: Seq<ScopedTemplate>, src: Seq<int>|
                resolution_of(self.resolver, templates@, *target_context, r, src)
                    && composes(res, r, config_path@, *target_context),
    {
        let (resolved, src) = self.resolver.resolve_in_order(templates, target_context);
        let ghost r = resolved@;
        proof {
            lemma_checkable_resolution(self.resolver, templates@, *target_context, r, src@);
        }
        let matching_templates = match select_matching(resolved, config_path) {
            Ok(m) => m,
            Err(e) => {
                return Err(e);
            },
        };
        let conflicts = conflicts_in(&matching_templates);
        let selected = keep_unconflicted(matching_templates, &conflicts);
        let res = CompositionResult {
            selected_templates: selected,
            conflicts,
            config_path: config_path.to_string(),
            context: target_context.duplicate(),
        };
        assert(resolution_of(self.resolver, templates@, *target_context, r, src@));
        assert(composes(res, r, config_path@, *target_context));
        Ok(res)
    }

    /// Compose templates for each distinct configuration path, in the order
    /// the paths first appear.
    pub fn compose_multiple(&self, templates: &Vec<TemplateEntry>, target_context: &ScopeContext, config_paths: &Vec<String>) -> (out: Result<Vec<(String, CompositionResult)>, HeaderError>)
        requires
            all_priorities_fit(self.resolver, templates@, *target_context),
        ensures
            out is Ok <==> (config_paths@.len() == 0 || applicable_checkable(templates@, *target_context)),
            out matches Ok(rs) ==> rs@.len() == first_occurrences(strs(config_paths@)).len()
                && forall|k: int| 0 <= k < rs@.len() ==> (#[trigger] rs@[k]).0@ == first_occurrences(strs(config_paths@))[k]
                    && composed_for(self.resolver, templates@, *target_context, rs@[k]),
    {
        let ghost ps = strs(config_paths@);
        let mut out: Vec<(String, CompositionResult)> = Vec::new();
        let mut i: usize = 0;
        while i < config_paths.len()
            invariant
                i <= config_paths@.len(),
                ps == strs(config_paths@),
                all_priorities_fit(self.resolver, templates@, *target_context),
                i > 0 ==> applicable_checkable(templates@, *target_context),
                out@.len() == first_occurrences(ps.take(i as int)).len(),
                forall|k: int| 0 <= k < out@.len() ==> (#[trigger] out@[k]).0@ == first_occurrences(ps.take(i as int))[k]
                    && composed_for(self.resolver, templates@, *target_context, out@[k]),
            decreases config_paths.len() - i,
        {
            let path = &config_paths[i];
            proof {
                lemma_first_occurrences_step(ps, i as int);
                assert(ps[i as int] == path@);
            }
            let mut seen = false;
            let mut j: usize = 0;
            while j < i
                invariant
                    j <= i < config_paths@.len(),
                    ps == strs(config_paths@),
                    path@ == ps[i as int],
                    seen == (exists|y: int| 0 <= y < j && #[trigger] ps[y] == ps[i as int]),
                decreases i - j,
            {
                assert(ps[j as int] == config_paths@[j as int]@);
                assert(ps[i as int] == config_paths@[i as int]@);
                if config_paths[j] == *path {
                    seen = true;
                }
                j = j + 1;
            }
            if !seen {
                let res = self.compose(templates, target_context, path.as_str());
                match res {
                    Ok(c) => {
                        let ghost before = out@;
                        assert(!ps.take(i as int).contains(ps[i as int]));
                        assert(first_occurrences(ps.take(i + 1)) == first_occurrences(ps.take(i as int)).push(ps[i as int]));
                        out.push((path.clone(), c));
                        assert forall|k: int| 0 <= k < out@.len() implies (#[trigger] out@[k]).0@ == first_occurrences(ps.take(i + 1))[k]
                            && composed_for(self.resolver, templates@, *target_context, out@[k]) by {
                            if k < before.len() {
                                assert(out@[k] == before[k]);
                            }
                        }
                    },
                    Err(e) => {
                        return Err(e);
                    },
                }
            } else {
                assert(ps.take(i as int).contains(ps[i as int]));
                assert(first_occurrences(ps.take(i + 1)) == first_occurrences(ps.take(i as int)));
            }
            i = i + 1;
        }
        assert(ps.take(i as int) =~= ps);
        Ok(out)
    }

    /// Summarise the compositions for a list of configuration paths.
    pub fn get_composition_summary(&self, templates: &Vec<TemplateEntry>, target_context: &ScopeContext, config_paths: &Vec<String>) -> (out: Result<CompositionSummary, HeaderError>)
        requires
            all_priorities_fit(self.resolver, templates@, *target_context),
            templates@.len() * config_paths@.len() <= usize::MAX,
        ensures
            out is Ok <==> (config_paths@.len() == 0 || applicable_checkable(templates@, *target_context)),
            out matches Ok(s) ==> s.total_templates_available == templates@.len()
                && s.total_templates_selected == total_selected(s.composition_results@)
                && s.total_conflicts_detected == total_conflicts(s.composition_results@)
                && strs(s.conflict_patterns@) == conflict_patterns_of(s.composition_results@)
                && s.composition_results@.len() == first_occurrences(strs(config_paths@)).len()
                && forall|k: int| 0 <= k < s.composition_results@.len() ==> (#[trigger] s.composition_results@[k]).0@ == first_occurrences(strs(config_paths@))[k]
                    && composed_for(self.resolver, templates@, *target_context, s.composition_results@[k]),
    {
        let results = match self.compose_multiple(templates, target_context, config_paths) {
            Ok(r) => r,
            Err(e) => {
                return Err(e);
            },
        };
        proof {
            lemma_first_occurrences_len(strs(config_paths@));
        }
        let mut sel: usize = 0;
        let mut con: usize = 0;
        let mut patterns: Vec<String> = Vec::new();
        let mut i: usize = 0;
        while i < results.len()
            invariant
                i <= results@.len(),
                results@.len() <= config_paths@.len(),
                templates@.len() * config_paths@.len() <= usize::MAX,
                forall|k: int| 0 <= k < results@.len() ==> composed_for(self.resolver, templates@, *target_context, #[trigger] results@[k]),
                sel == total_selected(results@.take(i as int)),
                con == total_conflicts(results@.take(i as int)),
                sel <= i * templates@.len(),
                con <= i * templates@.len(),
                strs(patterns@) == conflict_patterns_of(results@.take(i as int)),
            decreases results.len() - i,
        {
            let res = &results[i].1;
            proof {
                assert(composed_for(self.resolver, templates@, *target_context, results@[i as int]));
                let (r, src) = choose|r: Seq<ScopedTemplate>, src: Seq<int>|
                    resolution_of(self.resolver, templates@, *target_context, r, src)
                        && composes(results@[i as int].1, r, results@[i as int].0@, *target_context);
                lemma_composition_bounds(res.selected_templates@.len(), res.conflicts@.len(), self.resolver, templates@, *target_context, r, src, results@[i as int].0@, *res);
                assert(results@.take(i + 1).drop_last() =~= results@.take(i as int));
                assert((i + 1) * templates@.len() == i * templates@.len() + templates@.len()) by (nonlinear_arith);
                assert((i + 1) * templates@.len() <= templates@.len() * config_paths@.len()) by (nonlinear_arith)
                    requires i + 1 <= config_paths@.len();
            }
            sel = sel + res.selected_templates.len();
            con = con + res.conflicts.len();
            let ghost pbefore = patterns@;
            let mut c: usize = 0;
            while c < res.conflicts.len()
                invariant
                    c <= res.conflicts@.len(),
                    strs(patterns@) == strs(pbefore) + res.conflicts@.take(c as int).map_values(|x: TemplateConflict| x.pattern@),
                decreases res.conflicts.len() - c,
            {
                let ghost pb = patterns@;
                patterns.push(res.conflicts[c].pattern.clone());
                proof {
                    assert(strs(patterns@) =~= strs(pb).push(res.conflicts@[c as int].pattern@));
                    assert(res.conflicts@.take(c + 1).map_values(|x: TemplateConflict| x.pattern@) =~= res.conflicts@.take(c as int).map_values(|x: TemplateConflict| x.pattern@).push(res.conflicts@[c as int].pattern@));
                }
                c = c + 1;
            }
            assert(res.conflicts@.take(c as int) =~= res.conflicts@);
            i = i + 1;
        }
        assert(results@.take(i as int) =~= results@);
        Ok(CompositionSummary {
            total_templates_available: templates.len(),
            total_templates_selected: sel,
            total_conflicts_detected: con,
            conflict_patterns: patterns,
            composition_results: results,
        })
    }
}

/// The composition of an entry's path is that of some resolution of the
/// templates for the context.
pub open spec fn composed_for(r: ScopeResolver, ts: Seq<TemplateEntry>, c: ScopeContext, e: (String, CompositionResult)) -> bool {
    exists|rr: Seq<ScopedTemplate>, src: Seq<int>| resolution_of(r, ts, c, rr, src) && composes(e.1, rr, e.0@, c)
}

/// Summary of template composition across multiple paths
#[derive(Debug, Clone, PartialEq)]
pub struct CompositionSummary {
    /// Total number of templates available for composition
    pub total_templates_available: usize,
    /// Total number of templates selected across all paths
    pub total_templates_selected: usize,
    /// Total number of conflicts detected
    pub total_conflicts_detected: usize,
    /// List of configuration patterns that had conflicts
    pub conflict_patterns: Vec<String>,
    /// Detailed composition results per configuration path
    pub composition_results: Vec<(String, CompositionResult)>,
}

pub open spec fn total_selected(rs: Seq<(String, CompositionResult)>) -> int
    decreases rs.len(),
{
    if rs.len() == 0 {
        0
    } else {
        total_selected(rs.drop_last()) + rs.last().1.selected_templates@.len()
    }
}

pub open spec fn total_conflicts(rs: Seq<(String, CompositionResult)>) -> int
    decreases rs.len(),
{
    if rs.len() == 0 {
        0
    } else {
        total_conflicts(rs.drop_last()) + rs.last().1.conflicts@.len()
    }
}

pub open spec fn conflict_patterns_of(rs: Seq<(String, CompositionResult)>) -> Seq<Seq<char>>
    decreases rs.len(),
{
    if rs.len() == 0 {
        Seq::empty()
    } else {
        conflict_patterns_of(rs.drop_last()) + rs.last().1.conflicts@.map_values(|x: TemplateConflict| x.pattern@)
    }
}

/// The distinct strings of `s`, in the order they first appear.
pub open spec fn first_occurrences(s: Seq<Seq<char>>) -> Seq<Seq<char>>
    decreases s.len(),
{
    if s.len() == 0 {
        Seq::empty()
    } else if s.drop_last().contains(s.last()) {
        first_occurrences(s.drop_last())
    } else {
        first_occurrences(s.drop_last()).push(s.last())
    }
}

pub proof fn lemma_first_occurrences_step(s: Seq<Seq<char>>, i: int)
    requires
        0 <= i < s.len(),
    ensures
        s.take(i + 1).drop_last() == s.take(i),
        s.take(i + 1).last() == s[i],
        s.take(i).contains(s[i]) <==> (exists|y: int| 0 <= y < i && #[trigger] s[y] == s[i]),
{
    assert(s.take(i + 1).drop_last() =~= s.take(i));
    if s.take(i).contains(s[i]) {
        let y = choose|y: int| 0 <= y < s.take(i).len() && s.take(i)[y] == s[i];
        assert(s[y] == s[i]);
    }
    if exists|y: int| 0 <= y < i && #[trigger] s[y] == s[i] {
        let y = choose|y: int| 0 <= y < i && #[trigger] s[y] == s[i];
        assert(s.take(i)[y] == s[i]);
    }
}

proof fn lemma_first_occurrences_len(s: Seq<Seq<char>>)
    ensures
        first_occurrences(s).len() <= s.len(),
    decreases s.len(),
{
    if s.len() > 0 {
        lemma_first_occurrences_len(s.drop_last());
    }
}

proof fn lemma_kept_len(m: Seq<ScopedTemplate>, cs: Seq<ConflictModel>, n: int)
    requires
        0 <= n <= m.len(),
    ensures
        kept_upto(m, cs, n).len() <= n,
    decreases n,
{
    if n > 0 {
        lemma_kept_len(m, cs, n - 1);
    }
}

proof fn lemma_matching_len(r: Seq<ScopedTemplate>, path: Seq<char>, n: int)
    requires
        0 <= n <= r.len(),
    ensures
        matching_upto(r, path, n).len() <= n,
    decreases n,
{
    if n > 0 {
        lemma_matching_len(r, path, n - 1);
    }
}

proof fn lemma_heads_len(r: Seq<ScopedTemplate>, n: int)
    requires
        0 <= n <= r.len(),
    ensures
        conflict_heads_upto(r, n).len() <= n,
    decreases n,
{
    if n > 0 {
        lemma_heads_len(r, n - 1);
    }
}

proof fn lemma_composition_bounds(
    nsel: nat,
    ncon: nat,
    res_r: ScopeResolver,
    ts: Seq<TemplateEntry>,
    c: ScopeContext,
    r: Seq<ScopedTemplate>,
    src: Seq<int>,
    path: Seq<char>,
    res: CompositionResult,
)
    requires
        resolution_of(res_r, ts, c, r, src),
        composes(res, r, path, c),
        nsel == res.selected_templates@.len(),
        ncon == res.conflicts@.len(),
    ensures
        nsel <= ts.len(),
        ncon <= ts.len(),
{
    let m = matching(r, path);
    lemma_matching_len(r, path, r.len() as int);
    lemma_kept_len(m, conflicts_of(m), m.len() as int);
    lemma_heads_len(m, m.len() as int);
    assert(src.len() <= ts.len()) by {
        src_bound(src, ts.len() as int);
    }
    assert(res.conflicts@.map_values(|x: TemplateConflict| x.model()).len() == res.conflicts@.len());
    assert(conflicts_of(m).len() == conflict_heads(m).len());
}

proof fn src_bound(src: Seq<int>, n: int)
    requires
        0 <= n,
        src.no_duplicates(),
        forall|k: int| 0 <= k < src.len() ==> 0 <= #[trigger] src[k] < n,
    ensures
        src.len() <= n,
{
    let s = src.to_set();
    vstd::set_lib::lemma_int_range(0, n);
    assert(s.subset_of(vstd::set_lib::set_int_range(0, n)));
    vstd::set_lib::lemma_len_subset(s, vstd::set_lib::set_int_range(0, n));
    src.unique_seq_to_set();
}

// ---------------------------------------------------------------------------
// Resolution does not depend on the order of the templates
// ---------------------------------------------------------------------------

/// Two scoped templates come from the same template under the same
/// resolver and context: same identifier, content, header, context and
/// priority.
pub open spec fn same_scoped(a: ScopedTemplate, b: ScopedTemplate) -> bool {
    &&& a.id@ == b.id@
    &&& a.content@ == b.content@
    &&& a.header.model() == b.header.model()
    &&& a.header.pattern == b.header.pattern
    &&& a.scope_context.model() == b.scope_context.model()
    &&& a.resolved_priority == b.resolved_priority
}

spec fn scoped_ids_distinct(x: Seq<ScopedTemplate>) -> bool {
    forall|i: int, j: int| 0 <= i < x.len() && 0 <= j < x.len() && i != j ==> (#[trigger] x[i]).id@ != (#[trigger] x[j]).id@
}

spec fn has_match(a: ScopedTemplate, y: Seq<ScopedTemplate>) -> bool {
    exists|j: int| 0 <= j < y.len() && same_scoped(a, #[trigger] y[j])
}

spec fn matched_in(x: Seq<ScopedTemplate>, y: Seq<ScopedTemplate>) -> bool {
    forall|i: int| 0 <= i < x.len() ==> has_match(#[trigger] x[i], y)
}

/// Two lists ordered by priority, then identifier, each naming an
/// identifier once, and holding the same templates, hold them in the same
/// order.
proof fn lemma_sorted_scoped_unique(x: Seq<ScopedTemplate>, y: Seq<ScopedTemplate>)
    requires
        priority_sorted(x),
        priority_sorted(y),
        scoped_ids_distinct(x),
        scoped_ids_distinct(y),
        matched_in(x, y),
        matched_in(y, x),
    ensures
        x.len() == y.len(),
        forall|k: int| 0 <= k < x.len() ==> same_scoped(#[trigger] x[k], y[k]),
    decreases x.len(),
{
    if x.len() == 0 {
        if y.len() > 0 {
            assert(has_match(y[0], x));
        }
    } else {
        assert(has_match(x[0], y));
        let j = choose|j: int| 0 <= j < y.len() && same_scoped(x[0], #[trigger] y[j]);
        assert(has_match(y[0], x));
        let i = choose|i: int| 0 <= i < x.len() && same_scoped(y[0], #[trigger] x[i]);
        if i > 0 {
            assert(precedes_or_ties(x[0], x[i]));
        } else {
            lemma_lex_le_reflexive(x[0].id@);
        }
        if j > 0 {
            assert(precedes_or_ties(y[0], y[j]));
        } else {
            lemma_lex_le_reflexive(y[0].id@);
        }
        assert(precedes_or_ties(x[0], y[0]));
        assert(precedes_or_ties(y[0], x[0]));
        lemma_lex_le_antisymmetric(x[0].id@, y[0].id@);
        assert(x[i].id@ == x[0].id@);
        assert(i == 0);
        assert(same_scoped(x[0], y[0]));
        let x1 = x.drop_first();
        let y1 = y.drop_first();
        assert forall|a: int| 0 <= a < x1.len() implies has_match(#[trigger] x1[a], y1) by {
            assert(x1[a] == x[a + 1]);
            assert(has_match(x[a + 1], y));
            let b = choose|b: int| 0 <= b < y.len() && same_scoped(x[a + 1], #[trigger] y[b]);
            assert(x[a + 1].id@ != x[0].id@);
            assert(b != 0);
            assert(y1[b - 1] == y[b]);
            assert(same_scoped(x1[a], y1[b - 1]));
        }
        assert forall|a: int| 0 <= a < y1.len() implies has_match(#[trigger] y1[a], x1) by {
            assert(y1[a] == y[a + 1]);
            assert(has_match(y[a + 1], x));
            let b = choose|b: int| 0 <= b < x.len() && same_scoped(y[a + 1], #[trigger] x[b]);
            assert(y[a + 1].id@ != y[0].id@);
            assert(b != 0);
            assert(x1[b - 1] == x[b]);
            assert(same_scoped(y1[a], x1[b - 1]));
        }
        assert forall|a: int, b: int| 0 <= a < b < x1.len() implies #[trigger] precedes_or_ties(x1[a], x1[b]) by {
            assert(x1[a] == x[a + 1] && x1[b] == x[b + 1]);
        }
        assert forall|a: int, b: int| 0 <= a < b < y1.len() implies #[trigger] precedes_or_ties(y1[a], y1[b]) by {
            assert(y1[a] == y[a + 1] && y1[b] == y[b + 1]);
        }
        assert forall|a: int, b: int| 0 <= a < x1.len() && 0 <= b < x1.len() && a != b implies (#[trigger] x1[a]).id@
            != (#[trigger] x1[b]).id@ by {
            assert(x1[a] == x[a + 1] && x1[b] == x[b + 1]);
        }
        assert forall|a: int, b: int| 0 <= a < y1.len() && 0 <= b < y1.len() && a != b implies (#[trigger] y1[a]).id@
            != (#[trigger] y1[b]).id@ by {
            assert(y1[a] == y[a + 1] && y1[b] == y[b + 1]);
        }
        lemma_sorted_scoped_unique(x1, y1);
        assert forall|k: int| 0 <= k < x.len() implies same_scoped(#[trigger] x[k], y[k]) by {
            if k > 0 {
                assert(x[k] == x1[k - 1] && y[k] == y1[k - 1]);
            }
        }
    }
}

/// A resolution of templates with distinct identifiers names each
/// identifier once, and every one of its templates has a counterpart in a
/// resolution of the same templates in another order.
proof fn lemma_resolution_matched(
    r: ScopeResolver,
    ts1: Seq<TemplateEntry>,
    ts2: Seq<TemplateEntry>,
    c: ScopeContext,
    out1: Seq<ScopedTemplate>,
    src1: Seq<int>,
    out2: Seq<ScopedTemplate>,
    src2: Seq<int>,
)
    requires
        resolution_of(r, ts1, c, out1, src1),
        resolution_of(r, ts2, c, out2, src2),
        ts1.to_multiset() == ts2.to_multiset(),
        distinct_ids(ts1),
    ensures
        scoped_ids_distinct(out1),
        matched_in(out1, out2),
{
    broadcast use vstd::seq_lib::group_to_multiset_ensures;
    assert forall|a: int, b: int| 0 <= a < out1.len() && 0 <= b < out1.len() && a != b implies (#[trigger] out1[a]).id@
        != (#[trigger] out1[b]).id@ by {
        assert(src1[a] != src1[b]);
        if src1[a] < src1[b] {
            assert(ts1[src1[a]].0@ != ts1[src1[b]].0@);
        } else {
            assert(ts1[src1[b]].0@ != ts1[src1[a]].0@);
        }
    }
    assert forall|k: int| 0 <= k < out1.len() implies has_match(#[trigger] out1[k], out2) by {
        let e = ts1[src1[k]];
        assert(ts1.contains(e));
        assert(ts1.to_multiset().contains(e));
        assert(ts2.contains(e));
        let b = choose|b: int| 0 <= b < ts2.len() && ts2[b] == e;
        assert(applies(ts2[b].1.1, c));
        assert(src2.contains(b));
        let m = choose|m: int| 0 <= m < src2.len() && src2[m] == b;
        assert(is_scoped(out2[m], r, ts2[b].0@, ts2[b].1.0@, ts2[b].1.1, c));
        assert(same_scoped(out1[k], out2[m]));
    }
}

/// Resolving the same templates (as the entries of a map, each identifier
/// once) in any order gives the same list: each position holds the scoped
/// form of the same template.
pub proof fn law_resolution_ignores_order(
    r: ScopeResolver,
    ts1: Seq<TemplateEntry>,
    ts2: Seq<TemplateEntry>,
    c: ScopeContext,
    out1: Seq<ScopedTemplate>,
    src1: Seq<int>,
    out2: Seq<ScopedTemplate>,
    src2: Seq<int>,
)
    requires
        resolution_of(r, ts1, c, out1, src1),
        resolution_of(r, ts2, c, out2, src2),
        ts1.to_multiset() == ts2.to_multiset(),
        distinct_ids(ts1),
        distinct_ids(ts2),
    ensures
        out1.len() == out2.len(),
        forall|k: int| 0 <= k < out1.len() ==> same_scoped(#[trigger] out1[k], out2[k]),
{
    lemma_resolution_matched(r, ts1, ts2, c, out1, src1, out2, src2);
    lemma_resolution_matched(r, ts2, ts1, c, out2, src2, out1, src1);
    lemma_sorted_scoped_unique(out1, out2);
}

spec fn pointwise_same(r1: Seq<ScopedTemplate>, r2: Seq<ScopedTemplate>) -> bool {
    &&& r1.len() == r2.len()
    &&& forall|k: int| 0 <= k < r1.len() ==> same_scoped(#[trigger] r1[k], r2[k])
}

proof fn lemma_members_same(r1: Seq<ScopedTemplate>, r2: Seq<ScopedTemplate>, key: Seq<char>, n: int)
    requires
        pointwise_same(r1, r2),
        n <= r1.len(),
    ensures
        members_upto(r1, key, n) == members_upto(r2, key, n),
    decreases n,
{
    if n > 0 {
        lemma_members_same(r1, r2, key, n - 1);
        assert(same_scoped(r1[n - 1], r2[n - 1]));
        assert(key_at(r1, n - 1) == key_at(r2, n - 1));
    }
}

proof fn lemma_heads_bound(r: Seq<ScopedTemplate>, n: int)
    requires
        0 <= n <= r.len(),
    ensures
        forall|i: int| 0 <= i < conflict_heads_upto(r, n).len() ==> 0 <= #[trigger] conflict_heads_upto(r, n)[i] < n
            && members(r, key_at(r, conflict_heads_upto(r, n)[i])).len() >= 2,
    decreases n,
{
    if n > 0 {
        lemma_heads_bound(r, n - 1);
        let p = conflict_heads_upto(r, n - 1);
        assert forall|i: int| 0 <= i < conflict_heads_upto(r, n).len() implies 0 <= #[trigger] conflict_heads_upto(r, n)[i] < n
            && members(r, key_at(r, conflict_heads_upto(r, n)[i])).len() >= 2 by {
            if i < p.len() {
                assert(conflict_heads_upto(r, n)[i] == p[i]);
            }
        }
    }
}

proof fn lemma_heads_same(r1: Seq<ScopedTemplate>, r2: Seq<ScopedTemplate>, n: int)
    requires
        pointwise_same(r1, r2),
        n <= r1.len(),
    ensures
        conflict_heads_upto(r1, n) == conflict_heads_upto(r2, n),
    decreases n,
{
    if n > 0 {
        lemma_heads_same(r1, r2, n - 1);
        assert(same_scoped(r1[n - 1], r2[n - 1]));
        assert forall|j: int| 0 <= j < n - 1 implies key_at(r1, j) == key_at(r2, j) by {
            assert(same_scoped(r1[j], r2[j]));
        }
        assert(first_with_key(r1, n - 1) == first_with_key(r2, n - 1));
        lemma_members_same(r1, r2, key_at(r1, n - 1), r1.len() as int);
    }
}

/// Two detectors with equal resolvers report the same conflicts for the
/// same templates (each identifier once), in the same order.
pub proof fn law_equal_resolvers_same_conflicts(
    d1: ConflictDetector,
    d2: ConflictDetector,
    ts: Seq<TemplateEntry>,
    c: ScopeContext,
    r1: Seq<ScopedTemplate>,
    src1: Seq<int>,
    r2: Seq<ScopedTemplate>,
    src2: Seq<int>,
)
    requires
        d1.resolver == d2.resolver,
        resolution_of(d1.resolver, ts, c, r1, src1),
        resolution_of(d2.resolver, ts, c, r2, src2),
        distinct_ids(ts),
    ensures
        conflicts_of(r1) == conflicts_of(r2),
{
    law_resolution_ignores_order(d1.resolver, ts, ts, c, r1, src1, r2, src2);
    assert(pointwise_same(r1, r2));
    lemma_heads_same(r1, r2, r1.len() as int);
    let h = conflict_heads(r1);
    assert forall|i: int| 0 <= i < h.len() implies conflict_for(r1, #[trigger] h[i]) == conflict_for(r2, h[i]) by {
        let k = h[i];
        lemma_heads_bound(r1, r1.len() as int);
        assert(same_scoped(r1[k], r2[k]));
        lemma_members_same(r1, r2, key_at(r1, k), r1.len() as int);
        let m = members(r1, key_at(r1, k));
        assert(h == conflict_heads_upto(r1, r1.len() as int));
        assert(m.len() >= 2);
        lemma_members_bounds(r1, key_at(r1, k), r1.len() as int);
        if m.len() >= 2 {
            assert(same_scoped(r1[m[0]], r2[m[0]]));
            assert(same_scoped(r1[m[1]], r2[m[1]]));
        }
        if m.len() >= 1 {
            assert(same_scoped(r1[m[0]], r2[m[0]]));
        }
        assert forall|t: int| 0 <= t < m.skip(1).len() implies r1[#[trigger] m.skip(1)[t]].id@ == r2[m.skip(1)[t]].id@ by {
            let mu = members_upto(r1, key_at(r1, k), r1.len() as int);
            assert(m == mu);
            assert(m.skip(1)[t] == mu[t + 1]);
            assert(0 <= mu[t + 1] < r1.len());
            assert(same_scoped(r1[mu[t + 1]], r2[mu[t + 1]]));
        }
        assert(m.skip(1).map_values(|j: int| r1[j].id@) =~= m.skip(1).map_values(|j: int| r2[j].id@));
    }
    assert(conflicts_of(r1) =~= conflicts_of(r2));
}


proof fn lemma_members_complete(r: Seq<ScopedTemplate>, key: Seq<char>, n: int)
    requires
        0 <= n <= r.len(),
    ensures
        forall|p: int| 0 <= p < n && key_at(r, p) == key ==> #[trigger] members_upto(r, key, n).contains(p),
    decreases n,
{
    if n > 0 {
        lemma_members_complete(r, key, n - 1);
        let prev = members_upto(r, key, n - 1);
        let cur = members_upto(r, key, n);
        assert forall|p: int| 0 <= p < n && key_at(r, p) == key implies #[trigger] cur.contains(p) by {
            if p < n - 1 {
                assert(prev.contains(p));
                let t = choose|t: int| 0 <= t < prev.len() && prev[t] == p;
                if key_at(r, n - 1) == key {
                    assert(cur[t] == prev[t]);
                }
                assert(cur[t] == p);
            } else {
                assert(cur == prev.push(n - 1));
                assert(cur[prev.len() as int] == p);
            }
        }
    }
}

proof fn lemma_heads_props(r: Seq<ScopedTemplate>, n: int)
    requires
        0 <= n <= r.len(),
    ensures
        forall|i: int| 0 <= i < conflict_heads_upto(r, n).len() ==> first_with_key(r, #[trigger] conflict_heads_upto(r, n)[i]),
        forall|i: int, j: int| 0 <= i < j < conflict_heads_upto(r, n).len() ==> #[trigger] conflict_heads_upto(r, n)[i]
            < #[trigger] conflict_heads_upto(r, n)[j],
        forall|p: int| 0 <= p < n && first_with_key(r, p) && members(r, key_at(r, p)).len() >= 2 ==> #[trigger] conflict_heads_upto(
            r,
            n,
        ).contains(p),
    decreases n,
{
    if n > 0 {
        lemma_heads_props(r, n - 1);
        lemma_heads_bound(r, n - 1);
        let prev = conflict_heads_upto(r, n - 1);
        let cur = conflict_heads_upto(r, n);
        if first_with_key(r, n - 1) && members(r, key_at(r, n - 1)).len() >= 2 {
            assert(cur == prev.push(n - 1));
            assert forall|i: int| 0 <= i < cur.len() implies first_with_key(r, #[trigger] cur[i]) by {
                if i < prev.len() {
                    assert(cur[i] == prev[i]);
                }
            }
            assert forall|i: int, j: int| 0 <= i < j < cur.len() implies #[trigger] cur[i] < #[trigger] cur[j] by {
                assert(cur[i] == prev[i]);
                if j < prev.len() {
                    assert(cur[j] == prev[j]);
                }
            }
            assert forall|p: int| 0 <= p < n && first_with_key(r, p) && members(r, key_at(r, p)).len() >= 2 implies #[trigger] cur.contains(p) by {
                if p < n - 1 {
                    assert(prev.contains(p));
                    let t = choose|t: int| 0 <= t < prev.len() && prev[t] == p;
                    assert(cur[t] == p);
                } else {
                    assert(cur[prev.len() as int] == p);
                }
            }
        } else {
            assert(cur == prev);
        }
    }
}

/// The conflicts a detector reports for templates resolved in order: for
/// each pattern key that two or more of them share there is exactly one
/// conflict, and no other. It names that key; the winner is the template of
/// highest priority among them (of equal priorities, the least identifier),
/// and the others are overridden, highest priority first; the reason is the
/// winner's priority against the first of the others when it is higher,
/// else the ordering by identifier.
pub proof fn law_one_conflict_per_shared_pattern(
    d: ConflictDetector,
    ts: Seq<TemplateEntry>,
    c: ScopeContext,
    r: Seq<ScopedTemplate>,
    src: Seq<int>,
)
    requires
        resolution_of(d.resolver, ts, c, r, src),
    ensures
        forall|key: Seq<char>|
            #![trigger members(r, key)]
            members(r, key).len() >= 2 <==> exists|i: int| 0 <= i < conflicts_of(r).len() && (#[trigger] conflicts_of(r)[i]).0 == key,
        forall|i: int, j: int|
            0 <= i < j < conflicts_of(r).len() ==> (#[trigger] conflicts_of(r)[i]).0 != (#[trigger] conflicts_of(r)[j]).0,
        forall|i: int|
            #![trigger conflicts_of(r)[i]]
            0 <= i < conflicts_of(r).len() ==> {
                let cf = conflicts_of(r)[i];
                let m = members(r, cf.0);
                &&& m.len() >= 2
                &&& forall|t: int| 0 <= t < m.len() ==> 0 <= #[trigger] m[t] < r.len() && key_at(r, m[t]) == cf.0
                &&& cf.1 == r[m[0]].id@
                &&& forall|t: int| 0 < t < m.len() ==> precedes_or_ties(r[m[0]], #[trigger] r[m[t]])
                &&& cf.2 == m.skip(1).map_values(|j: int| r[j].id@)
                &&& forall|a: int, b: int| 1 <= a < b < m.len() ==> precedes_or_ties(#[trigger] r[m[a]], #[trigger] r[m[b]])
                &&& cf.3 == resolution_reason(r[m[0]].resolved_priority, r[m[1]].resolved_priority)
            },
{
    let n = r.len() as int;
    let h = conflict_heads(r);
    lemma_heads_bound(r, n);
    lemma_heads_props(r, n);
    assert forall|key: Seq<char>| #![trigger members(r, key)]
        members(r, key).len() >= 2 implies exists|i: int| 0 <= i < conflicts_of(r).len() && (#[trigger] conflicts_of(r)[i]).0 == key by {
        let m = members(r, key);
        lemma_members_bounds(r, key, n);
        lemma_members_complete(r, key, n);
        let p = m[0];
        assert(key_at(r, p) == key);
        assert forall|j: int| 0 <= j < p implies key_at(r, j) != key_at(r, p) by {
            if key_at(r, j) == key {
                assert(m.contains(j));
                let t = choose|t: int| 0 <= t < m.len() && m[t] == j;
                if t > 0 {
                    assert(m[0] < m[t]);
                }
            }
        }
        assert(first_with_key(r, p));
        assert(h.contains(p));
        let i = choose|i: int| 0 <= i < h.len() && h[i] == p;
        assert(conflicts_of(r)[i] == conflict_for(r, p));
    }
    assert forall|key: Seq<char>| #![trigger members(r, key)]
        (exists|i: int| 0 <= i < conflicts_of(r).len() && (#[trigger] conflicts_of(r)[i]).0 == key) implies members(r, key).len() >= 2 by {
        let i = choose|i: int| 0 <= i < conflicts_of(r).len() && (#[trigger] conflicts_of(r)[i]).0 == key;
        assert(conflicts_of(r)[i] == conflict_for(r, h[i]));
    }
    assert forall|i: int, j: int| 0 <= i < j < conflicts_of(r).len() implies (#[trigger] conflicts_of(r)[i]).0 != (
    #[trigger] conflicts_of(r)[j]).0 by {
        assert(conflicts_of(r)[i] == conflict_for(r, h[i]));
        assert(conflicts_of(r)[j] == conflict_for(r, h[j]));
        assert(h[i] < h[j]);
        assert(first_with_key(r, h[j]));
    }
    assert forall|i: int| #![trigger conflicts_of(r)[i]] 0 <= i < conflicts_of(r).len() implies {
        let cf = conflicts_of(r)[i];
        let m = members(r, cf.0);
        &&& m.len() >= 2
        &&& forall|t: int| 0 <= t < m.len() ==> 0 <= #[trigger] m[t] < r.len() && key_at(r, m[t]) == cf.0
        &&& cf.1 == r[m[0]].id@
        &&& forall|t: int| 0 < t < m.len() ==> precedes_or_ties(r[m[0]], #[trigger] r[m[t]])
        &&& cf.2 == m.skip(1).map_values(|j: int| r[j].id@)
        &&& forall|a: int, b: int| 1 <= a < b < m.len() ==> precedes_or_ties(#[trigger] r[m[a]], #[trigger] r[m[b]])
        &&& cf.3 == resolution_reason(r[m[0]].resolved_priority, r[m[1]].resolved_priority)
    } by {
        let k = h[i];
        assert(conflicts_of(r)[i] == conflict_for(r, k));
        let key = key_at(r, k);
        let m = members(r, key);
        lemma_members_bounds(r, key, n);
        assert forall|t: int| 0 < t < m.len() implies precedes_or_ties(r[m[0]], #[trigger] r[m[t]]) by {
            assert(m[0] < m[t]);
        }
        assert forall|a: int, b: int| 1 <= a < b < m.len() implies precedes_or_ties(#[trigger] r[m[a]], #[trigger] r[m[b]]) by {
            assert(m[a] < m[b]);
        }
    }
}

/// The identifiers of the ordered templates are pairwise distinct.
spec fn ids_distinct(r: Seq<ScopedTemplate>) -> bool {
    forall|a: int, b: int| 0 <= a < b < r.len() ==> (#[trigger] r[a]).id@ != (#[trigger] r[b]).id@
}

proof fn lemma_matching_props(r: Seq<ScopedTemplate>, path: Seq<char>, n: int)
    requires
        0 <= n <= r.len(),
        priority_sorted(r),
        ids_distinct(r),
    ensures
        forall|t: int| #![trigger matching_upto(r, path, n)[t]] 0 <= t < matching_upto(r, path, n).len() ==> exists|i: int|
            #![trigger r[i]] 0 <= i < n && matching_upto(r, path, n)[t] == r[i],
        forall|t: int| 0 <= t < matching_upto(r, path, n).len() ==> pattern_matches(#[trigger] matching_upto(r, path, n)[t].header.pattern, path),
        priority_sorted(matching_upto(r, path, n)),
        ids_distinct(matching_upto(r, path, n)),
    decreases n,
{
    if n > 0 {
        lemma_matching_props(r, path, n - 1);
        let prev = matching_upto(r, path, n - 1);
        let cur = matching_upto(r, path, n);
        if pattern_matches(r[n - 1].header.pattern, path) {
            assert(cur == prev.push(r[n - 1]));
            assert forall|t: int| #![trigger cur[t]] 0 <= t < cur.len() implies exists|i: int| #![trigger r[i]] 0 <= i < n && cur[t] == r[i] by {
                if t < prev.len() {
                    assert(cur[t] == prev[t]);
                    let i = choose|i: int| #![trigger r[i]] 0 <= i < n - 1 && prev[t] == r[i];
                    assert(cur[t] == r[i]);
                } else {
                    assert(cur[t] == r[n - 1]);
                }
            }
            assert forall|t: int| 0 <= t < cur.len() implies pattern_matches(#[trigger] cur[t].header.pattern, path) by {
                if t < prev.len() {
                    assert(cur[t] == prev[t]);
                }
            }
            assert forall|a: int, b: int| 0 <= a < b < cur.len() implies #[trigger] precedes_or_ties(cur[a], cur[b]) by {
                assert(cur[a] == prev[a]);
                let i = choose|i: int| #![trigger r[i]] 0 <= i < n - 1 && prev[a] == r[i];
                if b < prev.len() {
                    assert(cur[b] == prev[b]);
                } else {
                    assert(cur[b] == r[n - 1]);
                    assert(precedes_or_ties(r[i], r[n - 1]));
                }
            }
            assert forall|a: int, b: int| 0 <= a < b < cur.len() implies (#[trigger] cur[a]).id@ != (#[trigger] cur[b]).id@ by {
                assert(cur[a] == prev[a]);
                let i = choose|i: int| #![trigger r[i]] 0 <= i < n - 1 && prev[a] == r[i];
                if b < prev.len() {
                    assert(cur[b] == prev[b]);
                } else {
                    assert(cur[b] == r[n - 1]);
                    assert(r[i].id@ != r[n - 1].id@);
                }
            }
        } else {
            assert(cur == prev);
        }
    }
}

proof fn lemma_kept_props(m: Seq<ScopedTemplate>, cs: Seq<ConflictModel>, n: int)
    requires
        0 <= n <= m.len(),
        priority_sorted(m),
    ensures
        forall|k: int|
            0 <= k < kept_upto(m, cs, n).len() ==> m.take(n).contains(#[trigger] kept_upto(m, cs, n)[k]) && !overridden(
                cs,
                kept_upto(m, cs, n)[k].id@,
            ),
        forall|j: int| 0 <= j < n && !overridden(cs, (#[trigger] m[j]).id@) ==> kept_upto(m, cs, n).contains(m[j]),
        priority_sorted(kept_upto(m, cs, n)),
    decreases n,
{
    if n > 0 {
        lemma_kept_props(m, cs, n - 1);
        let prev = kept_upto(m, cs, n - 1);
        let cur = kept_upto(m, cs, n);
        if !overridden(cs, m[n - 1].id@) {
            assert(cur == prev.push(m[n - 1]));
            assert forall|k: int| 0 <= k < cur.len() implies m.take(n).contains(#[trigger] cur[k]) && !overridden(cs, cur[k].id@) by {
                if k < prev.len() {
                    assert(cur[k] == prev[k]);
                    assert(m.take(n - 1).contains(prev[k]));
                    let j = choose|j: int| 0 <= j < n - 1 && #[trigger] m.take(n - 1)[j] == prev[k];
                    assert(m.take(n)[j] == cur[k]);
                } else {
                    assert(m.take(n)[n - 1] == cur[k]);
                }
            }
            assert forall|j: int| 0 <= j < n && !overridden(cs, (#[trigger] m[j]).id@) implies cur.contains(m[j]) by {
                if j < n - 1 {
                    assert(prev.contains(m[j]));
                    let k = choose|k: int| 0 <= k < prev.len() && prev[k] == m[j];
                    assert(cur[k] == m[j]);
                } else {
                    assert(cur[prev.len() as int] == m[j]);
                }
            }
            assert forall|a: int, b: int| 0 <= a < b < cur.len() implies #[trigger] precedes_or_ties(cur[a], cur[b]) by {
                assert(cur[a] == prev[a]);
                assert(m.take(n - 1).contains(prev[a]));
                let j = choose|j: int| 0 <= j < n - 1 && #[trigger] m.take(n - 1)[j] == prev[a];
                assert(m[j] == prev[a]);
                if b < prev.len() {
                    assert(cur[b] == prev[b]);
                } else {
                    assert(cur[b] == m[n - 1]);
                    assert(precedes_or_ties(m[j], m[n - 1]));
                }
            }
        } else {
            assert(cur == prev);
            assert forall|k: int| 0 <= k < cur.len() implies m.take(n).contains(#[trigger] cur[k]) && !overridden(cs, cur[k].id@) by {
                assert(m.take(n - 1).contains(prev[k]));
                let j = choose|j: int| 0 <= j < n - 1 && #[trigger] m.take(n - 1)[j] == prev[k];
                assert(m.take(n)[j] == cur[k]);
            }
            assert forall|j: int| 0 <= j < n && !overridden(cs, (#[trigger] m[j]).id@) implies cur.contains(m[j]) by {
                if j < n - 1 {
                    assert(prev.contains(m[j]));
                }
            }
        }
    }
}

/// Among templates with distinct identifiers, a template is overridden by
/// one of their conflicts exactly when an earlier template shares its
/// pattern key.
proof fn lemma_overridden_iff_not_first(m: Seq<ScopedTemplate>, j: int)
    requires
        0 <= j < m.len(),
        ids_distinct(m),
    ensures
        overridden(conflicts_of(m), m[j].id@) <==> !first_with_key(m, j),
{
    let n = m.len() as int;
    let h = conflict_heads(m);
    let cs = conflicts_of(m);
    lemma_heads_bound(m, n);
    lemma_heads_props(m, n);
    let key = key_at(m, j);
    let mem = members(m, key);
    lemma_members_bounds(m, key, n);
    lemma_members_complete(m, key, n);
    if !first_with_key(m, j) {
        let j0 = choose|j0: int| 0 <= j0 < j && key_at(m, j0) == key_at(m, j);
        assert(mem.contains(j0));
        assert(mem.contains(j));
        let t0 = choose|t0: int| 0 <= t0 < mem.len() && mem[t0] == j0;
        let t = choose|t: int| 0 <= t < mem.len() && mem[t] == j;
        assert(t0 != t);
        assert(mem.len() >= 2);
        let p = mem[0];
        if t == 0 {
            assert(mem[0] < mem[t0]);
        }
        assert(t >= 1);
        assert forall|q: int| 0 <= q < p implies key_at(m, q) != key_at(m, p) by {
            if key_at(m, q) == key {
                assert(mem.contains(q));
                let u = choose|u: int| 0 <= u < mem.len() && mem[u] == q;
                if u > 0 {
                    assert(mem[0] < mem[u]);
                }
            }
        }
        assert(first_with_key(m, p));
        assert(h.contains(p));
        let i = choose|i: int| 0 <= i < h.len() && h[i] == p;
        assert(cs[i] == conflict_for(m, p));
        assert(key_at(m, p) == key);
        assert(cs[i].2 == mem.skip(1).map_values(|x: int| m[x].id@));
        assert(cs[i].2[t - 1] == m[mem[t]].id@);
        assert(overridden(cs, m[j].id@));
    }
    if overridden(cs, m[j].id@) {
        let (c, jj) = choose|c: int, jj: int| 0 <= c < cs.len() && 0 <= jj < cs[c].2.len() && #[trigger] cs[c].2[jj] == m[j].id@;
        let p = h[c];
        assert(cs[c] == conflict_for(m, p));
        let k2 = key_at(m, p);
        let mem2 = members(m, k2);
        lemma_members_bounds(m, k2, n);
        assert(cs[c].2 == mem2.skip(1).map_values(|x: int| m[x].id@));
        let q = mem2[jj + 1];
        assert(m[q].id@ == m[j].id@);
        if q != j {
            if q < j {
                assert(m[q].id@ != m[j].id@);
            } else {
                assert(m[j].id@ != m[q].id@);
            }
        }
        assert(q == j);
        assert(mem2[0] < mem2[jj + 1]);
        assert(key_at(m, mem2[0]) == key_at(m, j));
        assert(!first_with_key(m, j));
    }
}

/// What a composer selects for a configuration path, from the templates
/// (each identifier once) resolved in order: only templates whose pattern
/// matches the path, highest priority first (of equal priorities, the least
/// identifier first); and of the matching templates, exactly those that no
/// earlier matching template shares a pattern with, which is the winner of
/// each group of templates that share a pattern.
pub proof fn law_composition_keeps_group_winners(
    comp: TemplateComposer,
    ts: Seq<TemplateEntry>,
    c: ScopeContext,
    path: Seq<char>,
    r: Seq<ScopedTemplate>,
    src: Seq<int>,
    res: CompositionResult,
)
    requires
        resolution_of(comp.resolver, ts, c, r, src),
        composes(res, r, path, c),
        distinct_ids(ts),
    ensures
        forall|k: int| 0 <= k < res.selected_templates@.len() ==> pattern_matches(
            (#[trigger] res.selected_templates@[k]).header.pattern,
            path,
        ) && r.contains(res.selected_templates@[k]),
        priority_sorted(res.selected_templates@),
        forall|j: int|
            0 <= j < matching(r, path).len() ==> (res.selected_templates@.contains(#[trigger] matching(r, path)[j]) <==> first_with_key(
                matching(r, path),
                j,
            )),
{
    let n = r.len() as int;
    assert(ids_distinct(r)) by {
        assert forall|a: int, b: int| 0 <= a < b < r.len() implies (#[trigger] r[a]).id@ != (#[trigger] r[b]).id@ by {
            assert(src[a] != src[b]);
            if src[a] < src[b] {
                assert(ts[src[a]].0@ != ts[src[b]].0@);
            } else {
                assert(ts[src[b]].0@ != ts[src[a]].0@);
            }
        }
    }
    lemma_matching_props(r, path, n);
    let m = matching(r, path);
    let cs = conflicts_of(m);
    let sel = res.selected_templates@;
    assert(sel == kept_upto(m, cs, m.len() as int));
    lemma_kept_props(m, cs, m.len() as int);
    assert forall|k: int| 0 <= k < sel.len() implies pattern_matches((#[trigger] sel[k]).header.pattern, path) && r.contains(sel[k]) by {
        assert(m.take(m.len() as int).contains(sel[k]));
        let j = choose|j: int| 0 <= j < m.len() && #[trigger] m.take(m.len() as int)[j] == sel[k];
        assert(m[j] == sel[k]);
        assert(pattern_matches(m[j].header.pattern, path));
        let i = choose|i: int| #![trigger r[i]] 0 <= i < n && m[j] == r[i];
        assert(r[i] == sel[k]);
    }
    assert forall|j: int| 0 <= j < m.len() implies (sel.contains(#[trigger] m[j]) <==> first_with_key(m, j)) by {
        lemma_overridden_iff_not_first(m, j);
        if sel.contains(m[j]) {
            let k = choose|k: int| 0 <= k < sel.len() && sel[k] == m[j];
            assert(m.take(m.len() as int).contains(sel[k]));
            let j2 = choose|j2: int| 0 <= j2 < m.len() && #[trigger] m.take(m.len() as int)[j2] == sel[k];
            assert(m[j2] == sel[k]);
            assert(!overridden(cs, sel[k].id@));
            if j2 != j {
                if j2 < j {
                    assert(m[j2].id@ != m[j].id@);
                } else {
                    assert(m[j].id@ != m[j2].id@);
                }
            }
        }
    }
}

/// Whenever a scope lists configuration contexts and the target's context
/// is not among them, the scope does not admit the target, whatever else
/// it lists; the same holds of listed vendors and device types, a target
/// with none of these counting as not among them.
pub proof fn law_scope_restrictions_each_exclude(s: TemplateScope, c: ScopeContext)
    ensures
        (s.contexts matches Some(x) && forall|i: int| 0 <= i < x@.len() ==> (#[trigger] x@[i])@ != c.context@) ==> !scope_admits(
            s,
            c,
        ),
        (s.vendors matches Some(v) && (c.vendor is None || forall|i: int|
            0 <= i < v@.len() ==> (#[trigger] v@[i])@ != c.vendor->0@)) ==> !scope_admits(s, c),
        (s.device_types matches Some(d) && (c.device_type is None || forall|i: int|
            0 <= i < d@.len() ==> (#[trigger] d@[i])@ != c.device_type->0@)) ==> !scope_admits(s, c),
{
}

/// A scope admits a target when each list it sets names the target's
/// value: some listed device type is the target's, some listed vendor is
/// the target's, and some listed context is the target's context.
pub proof fn law_scope_admits_when_every_list_names_the_target(
    s: TemplateScope,
    c: ScopeContext,
    di: int,
    vi: int,
    ci: int,
)
    requires
        s.device_types matches Some(d) ==> c.device_type is Some && 0 <= di < d@.len() && d@[di]@ == c.device_type->0@,
        s.vendors matches Some(v) ==> c.vendor is Some && 0 <= vi < v@.len() && v@[vi]@ == c.vendor->0@,
        s.contexts matches Some(x) ==> 0 <= ci < x@.len() && x@[ci]@ == c.context@,
    ensures
        scope_admits(s, c),
{
}

/// Taking a restriction away from a scope never turns an admitted target
/// away.
pub proof fn law_fewer_restrictions_admit_more(s: TemplateScope, c: ScopeContext)
    requires
        scope_admits(s, c),
    ensures
        scope_admits((TemplateScope { device_types: None, ..s }), c),
        scope_admits((TemplateScope { vendors: None, ..s }), c),
        scope_admits((TemplateScope { contexts: None, ..s }), c),
{
}

} // verus!

//! Configuration slice extraction for template matching
//!
//! A device configuration is parsed, line by line, into a shallow tree of
//! configuration nodes; the slices are the nodes whose path a template
//! header matches.

use vstd::prelude::*;
use crate::patterns::{groups_view, opt_view, regex_captures, regex_first_captures, regex_valid};
use crate::template::header::{pattern_checkable, pattern_matches, HeaderError, HeaderParser, TemplateHeader};
use crate::text::{
    chars_to_string, is_ws, join, join_exec, lines, lines_exec, lowercase, push_all, push_str, replace_all,
    replace_exec, split_whitespace, split_whitespace_exec, starts_with, starts_with_exec, str_to_chars,
    to_lowercase_str, trim, trim_chars,
};

verus! {

/// Type of configuration element
#[derive(Debug, Clone, Copy, PartialEq, Eq, Structural)]
pub enum ConfigType {
    /// Leaf configuration (single value)
    Leaf,
    /// Container configuration (has children)
    Container,
    /// List configuration (array of items)
    List,
}

/// Error severity levels
#[derive(Debug, Clone, Copy, PartialEq, Eq, Structural)]
pub enum ErrorSeverity {
    /// Fatal error - configuration cannot be processed
    Fatal,
    /// Error - significant issue but processing can continue
    Error,
    /// Warning - minor issue
    Warning,
}

/// The fixed line patterns of the Cisco parser.
#[derive(Debug, Clone, Copy, PartialEq, Eq, Structural)]
pub enum CiscoPattern {
    Interface,
    Router,
    Vlan,
}

/// Why a configuration could not be sliced.
#[derive(Debug, Clone, PartialEq)]
pub enum SliceError {
    /// No parser is registered for the vendor
    NoParser(String),
    /// A fixed line pattern did not compile or lacked a group it captures
    Pattern(CiscoPattern),
    /// A line without any word
    EmptyLine,
    /// A node pointing outside the configuration's lines
    InvalidLineNumber(usize),
    /// A template header pattern that cannot be checked
    Header(HeaderError),
}

/// A node in the configuration tree
#[derive(Debug, PartialEq)]
pub struct ConfigNode {
    /// Node name/key
    pub name: String,
    /// Node value (if leaf)
    pub value: Option<String>,
    /// Child nodes (if container)
    pub children: Vec<ConfigNode>,
    /// Line number in the configuration text
    pub line_number: usize,
    /// Node type
    pub node_type: ConfigType,
    /// Full path from root
    pub path: String,
}

/// Name, value, type and path of a parsed line.
pub type LineModel = (Seq<char>, Option<Seq<char>>, ConfigType, Seq<char>);

/// A parsed line with its line number.
pub type NumberedLine = (LineModel, nat);

/// A top-level node with the lines nested under it.
pub type NodeModel = (NumberedLine, Seq<NumberedLine>);

impl ConfigNode {
    pub open spec fn line_model(self) -> NumberedLine {
        ((self.name@, opt_view(self.value), self.node_type, self.path@), self.line_number as nat)
    }

    pub open spec fn node_model(self) -> NodeModel {
        (self.line_model(), self.children@.map_values(|c: ConfigNode| c.line_model()))
    }

    /// The node has no children.
    pub open spec fn is_flat(self) -> bool {
        self.children@.len() == 0
    }
}

/// Hierarchical configuration tree representation
#[derive(Debug, PartialEq)]
pub struct ConfigTree {
    /// Root configuration nodes
    pub nodes: Vec<ConfigNode>,
    /// Total line count
    pub line_count: usize,
}

impl ConfigTree {
    pub open spec fn nodes_model(self) -> Seq<NodeModel> {
        self.nodes@.map_values(|n: ConfigNode| n.node_model())
    }

    /// Two levels at most: the children of the top nodes have none.
    pub open spec fn shallow(self) -> bool {
        forall|i: int, j: int|
            0 <= i < self.nodes@.len() && 0 <= j < self.nodes@[i].children@.len() ==> (#[trigger] self.nodes@[i].children@[j]).is_flat()
    }
}

/// Configuration validation error
#[derive(Debug, Clone, PartialEq)]
pub struct ValidationError {
    /// Error message
    pub message: String,
    /// Line number where error occurred
    pub line_number: usize,
    /// Error severity
    pub severity: ErrorSeverity,
}

/// Configuration syntax validation result
#[derive(Debug, Clone, PartialEq)]
pub struct ValidationResult {
    /// Whether the configuration is syntactically valid
    pub is_valid: bool,
    /// Validation errors found
    pub errors: Vec<ValidationError>,
    /// Warnings (non-fatal issues)
    pub warnings: Vec<String>,
}

/// Metadata about the extracted configuration slice
#[derive(Debug, Clone, PartialEq)]
pub struct SliceMetadata {
    /// The network device vendor (cisco, juniper, arista, etc.)
    pub vendor: String,
    /// Configuration context (global, interface, routing, etc.)
    pub context: String,
    /// Whether this is a leaf or container configuration
    pub config_type: ConfigType,
    /// Additional vendor-specific attributes
    pub attributes: Vec<(String, String)>,
}

/// Configuration slice extracted from a device configuration
#[derive(Debug, PartialEq)]
pub struct ConfigSlice {
    /// The configuration path that matched the template header
    pub path: String,
    /// The extracted configuration content
    pub content: String,
    /// Line numbers in the configuration text
    pub line_range: (usize, usize),
    /// Vendor-specific metadata
    pub metadata: SliceMetadata,
}

// ---------------------------------------------------------------------------
// Cisco lines
// ---------------------------------------------------------------------------

pub open spec fn interface_pattern() -> Seq<char> {
    "^interface\\s+(.+)$"@
}

pub open spec fn router_pattern() -> Seq<char> {
    "^router\\s+(\\w+)(?:\\s+(.+))?$"@
}

pub open spec fn vlan_pattern() -> Seq<char> {
    "^vlan\\s+(\\d+)$"@
}

/// Group `k` of a match, when it took part.
pub open spec fn group(g: Seq<Option<Seq<char>>>, k: int) -> Option<Seq<char>> {
    if 0 <= k < g.len() {
        g[k]
    } else {
        None
    }
}

/// How the Cisco parser reads a trimmed, non-empty line: an interface, a
/// routing process or a VLAN when the line is one, else a generic line of
/// its first word and the rest.
pub open spec fn cisco_line(t: Seq<char>) -> Result<LineModel, SliceError> {
    if !regex_valid(interface_pattern()) {
        Err(SliceError::Pattern(CiscoPattern::Interface))
    } else if regex_captures(interface_pattern(), t) is Some {
        match group(regex_captures(interface_pattern(), t)->0, 1) {
            Some(n) => Ok(("interface"@, Some(n), ConfigType::Container, "interface."@ + lowercase(replace_all(n, " "@, "_"@)))),
            None => Err(SliceError::Pattern(CiscoPattern::Interface)),
        }
    } else if !regex_valid(router_pattern()) {
        Err(SliceError::Pattern(CiscoPattern::Router))
    } else if regex_captures(router_pattern(), t) is Some {
        let g = regex_captures(router_pattern(), t)->0;
        match group(g, 1) {
            Some(p) => {
                let inst = match group(g, 2) {
                    Some(i) => i,
                    None => Seq::empty(),
                };
                Ok(("router"@, Some(trim(p + " "@ + inst)), ConfigType::Container, "router."@ + p + "."@ + replace_all(inst, " "@, "_"@)))
            },
            None => Err(SliceError::Pattern(CiscoPattern::Router)),
        }
    } else if !regex_valid(vlan_pattern()) {
        Err(SliceError::Pattern(CiscoPattern::Vlan))
    } else if regex_captures(vlan_pattern(), t) is Some {
        match group(regex_captures(vlan_pattern(), t)->0, 1) {
            Some(v) => Ok(("vlan"@, Some(v), ConfigType::Container, "vlan."@ + v)),
            None => Err(SliceError::Pattern(CiscoPattern::Vlan)),
        }
    } else {
        word_line(t)
    }
}

/// A line read as its first word and the remaining words joined by blanks.
pub open spec fn word_line(t: Seq<char>) -> Result<LineModel, SliceError> {
    let parts = split_whitespace(t);
    if parts.len() == 0 {
        Err(SliceError::EmptyLine)
    } else {
        Ok((parts[0], if parts.len() > 1 { Some(join(parts.skip(1), " "@)) } else { None }, ConfigType::Leaf, parts[0]))
    }
}

/// A line that carries configuration: not blank, not a `comment` line.
pub open spec fn significant(line: Seq<char>, comment: char) -> bool {
    trim(line).len() > 0 && trim(line)[0] != comment
}

/// The line starts at the left margin.
pub open spec fn at_margin(line: Seq<char>) -> bool {
    line.len() == 0 || !is_ws(line[0])
}

/// The Cisco tree of the first `n` lines: the finished top-level nodes and
/// the one still open, or the first line that could not be read.
pub open spec fn cisco_fold(ls: Seq<Seq<char>>, n: nat) -> Result<(Seq<NodeModel>, Option<NodeModel>), SliceError>
    decreases n,
{
    if n == 0 {
        Ok((Seq::empty(), None))
    } else {
        match cisco_fold(ls, (n - 1) as nat) {
            Err(e) => Err(e),
            Ok(st) => {
                let line = ls[n - 1];
                if !significant(line, '!') {
                    Ok(st)
                } else {
                    match cisco_line(trim(line)) {
                        Err(e) => Err(e),
                        Ok(m) => {
                            if at_margin(line) {
                                Ok(
                                    (
                                        match st.1 {
                                            Some(c) => st.0.push(c),
                                            None => st.0,
                                        },
                                        Some(((m, n), Seq::empty())),
                                    ),
                                )
                            } else {
                                Ok(
                                    (
                                        st.0,
                                        match st.1 {
                                            Some(c) => Some((c.0, c.1.push((m, n)))),
                                            None => None,
                                        },
                                    ),
                                )
                            }
                        },
                    }
                }
            },
        }
    }
}

/// The top-level nodes of a Cisco configuration.
pub open spec fn cisco_nodes(config: Seq<char>) -> Result<Seq<NodeModel>, SliceError> {
    match cisco_fold(lines(config), lines(config).len()) {
        Err(e) => Err(e),
        Ok(st) => Ok(
            match st.1 {
                Some(c) => st.0.push(c),
                None => st.0,
            },
        ),
    }
}

/// A Cisco line is valid when it starts with a known command word.
pub open spec fn valid_cisco_line(t: Seq<char>) -> bool {
    starts_with(t, "interface"@) || starts_with(t, "router"@) || starts_with(t, "vlan"@) || starts_with(t, "ip"@)
        || starts_with(t, "no"@) || starts_with(t, "shutdown"@) || starts_with(t, "description"@) || starts_with(
        t,
        "switchport"@,
    ) || starts_with(t, "access-list"@) || starts_with(t, "hostname"@) || starts_with(t, "enable"@) || starts_with(
        t,
        "line"@,
    ) || starts_with(t, "username"@) || starts_with(t, " "@)
}

/// The syntax errors of the first `n` lines: message and line number.
pub open spec fn cisco_syntax_errors(ls: Seq<Seq<char>>, n: nat) -> Seq<(Seq<char>, nat)>
    decreases n,
{
    if n == 0 {
        Seq::empty()
    } else {
        let prev = cisco_syntax_errors(ls, (n - 1) as nat);
        let line = ls[n - 1];
        if significant(line, '!') && !valid_cisco_line(trim(line)) {
            prev.push(("Invalid Cisco configuration syntax: "@ + trim(line), n))
        } else {
            prev
        }
    }
}

/// What a slice's path says of its context.
pub open spec fn path_context(path: Seq<char>) -> Seq<char> {
    if starts_with(path, "interface."@) {
        "interface"@
    } else if starts_with(path, "router."@) {
        "routing"@
    } else if starts_with(path, "vlan."@) {
        "vlan"@
    } else {
        "global"@
    }
}

fn group_text(g: &Vec<Option<String>>, k: usize) -> (r: Option<String>)
    ensures
        opt_view(r) == group(groups_view(g@), k as int),
{
    if k < g.len() {
        match &g[k] {
            Some(s) => Some(s.clone()),
            None => None,
        }
    } else {
        None
    }
}

fn string_of(v: &Vec<char>) -> (s: String)
    ensures
        s@ == v@,
{
    chars_to_string(v.as_slice())
}

/// The two strings one after the other.
pub fn cat2(a: &str, b: &str) -> (s: String)
    ensures
        s@ == a@ + b@,
{
    let mut v: Vec<char> = Vec::new();
    push_str(&mut v, a);
    push_str(&mut v, b);
    chars_to_string(v.as_slice())
}

/// The four strings one after the other.
pub fn cat4(a: &str, b: &str, c: &str, d: &str) -> (s: String)
    ensures
        s@ == a@ + b@ + c@ + d@,
{
    let mut v: Vec<char> = Vec::new();
    push_str(&mut v, a);
    push_str(&mut v, b);
    push_str(&mut v, c);
    push_str(&mut v, d);
    chars_to_string(v.as_slice())
}

fn replace_blanks(s: &str) -> (r: Vec<char>)
    ensures
        r@ == replace_all(s@, " "@, "_"@),
{
    let cs = str_to_chars(s);
    let sp: [char; 1] = [' '];
    let us: [char; 1] = ['_'];
    proof {
        reveal_strlit(" ");
        reveal_strlit("_");
        assert(sp@ =~= " "@);
        assert(us@ =~= "_"@);
    }
    replace_exec(cs.as_slice(), &sp, &us)
}

/// A line read as its first word and the remaining words.
fn word_line_exec(t: &[char], line_number: usize) -> (r: Result<ConfigNode, SliceError>)
    ensures
        match r {
            Ok(n) => word_line(t@) == Ok::<LineModel, SliceError>(n.line_model().0) && n.line_number == line_number && n.is_flat(),
            Err(e) => word_line(t@) == Err::<LineModel, SliceError>(e),
        },
{
    let parts = split_whitespace_exec(t);
    let ghost pv = parts@.map_values(|l: Vec<char>| l@);
    proof {
        reveal_strlit(" ");
    }
    if parts.len() == 0 {
        return Err(SliceError::EmptyLine);
    }
    let name = string_of(&parts[0]);
    let value = if parts.len() > 1 {
        let mut rest: Vec<Vec<char>> = Vec::new();
        let mut i: usize = 1;
        while i < parts.len()
            invariant
                1 <= i <= parts@.len(),
                pv == parts@.map_values(|l: Vec<char>| l@),
                rest@.map_values(|l: Vec<char>| l@) == pv.subrange(1, i as int),
            decreases parts.len() - i,
        {
            let mut c: Vec<char> = Vec::new();
            push_all(&mut c, parts[i].as_slice());
            assert(c@ =~= pv[i as int]);
            let ghost before = rest@;
            rest.push(c);
            proof {
                assert(rest@.map_values(|l: Vec<char>| l@) =~= before.map_values(|l: Vec<char>| l@).push(c@));
                assert(pv.subrange(1, i + 1) =~= pv.subrange(1, i as int).push(pv[i as int]));
            }
            i = i + 1;
        }
        let sp: [char; 1] = [' '];
        proof {
            reveal_strlit(" ");
            assert(sp@ =~= " "@);
            assert(pv.subrange(1, i as int) =~= pv.skip(1));
        }
        let joined = join_exec(&rest, &sp);
        Some(chars_to_string(joined.as_slice()))
    } else {
        None
    };
    let path = string_of(&parts[0]);
    Ok(ConfigNode { name, value, children: Vec::new(), line_number, node_type: ConfigType::Leaf, path })
}

// ---------------------------------------------------------------------------
// Parsers
// ---------------------------------------------------------------------------

/// Cisco IOS/IOS-XE configuration parser
#[derive(Debug, Clone, Copy, PartialEq, Eq, Structural)]
pub struct CiscoParser {}

impl CiscoParser {
    pub fn new() -> Self {
        CiscoParser {}
    }

    /// Get the vendor name this parser handles
    pub fn vendor(&self) -> (s: &'static str)
        ensures
            s@ == "cisco"@,
    {
        "cisco"
    }

    /// Read one trimmed configuration line.
    pub fn parse_cisco_line(&self, line: &str, line_number: usize) -> (r: Result<ConfigNode, SliceError>)
        ensures
            match r {
                Ok(n) => cisco_line(line@) == Ok::<LineModel, SliceError>(n.line_model().0) && n.line_number == line_number
                    && n.is_flat(),
                Err(e) => cisco_line(line@) == Err::<LineModel, SliceError>(e),
            },
    {
        match regex_first_captures("^interface\\s+(.+)$", line) {
            None => {
                return Err(SliceError::Pattern(CiscoPattern::Interface));
            },
            Some(Some(g)) => {
                return match group_text(&g, 1) {
                    Some(n) => {
                        let under = replace_blanks(n.as_str());
                        let us = string_of(&under);
                        let low = to_lowercase_str(us.as_str());
                        let path = cat2("interface.", low.as_str());
                        proof {
                            assert(path@ =~= "interface."@ + lowercase(replace_all(n@, " "@, "_"@)));
                        }
                        Ok(ConfigNode {
                            name: "interface".to_string(),
                            value: Some(n),
                            children: Vec::new(),
                            line_number,
                            node_type: ConfigType::Container,
                            path,
                        })
                    },
                    None => Err(SliceError::Pattern(CiscoPattern::Interface)),
                };
            },
            Some(None) => {},
        }
        match regex_first_captures("^router\\s+(\\w+)(?:\\s+(.+))?$", line) {
            None => {
                return Err(SliceError::Pattern(CiscoPattern::Router));
            },
            Some(Some(g)) => {
                return match group_text(&g, 1) {
                    Some(p) => {
                        let inst = match group_text(&g, 2) {
                            Some(i) => i,
                            None => String::new(),
                        };
                        let v = cat4(p.as_str(), " ", inst.as_str(), "");
                        let vc = str_to_chars(v.as_str());
                        let tv = trim_chars(vc.as_slice());
                        let under = replace_blanks(inst.as_str());
                        let us = string_of(&under);
                        let path = cat4("router.", p.as_str(), ".", us.as_str());
                        proof {
                            reveal_strlit("");
                            assert(v@ =~= p@ + " "@ + inst@);
                            assert(path@ =~= "router."@ + p@ + "."@ + replace_all(inst@, " "@, "_"@));
                        }
                        Ok(ConfigNode {
                            name: "router".to_string(),
                            value: Some(string_of(&tv)),
                            children: Vec::new(),
                            line_number,
                            node_type: ConfigType::Container,
                            path,
                        })
                    },
                    None => Err(SliceError::Pattern(CiscoPattern::Router)),
                };
            },
            Some(None) => {},
        }
        match regex_first_captures("^vlan\\s+(\\d+)$", line) {
            None => {
                return Err(SliceError::Pattern(CiscoPattern::Vlan));
            },
            Some(Some(g)) => {
                return match group_text(&g, 1) {
                    Some(v) => {
                        let path = cat2("vlan.", v.as_str());
                        proof {
                            assert(path@ =~= "vlan."@ + v@);
                        }
                        Ok(ConfigNode {
                            name: "vlan".to_string(),
                            value: Some(v),
                            children: Vec::new(),
                            line_number,
                            node_type: ConfigType::Container,
                            path,
                        })
                    },
                    None => Err(SliceError::Pattern(CiscoPattern::Vlan)),
                };
            },
            Some(None) => {},
        }
        let cs = str_to_chars(line);
        word_line_exec(cs.as_slice(), line_number)
    }
}


fn starts_with_str(t: &[char], p: &str) -> (b: bool)
    ensures
        b == starts_with(t@, p@),
{
    let pc = str_to_chars(p);
    starts_with_exec(t, pc.as_slice())
}

fn is_valid_cisco_line(t: &[char]) -> (b: bool)
    ensures
        b == valid_cisco_line(t@),
{
    starts_with_str(t, "interface") || starts_with_str(t, "router") || starts_with_str(t, "vlan") || starts_with_str(t, "ip")
        || starts_with_str(t, "no") || starts_with_str(t, "shutdown") || starts_with_str(t, "description")
        || starts_with_str(t, "switchport") || starts_with_str(t, "access-list") || starts_with_str(t, "hostname")
        || starts_with_str(t, "enable") || starts_with_str(t, "line") || starts_with_str(t, "username")
        || starts_with_str(t, " ")
}

pub open spec fn opt_node_model(c: Option<ConfigNode>) -> Option<NodeModel> {
    match c {
        Some(n) => Some(n.node_model()),
        None => None,
    }
}

pub open spec fn flat_children(n: ConfigNode) -> bool {
    forall|j: int| 0 <= j < n.children@.len() ==> (#[trigger] n.children@[j]).is_flat()
}

proof fn lemma_cisco_fold_err(ls: Seq<Seq<char>>, k: nat, n: nat)
    requires
        k <= n,
        cisco_fold(ls, k) is Err,
    ensures
        cisco_fold(ls, n) == cisco_fold(ls, k),
    decreases n - k,
{
    if k < n {
        lemma_cisco_fold_err(ls, k, (n - 1) as nat);
    }
}

/// The lines nested under each top node follow it; the top nodes come in
/// order.
pub open spec fn preorder(ns: Seq<NodeModel>) -> Seq<NumberedLine>
    decreases ns.len(),
{
    if ns.len() == 0 {
        Seq::empty()
    } else {
        preorder(ns.drop_last()) + seq![ns.last().0] + ns.last().1
    }
}

/// The first line whose path is `p`.
pub open spec fn first_with_path(s: Seq<NumberedLine>, p: Seq<char>) -> Option<NumberedLine>
    decreases s.len(),
{
    if s.len() == 0 {
        None
    } else if s[0].0.3 == p {
        Some(s[0])
    } else {
        first_with_path(s.drop_first(), p)
    }
}

/// Path, content, line range, vendor, context, type and attributes of a slice.
pub type SliceModel = (Seq<char>, Seq<char>, (nat, nat), Seq<char>, Seq<char>, ConfigType, Seq<(Seq<char>, Seq<char>)>);

impl ConfigSlice {
    pub open spec fn model(self) -> SliceModel {
        (
            self.path@,
            self.content@,
            (self.line_range.0 as nat, self.line_range.1 as nat),
            self.metadata.vendor@,
            self.metadata.context@,
            self.metadata.config_type,
            self.metadata.attributes@.map_values(|a: (String, String)| (a.0@, a.1@)),
        )
    }
}

/// The slice that a node found at path `p` gives: its own line of the
/// configuration.
pub open spec fn slice_of_line(config: Seq<char>, p: Seq<char>, n: NumberedLine, vendor: Seq<char>, context: Seq<char>) -> Result<
    Option<SliceModel>,
    SliceError,
> {
    if n.1 == 0 || n.1 > lines(config).len() {
        Err(SliceError::InvalidLineNumber(n.1 as usize))
    } else {
        Ok(Some((p, lines(config)[n.1 - 1], (n.1, n.1), vendor, context, n.0.2, Seq::empty())))
    }
}

/// The slice of a Cisco configuration at a path.
pub open spec fn cisco_slice(config: Seq<char>, p: Seq<char>) -> Result<Option<SliceModel>, SliceError> {
    match cisco_nodes(config) {
        Err(e) => Err(e),
        Ok(ns) => match first_with_path(preorder(ns), p) {
            None => Ok(None),
            Some(n) => slice_of_line(config, p, n, "cisco"@, path_context(p)),
        },
    }
}

/// The nodes of a generic configuration: one per line that is neither
/// blank nor a `#` comment.
pub open spec fn generic_fold(ls: Seq<Seq<char>>, n: nat) -> Seq<NodeModel>
    decreases n,
{
    if n == 0 {
        Seq::empty()
    } else {
        let prev = generic_fold(ls, (n - 1) as nat);
        let line = ls[n - 1];
        if significant(line, '#') && word_line(trim(line)) is Ok {
            prev.push(((word_line(trim(line))->Ok_0, n), Seq::empty()))
        } else {
            prev
        }
    }
}

pub open spec fn generic_nodes(config: Seq<char>) -> Seq<NodeModel> {
    generic_fold(lines(config), lines(config).len())
}

/// The first top node whose path is `p`.
pub open spec fn first_top_with_path(ns: Seq<NodeModel>, p: Seq<char>) -> Option<NumberedLine>
    decreases ns.len(),
{
    if ns.len() == 0 {
        None
    } else if ns[0].0.0.3 == p {
        Some(ns[0].0)
    } else {
        first_top_with_path(ns.drop_first(), p)
    }
}

/// The slice of a generic configuration at a path.
pub open spec fn generic_slice(config: Seq<char>, p: Seq<char>) -> Result<Option<SliceModel>, SliceError> {
    match first_top_with_path(generic_nodes(config), p) {
        None => Ok(None),
        Some(n) => slice_of_line(config, p, n, "generic"@, "global"@),
    }
}

fn config_lines(config: &str) -> (ls: Vec<Vec<char>>)
    ensures
        ls@.map_values(|l: Vec<char>| l@) == lines(config@),
{
    let cs = str_to_chars(config);
    lines_exec(cs.as_slice())
}

fn at_margin_exec(line: &[char]) -> (b: bool)
    ensures
        b == at_margin(line@),
{
    line.len() == 0 || !crate::text::char_is_ws(line[0])
}

fn path_context_exec(path: &str) -> (s: String)
    ensures
        s@ == path_context(path@),
{
    let pc = str_to_chars(path);
    if starts_with_str(pc.as_slice(), "interface.") {
        "interface".to_string()
    } else if starts_with_str(pc.as_slice(), "router.") {
        "routing".to_string()
    } else if starts_with_str(pc.as_slice(), "vlan.") {
        "vlan".to_string()
    } else {
        "global".to_string()
    }
}

/// The slice for a node: its line of the configuration.
fn slice_for(config: &str, path: &str, node: &ConfigNode, vendor: &str, context: String) -> (r: Result<Option<ConfigSlice>, SliceError>)
    ensures
        match r {
            Ok(Some(sl)) => slice_of_line(config@, path@, node.line_model(), vendor@, context@) == Ok::<Option<SliceModel>, SliceError>(Some(sl.model())),
            Ok(None) => false,
            Err(e) => slice_of_line(config@, path@, node.line_model(), vendor@, context@) == Err::<Option<SliceModel>, SliceError>(e),
        },
{
    let ls = config_lines(config);
    let ghost lv = ls@.map_values(|l: Vec<char>| l@);
    if node.line_number == 0 || node.line_number > ls.len() {
        return Err(SliceError::InvalidLineNumber(node.line_number));
    }
    assert(lv[node.line_number - 1] == ls@[node.line_number - 1]@);
    let content = string_of(&ls[node.line_number - 1]);
    let sl = ConfigSlice {
        path: path.to_string(),
        content,
        line_range: (node.line_number, node.line_number),
        metadata: SliceMetadata { vendor: vendor.to_string(), context, config_type: node.node_type, attributes: Vec::new() },
    };
    assert(sl.metadata.attributes@.map_values(|a: (String, String)| (a.0@, a.1@)) =~= Seq::<(Seq<char>, Seq<char>)>::empty());
    Ok(Some(sl))
}

impl CiscoParser {
    /// Parse a configuration into top-level nodes, each with the indented
    /// lines that follow it as children; blank lines and `!` comments are
    /// skipped, and an indented line before any top-level one is dropped.
    pub fn parse(&self, config: &str) -> (r: Result<ConfigTree, SliceError>)
        ensures
            match r {
                Ok(t) => cisco_nodes(config@) == Ok::<Seq<NodeModel>, SliceError>(t.nodes_model()) && t.shallow()
                    && t.line_count == lines(config@).len(),
                Err(e) => cisco_nodes(config@) == Err::<Seq<NodeModel>, SliceError>(e),
            },
    {
        let ls = config_lines(config);
        let ghost lv = ls@.map_values(|l: Vec<char>| l@);
        let mut nodes: Vec<ConfigNode> = Vec::new();
        let mut cur: Option<ConfigNode> = None;
        let mut i: usize = 0;
        assert(nodes@.map_values(|n: ConfigNode| n.node_model()) =~= Seq::<NodeModel>::empty());
        while i < ls.len()
            invariant
                i <= ls@.len(),
                lv == ls@.map_values(|l: Vec<char>| l@),
                lv == lines(config@),
                cisco_fold(lv, i as nat) == Ok::<(Seq<NodeModel>, Option<NodeModel>), SliceError>(
                    (nodes@.map_values(|n: ConfigNode| n.node_model()), opt_node_model(cur)),
                ),
                forall|k: int| 0 <= k < nodes@.len() ==> flat_children(#[trigger] nodes@[k]),
                cur matches Some(c) ==> flat_children(c),
            decreases ls.len() - i,
        {
            let line = &ls[i];
            assert(lv[i as int] == line@);
            let t = trim_chars(line.as_slice());
            if t.len() == 0 || t[0] == '!' {
                i = i + 1;
                continue;
            }
            let ts = string_of(&t);
            let node = match self.parse_cisco_line(ts.as_str(), i + 1) {
                Ok(n) => n,
                Err(e) => {
                    proof {
                        lemma_cisco_fold_err(lv, (i + 1) as nat, lv.len());
                    }
                    return Err(e);
                },
            };
            let ghost before = nodes@.map_values(|n: ConfigNode| n.node_model());
            if at_margin_exec(line.as_slice()) {
                cur = match cur {
                    Some(c) => {
                        nodes.push(c);
                        proof {
                            assert(nodes@.map_values(|n: ConfigNode| n.node_model()) =~= before.push(c.node_model()));
                        }
                        Some(node)
                    },
                    None => Some(node),
                };
                proof {
                    assert(node.children@.map_values(|c: ConfigNode| c.line_model()) =~= Seq::<NumberedLine>::empty());
                }
            } else {
                cur = match cur {
                    Some(c) => {
                        let mut c = c;
                        let ghost cb = c.children@;
                        c.children.push(node);
                        proof {
                            assert(c.children@.map_values(|x: ConfigNode| x.line_model()) =~= cb.map_values(|x: ConfigNode| x.line_model()).push(node.line_model()));
                        }
                        Some(c)
                    },
                    None => None,
                };
            }
            i = i + 1;
        }
        let ghost before = nodes@.map_values(|n: ConfigNode| n.node_model());
        match cur {
            Some(c) => {
                nodes.push(c);
                proof {
                    assert(nodes@.map_values(|n: ConfigNode| n.node_model()) =~= before.push(c.node_model()));
                }
            },
            None => {},
        }
        Ok(ConfigTree { nodes, line_count: ls.len() })
    }

    /// Validate configuration syntax: each line that is neither blank nor a
    /// `!` comment must start with a known command word.
    pub fn validate_syntax(&self, config: &str) -> (r: ValidationResult)
        ensures
            r.errors@.map_values(|e: ValidationError| (e.message@, e.line_number as nat)) == cisco_syntax_errors(
                lines(config@),
                lines(config@).len(),
            ),
            forall|k: int| 0 <= k < r.errors@.len() ==> (#[trigger] r.errors@[k]).severity == ErrorSeverity::Error,
            r.is_valid == (r.errors@.len() == 0),
            r.warnings@.len() == 0,
    {
        let ls = config_lines(config);
        let ghost lv = ls@.map_values(|l: Vec<char>| l@);
        let mut errors: Vec<ValidationError> = Vec::new();
        let mut i: usize = 0;
        while i < ls.len()
            invariant
                i <= ls@.len(),
                lv == ls@.map_values(|l: Vec<char>| l@),
                errors@.map_values(|e: ValidationError| (e.message@, e.line_number as nat)) == cisco_syntax_errors(lv, i as nat),
                forall|k: int| 0 <= k < errors@.len() ==> (#[trigger] errors@[k]).severity == ErrorSeverity::Error,
            decreases ls.len() - i,
        {
            let line = &ls[i];
            assert(lv[i as int] == line@);
            let t = trim_chars(line.as_slice());
            if t.len() > 0 && t[0] != '!' && !is_valid_cisco_line(t.as_slice()) {
                let ts = string_of(&t);
                let message = cat2("Invalid Cisco configuration syntax: ", ts.as_str());
                let ghost before = errors@.map_values(|e: ValidationError| (e.message@, e.line_number as nat));
                errors.push(ValidationError { message, line_number: i + 1, severity: ErrorSeverity::Error });
                proof {
                    assert(errors@.map_values(|e: ValidationError| (e.message@, e.line_number as nat)) =~= before.push(
                        (message@, (i + 1) as nat),
                    ));
                }
            }
            i = i + 1;
        }
        let is_valid = errors.len() == 0;
        ValidationResult { is_valid, errors, warnings: Vec::new() }
    }

    /// Extract the slice at a path: the line of the first node, in tree
    /// order, with that path.
    pub fn extract_slice(&self, config: &str, path: &str) -> (r: Result<Option<ConfigSlice>, SliceError>)
        ensures
            match r {
                Ok(Some(sl)) => cisco_slice(config@, path@) == Ok::<Option<SliceModel>, SliceError>(Some(sl.model())),
                Ok(None) => cisco_slice(config@, path@) == Ok::<Option<SliceModel>, SliceError>(None),
                Err(e) => cisco_slice(config@, path@) == Err::<Option<SliceModel>, SliceError>(e),
            },
    {
        let tree = match self.parse(config) {
            Ok(t) => t,
            Err(e) => {
                return Err(e);
            },
        };
        let ghost ns = tree.nodes_model();
        let ps = path.to_string();
        let mut i: usize = 0;
        while i < tree.nodes.len()
            invariant
                i <= tree.nodes@.len(),
                ns == tree.nodes_model(),
                cisco_nodes(config@) == Ok::<Seq<NodeModel>, SliceError>(ns),
                ps@ == path@,
                tree.shallow(),
                first_with_path(preorder(ns), path@) == first_with_path(preorder(ns.skip(i as int)), path@) || true,
                forall|k: int| 0 <= k < preorder(ns.take(i as int)).len() ==> (#[trigger] preorder(ns.take(i as int))[k]).0.3 != path@,
            decreases tree.nodes.len() - i,
        {
            let node = &tree.nodes[i];
            let ghost pre = preorder(ns.take(i as int));
            let ghost q = preorder(ns.take(i + 1));
            proof {
                assert(ns.take(i + 1).drop_last() =~= ns.take(i as int));
                assert(ns[i as int] == node.node_model());
                assert(ns.take(i + 1).last() == node.node_model());
                assert(q =~= pre + seq![node.line_model()] + node.children@.map_values(|c: ConfigNode| c.line_model()));
            }
            if node.path == ps {
                proof {
                    assert(q[pre.len() as int] == node.line_model());
                    lemma_first_after_prefix(preorder(ns.take(i + 1)), pre.len() as int, path@);
                    lemma_preorder_prefix(ns, i + 1);
                    lemma_first_in_prefix(preorder(ns.take(i + 1)), preorder(ns), path@);
                }
                let ctx = path_context_exec(path);
                return slice_for(config, path, node, "cisco", ctx);
            }
            let mut j: usize = 0;
            while j < node.children.len()
                invariant
                    j <= node.children@.len(),
                    ps@ == path@,
                    node.path@ != path@,
                    forall|k: int| 0 <= k < pre.len() ==> (#[trigger] pre[k]).0.3 != path@,
                    forall|k: int| 0 <= k < j ==> (#[trigger] node.children@[k]).path@ != path@,
                    ns == tree.nodes_model(),
                    cisco_nodes(config@) == Ok::<Seq<NodeModel>, SliceError>(ns),
                    i < ns.len(),
                    q == preorder(ns.take(i + 1)),
                    q == pre + seq![node.line_model()] + node.children@.map_values(|c: ConfigNode| c.line_model()),
                decreases node.children.len() - j,
            {
                let child = &node.children[j];
                if child.path == ps {
                    proof {
                        assert forall|k: int| 0 <= k < pre.len() + 1 + j implies (#[trigger] q[k]).0.3 != path@ by {
                            if k >= pre.len() + 1 {
                                assert(q[k] == node.children@[k - pre.len() - 1].line_model());
                            }
                        }
                        assert(q[pre.len() + 1 + j] == child.line_model());
                        lemma_first_after_prefix(q, pre.len() + 1 + j, path@);
                        lemma_preorder_prefix(ns, i + 1);
                        lemma_first_in_prefix(q, preorder(ns), path@);
                    }
                    let ctx = path_context_exec(path);
                    return slice_for(config, path, child, "cisco", ctx);
                }
                j = j + 1;
            }
            proof {
                assert forall|k: int| 0 <= k < q.len() implies (#[trigger] q[k]).0.3 != path@ by {
                    if k >= pre.len() + 1 {
                        assert(q[k] == node.children@[k - pre.len() - 1].line_model());
                    }
                }
            }
            i = i + 1;
        }
        proof {
            assert(ns.take(i as int) =~= ns);
            lemma_first_none(preorder(ns), path@);
        }
        Ok(None)
    }
}

proof fn lemma_first_after_prefix(s: Seq<NumberedLine>, k: int, p: Seq<char>)
    requires
        0 <= k < s.len(),
        s[k].0.3 == p,
        forall|j: int| 0 <= j < k ==> (#[trigger] s[j]).0.3 != p,
    ensures
        first_with_path(s, p) == Some(s[k]),
    decreases k,
{
    if k > 0 {
        assert forall|j: int| 0 <= j < k - 1 implies (#[trigger] s.drop_first()[j]).0.3 != p by {
            assert(s.drop_first()[j] == s[j + 1]);
        }
        lemma_first_after_prefix(s.drop_first(), k - 1, p);
    }
}

proof fn lemma_first_in_prefix(a: Seq<NumberedLine>, b: Seq<NumberedLine>, p: Seq<char>)
    requires
        a.len() <= b.len(),
        a == b.take(a.len() as int),
        first_with_path(a, p) is Some,
    ensures
        first_with_path(b, p) == first_with_path(a, p),
    decreases a.len(),
{
    if a.len() > 0 && a[0].0.3 != p {
        assert(a.drop_first() =~= b.drop_first().take(a.len() - 1));
        lemma_first_in_prefix(a.drop_first(), b.drop_first(), p);
    }
}

proof fn lemma_first_none(s: Seq<NumberedLine>, p: Seq<char>)
    requires
        forall|k: int| 0 <= k < s.len() ==> (#[trigger] s[k]).0.3 != p,
    ensures
        first_with_path(s, p) is None,
    decreases s.len(),
{
    if s.len() > 0 {
        assert forall|k: int| 0 <= k < s.len() - 1 implies (#[trigger] s.drop_first()[k]).0.3 != p by {
            assert(s.drop_first()[k] == s[k + 1]);
        }
        lemma_first_none(s.drop_first(), p);
    }
}

proof fn lemma_preorder_prefix(ns: Seq<NodeModel>, i: int)
    requires
        0 <= i <= ns.len(),
    ensures
        preorder(ns.take(i)) == preorder(ns).take(preorder(ns.take(i)).len() as int),
        preorder(ns.take(i)).len() <= preorder(ns).len(),
    decreases ns.len() - i,
{
    if i < ns.len() {
        lemma_preorder_prefix(ns, i + 1);
        assert(ns.take(i + 1).drop_last() =~= ns.take(i));
        let a = preorder(ns.take(i));
        let b = preorder(ns.take(i + 1));
        assert(b == a + seq![ns[i].0] + ns[i].1);
        assert(a =~= b.take(a.len() as int));
        assert(a =~= preorder(ns).take(a.len() as int));
    } else {
        assert(ns.take(i) =~= ns);
    }
}


/// Generic line-based configuration parser
#[derive(Debug, Clone, Copy, PartialEq, Eq, Structural)]
pub struct GenericParser {}

impl GenericParser {
    pub fn new() -> Self {
        GenericParser {}
    }

    /// Get the vendor name this parser handles
    pub fn vendor(&self) -> (s: &'static str)
        ensures
            s@ == "generic"@,
    {
        "generic"
    }

    /// One leaf node per line that is neither blank nor a `#` comment.
    pub fn parse(&self, config: &str) -> (t: ConfigTree)
        ensures
            t.nodes_model() == generic_nodes(config@),
            t.shallow(),
            t.line_count == lines(config@).len(),
    {
        let ls = config_lines(config);
        let ghost lv = ls@.map_values(|l: Vec<char>| l@);
        let mut nodes: Vec<ConfigNode> = Vec::new();
        let mut i: usize = 0;
        assert(nodes@.map_values(|n: ConfigNode| n.node_model()) =~= Seq::<NodeModel>::empty());
        while i < ls.len()
            invariant
                i <= ls@.len(),
                lv == ls@.map_values(|l: Vec<char>| l@),
                nodes@.map_values(|n: ConfigNode| n.node_model()) == generic_fold(lv, i as nat),
                forall|k: int| 0 <= k < nodes@.len() ==> (#[trigger] nodes@[k]).is_flat(),
            decreases ls.len() - i,
        {
            let line = &ls[i];
            assert(lv[i as int] == line@);
            let t = trim_chars(line.as_slice());
            if t.len() > 0 && t[0] != '#' {
                match word_line_exec(t.as_slice(), i + 1) {
                    Ok(node) => {
                        let ghost before = nodes@.map_values(|n: ConfigNode| n.node_model());
                        nodes.push(node);
                        proof {
                            assert(node.children@.map_values(|c: ConfigNode| c.line_model()) =~= Seq::<NumberedLine>::empty());
                            assert(nodes@.map_values(|n: ConfigNode| n.node_model()) =~= before.push(node.node_model()));
                        }
                    },
                    Err(_) => {},
                }
            }
            i = i + 1;
        }
        let line_count = ls.len();
        ConfigTree { nodes, line_count }
    }

    /// Extract the slice at a path: the line of the first node with it.
    pub fn extract_slice(&self, config: &str, path: &str) -> (r: Result<Option<ConfigSlice>, SliceError>)
        ensures
            match r {
                Ok(Some(sl)) => generic_slice(config@, path@) == Ok::<Option<SliceModel>, SliceError>(Some(sl.model())),
                Ok(None) => generic_slice(config@, path@) == Ok::<Option<SliceModel>, SliceError>(None),
                Err(e) => generic_slice(config@, path@) == Err::<Option<SliceModel>, SliceError>(e),
            },
    {
        let tree = self.parse(config);
        let ghost ns = tree.nodes_model();
        let ps = path.to_string();
        let mut i: usize = 0;
        assert(ns.skip(0) =~= ns);
        while i < tree.nodes.len()
            invariant
                i <= tree.nodes@.len(),
                ns == tree.nodes_model(),
                ns == generic_nodes(config@),
                ps@ == path@,
                first_top_with_path(ns, path@) == first_top_with_path(ns.skip(i as int), path@),
            decreases tree.nodes.len() - i,
        {
            let node = &tree.nodes[i];
            proof {
                assert(ns.skip(i as int)[0] == node.node_model());
                assert(ns.skip(i as int).drop_first() =~= ns.skip(i + 1));
            }
            if node.path == ps {
                return slice_for(config, path, node, "generic", "global".to_string());
            }
            i = i + 1;
        }
        Ok(None)
    }

    /// Validate configuration syntax: every configuration is accepted.
    pub fn validate_syntax(&self, config: &str) -> (r: ValidationResult)
        ensures
            r.is_valid,
            r.errors@.len() == 0,
            r.warnings@.len() == 0,
    {
        ValidationResult { is_valid: true, errors: Vec::new(), warnings: Vec::new() }
    }
}

/// Juniper JunOS configuration parser; it reads no structure yet.
#[derive(Debug, Clone, Copy, PartialEq, Eq, Structural)]
pub struct JuniperParser {}

impl JuniperParser {
    pub fn new() -> Self {
        JuniperParser {}
    }

    pub fn vendor(&self) -> (s: &'static str)
        ensures
            s@ == "juniper"@,
    {
        "juniper"
    }

    /// An empty tree.
    pub fn parse(&self, config: &str) -> (t: ConfigTree)
        ensures
            t.nodes@.len() == 0,
            t.line_count == 0,
    {
        ConfigTree { nodes: Vec::new(), line_count: 0 }
    }

    /// No slice is found.
    pub fn extract_slice(&self, config: &str, path: &str) -> (r: Result<Option<ConfigSlice>, SliceError>)
        ensures
            r matches Ok(None),
    {
        Ok(None)
    }

    /// Every configuration is accepted.
    pub fn validate_syntax(&self, config: &str) -> (r: ValidationResult)
        ensures
            r.is_valid,
            r.errors@.len() == 0,
            r.warnings@.len() == 0,
    {
        ValidationResult { is_valid: true, errors: Vec::new(), warnings: Vec::new() }
    }
}

/// Arista EOS configuration parser; it reads no structure yet.
#[derive(Debug, Clone, Copy, PartialEq, Eq, Structural)]
pub struct AristaParser {}

impl AristaParser {
    pub fn new() -> Self {
        AristaParser {}
    }

    pub fn vendor(&self) -> (s: &'static str)
        ensures
            s@ == "arista"@,
    {
        "arista"
    }

    /// An empty tree.
    pub fn parse(&self, config: &str) -> (t: ConfigTree)
        ensures
            t.nodes@.len() == 0,
            t.line_count == 0,
    {
        ConfigTree { nodes: Vec::new(), line_count: 0 }
    }

    /// No slice is found.
    pub fn extract_slice(&self, config: &str, path: &str) -> (r: Result<Option<ConfigSlice>, SliceError>)
        ensures
            r matches Ok(None),
    {
        Ok(None)
    }

    /// Every configuration is accepted.
    pub fn validate_syntax(&self, config: &str) -> (r: ValidationResult)
        ensures
            r.is_valid,
            r.errors@.len() == 0,
            r.warnings@.len() == 0,
    {
        ValidationResult { is_valid: true, errors: Vec::new(), warnings: Vec::new() }
    }
}

/// A vendor-specific configuration parser.
#[derive(Debug, Clone, Copy, PartialEq, Eq, Structural)]
pub enum VendorParser {
    Cisco(CiscoParser),
    Juniper(JuniperParser),
    Arista(AristaParser),
    Generic(GenericParser),
}

/// The vendor a parser handles.
pub open spec fn parser_vendor(p: VendorParser) -> Seq<char> {
    match p {
        VendorParser::Cisco(_) => "cisco"@,
        VendorParser::Juniper(_) => "juniper"@,
        VendorParser::Arista(_) => "arista"@,
        VendorParser::Generic(_) => "generic"@,
    }
}

/// The top nodes a parser reads from a configuration.
pub open spec fn parser_nodes(p: VendorParser, config: Seq<char>) -> Result<Seq<NodeModel>, SliceError> {
    match p {
        VendorParser::Cisco(_) => cisco_nodes(config),
        VendorParser::Generic(_) => Ok(generic_nodes(config)),
        _ => Ok(Seq::empty()),
    }
}

/// The slice a parser extracts at a path.
pub open spec fn parser_slice(p: VendorParser, config: Seq<char>, path: Seq<char>) -> Result<Option<SliceModel>, SliceError> {
    match p {
        VendorParser::Cisco(_) => cisco_slice(config, path),
        VendorParser::Generic(_) => generic_slice(config, path),
        _ => Ok(None),
    }
}

impl VendorParser {
    /// Get the vendor name this parser handles
    pub fn vendor(&self) -> (s: &'static str)
        ensures
            s@ == parser_vendor(*self),
    {
        match self {
            VendorParser::Cisco(p) => p.vendor(),
            VendorParser::Juniper(p) => p.vendor(),
            VendorParser::Arista(p) => p.vendor(),
            VendorParser::Generic(p) => p.vendor(),
        }
    }

    /// Parse a configuration string and extract hierarchical structure
    pub fn parse(&self, config: &str) -> (r: Result<ConfigTree, SliceError>)
        ensures
            match r {
                Ok(t) => parser_nodes(*self, config@) == Ok::<Seq<NodeModel>, SliceError>(t.nodes_model()) && t.shallow(),
                Err(e) => parser_nodes(*self, config@) == Err::<Seq<NodeModel>, SliceError>(e),
            },
    {
        match self {
            VendorParser::Cisco(p) => p.parse(config),
            VendorParser::Juniper(p) => {
                let t = p.parse(config);
                assert(t.nodes_model() =~= Seq::<NodeModel>::empty());
                Ok(t)
            },
            VendorParser::Arista(p) => {
                let t = p.parse(config);
                assert(t.nodes_model() =~= Seq::<NodeModel>::empty());
                Ok(t)
            },
            VendorParser::Generic(p) => Ok(p.parse(config)),
        }
    }

    /// Extract a specific slice based on a path
    pub fn extract_slice(&self, config: &str, path: &str) -> (r: Result<Option<ConfigSlice>, SliceError>)
        ensures
            match r {
                Ok(Some(sl)) => parser_slice(*self, config@, path@) == Ok::<Option<SliceModel>, SliceError>(Some(sl.model())),
                Ok(None) => parser_slice(*self, config@, path@) == Ok::<Option<SliceModel>, SliceError>(None),
                Err(e) => parser_slice(*self, config@, path@) == Err::<Option<SliceModel>, SliceError>(e),
            },
    {
        match self {
            VendorParser::Cisco(p) => p.extract_slice(config, path),
            VendorParser::Juniper(p) => p.extract_slice(config, path),
            VendorParser::Arista(p) => p.extract_slice(config, path),
            VendorParser::Generic(p) => p.extract_slice(config, path),
        }
    }

    /// Validate configuration syntax
    pub fn validate_syntax(&self, config: &str) -> (r: ValidationResult)
        ensures
            self is Cisco ==> r.errors@.map_values(|e: ValidationError| (e.message@, e.line_number as nat)) == cisco_syntax_errors(
                lines(config@),
                lines(config@).len(),
            ),
            !(self is Cisco) ==> r.errors@.len() == 0,
            r.is_valid == (r.errors@.len() == 0),
            r.warnings@.len() == 0,
    {
        match self {
            VendorParser::Cisco(p) => p.validate_syntax(config),
            VendorParser::Juniper(p) => p.validate_syntax(config),
            VendorParser::Arista(p) => p.validate_syntax(config),
            VendorParser::Generic(p) => p.validate_syntax(config),
        }
    }
}


/// The syntax errors a parser reports: each message with its line number.
pub open spec fn parser_syntax_errors(p: VendorParser, config: Seq<char>) -> Seq<(Seq<char>, nat)> {
    match p {
        VendorParser::Cisco(_) => cisco_syntax_errors(lines(config), lines(config).len()),
        _ => Seq::empty(),
    }
}

/// What a configuration parser does, stated over spec functions that each
/// parser defines: its vendor, the top nodes it reads, the slice it finds
/// at a path, and the syntax errors it reports.
pub trait ConfigParser {
    /// The vendor the parser handles.
    spec fn vendor_name(&self) -> Seq<char>;

    /// The top nodes read from a configuration, or why it cannot be read.
    spec fn nodes_of(&self, config: Seq<char>) -> Result<Seq<NodeModel>, SliceError>;

    /// The slice at a path, if any, or why none can be taken.
    spec fn slice_at(&self, config: Seq<char>, path: Seq<char>) -> Result<Option<SliceModel>, SliceError>;

    /// The syntax errors of a configuration: message and line number.
    spec fn syntax_errors(&self, config: Seq<char>) -> Seq<(Seq<char>, nat)>;

    /// Parse a configuration string and extract hierarchical structure
    fn parse(&self, config: &str) -> (r: Result<ConfigTree, SliceError>)
        ensures
            match r {
                Ok(t) => self.nodes_of(config@) == Ok::<Seq<NodeModel>, SliceError>(t.nodes_model()),
                Err(e) => self.nodes_of(config@) == Err::<Seq<NodeModel>, SliceError>(e),
            },
    ;

    /// Extract a specific slice based on a path
    fn extract_slice(&self, config: &str, path: &str) -> (r: Result<Option<ConfigSlice>, SliceError>)
        ensures
            match r {
                Ok(Some(sl)) => self.slice_at(config@, path@) == Ok::<Option<SliceModel>, SliceError>(Some(sl.model())),
                Ok(None) => self.slice_at(config@, path@) == Ok::<Option<SliceModel>, SliceError>(None),
                Err(e) => self.slice_at(config@, path@) == Err::<Option<SliceModel>, SliceError>(e),
            },
    ;

    /// Get the vendor name this parser handles
    fn vendor(&self) -> (s: &str)
        ensures
            s@ == self.vendor_name(),
    ;

    /// Validate configuration syntax
    fn validate_syntax(&self, config: &str) -> (r: Result<ValidationResult, SliceError>)
        ensures
            r matches Ok(v) ==> {
                &&& v.errors@.map_values(|e: ValidationError| (e.message@, e.line_number as nat)) == self.syntax_errors(
                    config@,
                )
                &&& v.is_valid == (v.errors@.len() == 0)
                &&& v.warnings@.len() == 0
            },
    ;
}

impl ConfigParser for VendorParser {
    open spec fn vendor_name(&self) -> Seq<char> {
        parser_vendor(*self)
    }

    open spec fn nodes_of(&self, config: Seq<char>) -> Result<Seq<NodeModel>, SliceError> {
        parser_nodes(*self, config)
    }

    open spec fn slice_at(&self, config: Seq<char>, path: Seq<char>) -> Result<Option<SliceModel>, SliceError> {
        parser_slice(*self, config, path)
    }

    open spec fn syntax_errors(&self, config: Seq<char>) -> Seq<(Seq<char>, nat)> {
        parser_syntax_errors(*self, config)
    }

    fn parse(&self, config: &str) -> (r: Result<ConfigTree, SliceError>) {
        VendorParser::parse(self, config)
    }

    fn extract_slice(&self, config: &str, path: &str) -> (r: Result<Option<ConfigSlice>, SliceError>) {
        VendorParser::extract_slice(self, config, path)
    }

    fn vendor(&self) -> (s: &str) {
        VendorParser::vendor(self)
    }

    fn validate_syntax(&self, config: &str) -> (r: Result<ValidationResult, SliceError>) {
        let v = VendorParser::validate_syntax(self, config);
        assert(!(*self is Cisco) ==> v.errors@.map_values(|e: ValidationError| (e.message@, e.line_number as nat))
            =~= Seq::<(Seq<char>, nat)>::empty());
        Ok(v)
    }
}

impl ConfigParser for CiscoParser {
    open spec fn vendor_name(&self) -> Seq<char> {
        parser_vendor(VendorParser::Cisco(*self))
    }

    open spec fn nodes_of(&self, config: Seq<char>) -> Result<Seq<NodeModel>, SliceError> {
        parser_nodes(VendorParser::Cisco(*self), config)
    }

    open spec fn slice_at(&self, config: Seq<char>, path: Seq<char>) -> Result<Option<SliceModel>, SliceError> {
        parser_slice(VendorParser::Cisco(*self), config, path)
    }

    open spec fn syntax_errors(&self, config: Seq<char>) -> Seq<(Seq<char>, nat)> {
        parser_syntax_errors(VendorParser::Cisco(*self), config)
    }

    fn parse(&self, config: &str) -> (r: Result<ConfigTree, SliceError>) {
        VendorParser::Cisco(*self).parse(config)
    }

    fn extract_slice(&self, config: &str, path: &str) -> (r: Result<Option<ConfigSlice>, SliceError>) {
        VendorParser::Cisco(*self).extract_slice(config, path)
    }

    fn vendor(&self) -> (s: &str) {
        VendorParser::Cisco(*self).vendor()
    }

    fn validate_syntax(&self, config: &str) -> (r: Result<ValidationResult, SliceError>) {
        ConfigParser::validate_syntax(&VendorParser::Cisco(*self), config)
    }
}

impl ConfigParser for JuniperParser {
    open spec fn vendor_name(&self) -> Seq<char> {
        parser_vendor(VendorParser::Juniper(*self))
    }

    open spec fn nodes_of(&self, config: Seq<char>) -> Result<Seq<NodeModel>, SliceError> {
        parser_nodes(VendorParser::Juniper(*self), config)
    }

    open spec fn slice_at(&self, config: Seq<char>, path: Seq<char>) -> Result<Option<SliceModel>, SliceError> {
        parser_slice(VendorParser::Juniper(*self), config, path)
    }

    open spec fn syntax_errors(&self, config: Seq<char>) -> Seq<(Seq<char>, nat)> {
        parser_syntax_errors(VendorParser::Juniper(*self), config)
    }

    fn parse(&self, config: &str) -> (r: Result<ConfigTree, SliceError>) {
        VendorParser::Juniper(*self).parse(config)
    }

    fn extract_slice(&self, config: &str, path: &str) -> (r: Result<Option<ConfigSlice>, SliceError>) {
        VendorParser::Juniper(*self).extract_slice(config, path)
    }

    fn vendor(&self) -> (s: &str) {
        VendorParser::Juniper(*self).vendor()
    }

    fn validate_syntax(&self, config: &str) -> (r: Result<ValidationResult, SliceError>) {
        ConfigParser::validate_syntax(&VendorParser::Juniper(*self), config)
    }
}

impl ConfigParser for AristaParser {
    open spec fn vendor_name(&self) -> Seq<char> {
        parser_vendor(VendorParser::Arista(*self))
    }

    open spec fn nodes_of(&self, config: Seq<char>) -> Result<Seq<NodeModel>, SliceError> {
        parser_nodes(VendorParser::Arista(*self), config)
    }

    open spec fn slice_at(&self, config: Seq<char>, path: Seq<char>) -> Result<Option<SliceModel>, SliceError> {
        parser_slice(VendorParser::Arista(*self), config, path)
    }

    open spec fn syntax_errors(&self, config: Seq<char>) -> Seq<(Seq<char>, nat)> {
        parser_syntax_errors(VendorParser::Arista(*self), config)
    }

    fn parse(&self, config: &str) -> (r: Result<ConfigTree, SliceError>) {
        VendorParser::Arista(*self).parse(config)
    }

    fn extract_slice(&self, config: &str, path: &str) -> (r: Result<Option<ConfigSlice>, SliceError>) {
        VendorParser::Arista(*self).extract_slice(config, path)
    }

    fn vendor(&self) -> (s: &str) {
        VendorParser::Arista(*self).vendor()
    }

    fn validate_syntax(&self, config: &str) -> (r: Result<ValidationResult, SliceError>) {
        ConfigParser::validate_syntax(&VendorParser::Arista(*self), config)
    }
}

impl ConfigParser for GenericParser {
    open spec fn vendor_name(&self) -> Seq<char> {
        parser_vendor(VendorParser::Generic(*self))
    }

    open spec fn nodes_of(&self, config: Seq<char>) -> Result<Seq<NodeModel>, SliceError> {
        parser_nodes(VendorParser::Generic(*self), config)
    }

    open spec fn slice_at(&self, config: Seq<char>, path: Seq<char>) -> Result<Option<SliceModel>, SliceError> {
        parser_slice(VendorParser::Generic(*self), config, path)
    }

    open spec fn syntax_errors(&self, config: Seq<char>) -> Seq<(Seq<char>, nat)> {
        parser_syntax_errors(VendorParser::Generic(*self), config)
    }

    fn parse(&self, config: &str) -> (r: Result<ConfigTree, SliceError>) {
        VendorParser::Generic(*self).parse(config)
    }

    fn extract_slice(&self, config: &str, path: &str) -> (r: Result<Option<ConfigSlice>, SliceError>) {
        VendorParser::Generic(*self).extract_slice(config, path)
    }

    fn vendor(&self) -> (s: &str) {
        VendorParser::Generic(*self).vendor()
    }

    fn validate_syntax(&self, config: &str) -> (r: Result<ValidationResult, SliceError>) {
        ConfigParser::validate_syntax(&VendorParser::Generic(*self), config)
    }
}

/// The parser registered for a vendor: the first one that handles it.
pub open spec fn parser_for(ps: Seq<VendorParser>, vendor: Seq<char>) -> Option<VendorParser>
    decreases ps.len(),
{
    if ps.len() == 0 {
        None
    } else if parser_vendor(ps[0]) == vendor {
        Some(ps[0])
    } else {
        parser_for(ps.drop_first(), vendor)
    }
}

/// The parsers are of different kinds.
pub open spec fn distinct_kinds(ps: Seq<VendorParser>) -> bool {
    forall|i: int, j: int| 0 <= i < j < ps.len() ==> !same_kind(#[trigger] ps[i], #[trigger] ps[j])
}

pub open spec fn same_kind(a: VendorParser, b: VendorParser) -> bool {
    (a is Cisco && b is Cisco) || (a is Juniper && b is Juniper) || (a is Arista && b is Arista) || (a is Generic
        && b is Generic)
}

fn same_kind_exec(a: &VendorParser, b: &VendorParser) -> (r: bool)
    ensures
        r == same_kind(*a, *b),
{
    match (a, b) {
        (VendorParser::Cisco(_), VendorParser::Cisco(_)) => true,
        (VendorParser::Juniper(_), VendorParser::Juniper(_)) => true,
        (VendorParser::Arista(_), VendorParser::Arista(_)) => true,
        (VendorParser::Generic(_), VendorParser::Generic(_)) => true,
        _ => false,
    }
}

/// One line's contribution to the slices: when the header matches its
/// path, the parser's slice at that path. `Err(None)` stands for a header
/// pattern that cannot be checked.
pub open spec fn slice_step(p: VendorParser, config: Seq<char>, h: TemplateHeader, acc: Seq<SliceModel>, x: NumberedLine) -> Result<
    Seq<SliceModel>,
    Option<SliceError>,
> {
    let path = x.0.3;
    if !pattern_checkable(h.pattern) {
        Err(None)
    } else if !pattern_matches(h.pattern, path) {
        Ok(acc)
    } else {
        match parser_slice(p, config, path) {
            Err(e) => Err(Some(e)),
            Ok(None) => Ok(acc),
            Ok(Some(sl)) => Ok(acc.push(sl)),
        }
    }
}

/// The slices over the lines `pre` of a configuration, in order.
pub open spec fn slices_over(p: VendorParser, config: Seq<char>, h: TemplateHeader, pre: Seq<NumberedLine>) -> Result<
    Seq<SliceModel>,
    Option<SliceError>,
>
    decreases pre.len(),
{
    if pre.len() == 0 {
        Ok(Seq::empty())
    } else {
        match slices_over(p, config, h, pre.drop_last()) {
            Err(e) => Err(e),
            Ok(acc) => slice_step(p, config, h, acc, pre.last()),
        }
    }
}

/// The slices of a vendor's configuration that a template header selects.
pub open spec fn extracted_slices(ps: Seq<VendorParser>, config: Seq<char>, vendor: Seq<char>, h: TemplateHeader) -> Result<
    Seq<SliceModel>,
    Option<SliceError>,
> {
    match parser_for(ps, vendor) {
        None => Err(Some(SliceError::NoParser(arbitrary()))),
        Some(p) => match parser_nodes(p, config) {
            Err(e) => Err(Some(e)),
            Ok(ns) => slices_over(p, config, h, preorder(ns)),
        },
    }
}

proof fn lemma_slices_err(p: VendorParser, config: Seq<char>, h: TemplateHeader, pre: Seq<NumberedLine>, k: int)
    requires
        0 <= k <= pre.len(),
        slices_over(p, config, h, pre.take(k)) is Err,
    ensures
        slices_over(p, config, h, pre) == slices_over(p, config, h, pre.take(k)),
    decreases pre.len() - k,
{
    if k < pre.len() {
        assert(pre.take(k + 1).drop_last() =~= pre.take(k));
        lemma_slices_err(p, config, h, pre, k + 1);
    } else {
        assert(pre.take(k) =~= pre);
    }
}

proof fn lemma_cisco_fold_not_header(ls: Seq<Seq<char>>, n: nat)
    ensures
        cisco_fold(ls, n) matches Err(e) ==> !(e is Header) && !(e is NoParser),
    decreases n,
{
    if n > 0 {
        lemma_cisco_fold_not_header(ls, (n - 1) as nat);
    }
}

proof fn lemma_parser_nodes_not_header(p: VendorParser, config: Seq<char>)
    ensures
        parser_nodes(p, config) matches Err(e) ==> !(e is Header) && !(e is NoParser),
{
    lemma_cisco_fold_not_header(lines(config), lines(config).len());
}

proof fn lemma_parser_slice_not_header(p: VendorParser, config: Seq<char>, path: Seq<char>)
    ensures
        parser_slice(p, config, path) matches Err(e) ==> !(e is Header) && !(e is NoParser),
{
    lemma_cisco_fold_not_header(lines(config), lines(config).len());
}

/// Configuration slice extractor
#[derive(Debug, Clone)]
pub struct SliceExtractor {
    /// Registered vendor-specific parsers
    pub parsers: Vec<VendorParser>,
    /// Header parser for template matching
    pub header_parser: HeaderParser,
}

impl SliceExtractor {
    pub open spec fn wf(self) -> bool {
        distinct_kinds(self.parsers@)
    }

    /// Create a new slice extractor with the Cisco, Juniper, Arista and
    /// generic parsers.
    pub fn new() -> (x: Self)
        ensures
            x.wf(),
            x.parsers@ == seq![
                VendorParser::Cisco(CiscoParser {}),
                VendorParser::Juniper(JuniperParser {}),
                VendorParser::Arista(AristaParser {}),
                VendorParser::Generic(GenericParser {}),
            ],
    {
        let mut parsers: Vec<VendorParser> = Vec::new();
        parsers.push(VendorParser::Cisco(CiscoParser::new()));
        parsers.push(VendorParser::Juniper(JuniperParser::new()));
        parsers.push(VendorParser::Arista(AristaParser::new()));
        parsers.push(VendorParser::Generic(GenericParser::new()));
        let x = SliceExtractor { parsers, header_parser: HeaderParser::new() };
        assert(x.parsers@ =~= seq![
            VendorParser::Cisco(CiscoParser {}),
            VendorParser::Juniper(JuniperParser {}),
            VendorParser::Arista(AristaParser {}),
            VendorParser::Generic(GenericParser {}),
        ]);
        x
    }

    /// Register a vendor-specific parser, replacing the one of the same
    /// vendor.
    pub fn register_parser(&mut self, parser: VendorParser)
        requires
            old(self).wf(),
        ensures
            final(self).wf(),
            exists|i: int| 0 <= i < final(self).parsers@.len() && final(self).parsers@[i] == parser,
            forall|q: VendorParser| !same_kind(q, parser) ==> (old(self).parsers@.contains(q) <==> #[trigger] final(self).parsers@.contains(q)),
    {
        let ghost before = self.parsers@;
        let mut i: usize = 0;
        while i < self.parsers.len()
            invariant
                i <= self.parsers@.len(),
                self.parsers@ == before,
                before == old(self).parsers@,
                distinct_kinds(before),
                forall|k: int| 0 <= k < i ==> !same_kind(#[trigger] self.parsers@[k], parser),
            decreases self.parsers.len() - i,
        {
            if same_kind_exec(&self.parsers[i], &parser) {
                self.parsers.set(i, parser);
                proof {
                    let after = self.parsers@;
                    assert(after[i as int] == parser);
                    assert forall|a: int, b: int| 0 <= a < b < after.len() implies !same_kind(#[trigger] after[a], #[trigger] after[b]) by {
                        assert(!same_kind(before[a], before[b]));
                    }
                    assert forall|q: VendorParser| !same_kind(q, parser) implies (before.contains(q) <==> #[trigger] after.contains(q)) by {
                        if before.contains(q) {
                            let k = choose|k: int| 0 <= k < before.len() && before[k] == q;
                            assert(k != i);
                            assert(after[k] == q);
                        }
                        if after.contains(q) {
                            let k = choose|k: int| 0 <= k < after.len() && after[k] == q;
                            assert(k != i);
                            assert(before[k] == q);
                        }
                    }
                }
                return;
            }
            i = i + 1;
        }
        self.parsers.push(parser);
        proof {
            let after = self.parsers@;
            assert(after[before.len() as int] == parser);
            assert forall|q: VendorParser| !same_kind(q, parser) implies (before.contains(q) <==> #[trigger] after.contains(q)) by {
                if before.contains(q) {
                    let k = choose|k: int| 0 <= k < before.len() && before[k] == q;
                    assert(after[k] == q);
                }
                if after.contains(q) {
                    let k = choose|k: int| 0 <= k < after.len() && after[k] == q;
                    if k < before.len() {
                        assert(before[k] == q);
                    }
                }
            }
        }
    }

    /// Get supported vendors, in the order their parsers were registered
    pub fn supported_vendors(&self) -> (v: Vec<&'static str>)
        ensures
            v@.len() == self.parsers@.len(),
            forall|i: int| 0 <= i < v@.len() ==> (#[trigger] v@[i])@ == parser_vendor(self.parsers@[i]),
    {
        let mut v: Vec<&'static str> = Vec::new();
        let mut i: usize = 0;
        while i < self.parsers.len()
            invariant
                i <= self.parsers@.len(),
                v@.len() == i,
                forall|k: int| 0 <= k < i ==> (#[trigger] v@[k])@ == parser_vendor(self.parsers@[k]),
            decreases self.parsers.len() - i,
        {
            v.push(self.parsers[i].vendor());
            i = i + 1;
        }
        v
    }

    fn find_parser(&self, vendor: &str) -> (r: Option<VendorParser>)
        ensures
            r == parser_for(self.parsers@, vendor@),
    {
        let vs = vendor.to_string();
        let mut i: usize = 0;
        assert(self.parsers@.skip(0) =~= self.parsers@);
        while i < self.parsers.len()
            invariant
                i <= self.parsers@.len(),
                vs@ == vendor@,
                parser_for(self.parsers@, vendor@) == parser_for(self.parsers@.skip(i as int), vendor@),
            decreases self.parsers.len() - i,
        {
            let p = self.parsers[i];
            let name = p.vendor().to_string();
            proof {
                assert(self.parsers@.skip(i as int)[0] == p);
                assert(self.parsers@.skip(i as int).drop_first() =~= self.parsers@.skip(i + 1));
            }
            if name == vs {
                return Some(p);
            }
            i = i + 1;
        }
        None
    }

    fn visit(&self, parser: VendorParser, config: &str, h: &TemplateHeader, target: &ConfigNode, slices: &mut Vec<ConfigSlice>) -> (r: Result<
        (),
        SliceError,
    >)
        ensures
            match r {
                Ok(()) => slice_step(parser, config@, *h, old(slices)@.map_values(|s: ConfigSlice| s.model()), target.line_model())
                    == Ok::<Seq<SliceModel>, Option<SliceError>>(final(slices)@.map_values(|s: ConfigSlice| s.model())),
                Err(SliceError::Header(e)) => slice_step(parser, config@, *h, old(slices)@.map_values(|s: ConfigSlice| s.model()), target.line_model())
                    == Err::<Seq<SliceModel>, Option<SliceError>>(None) && e is RegexCompile,
                Err(e) => slice_step(parser, config@, *h, old(slices)@.map_values(|s: ConfigSlice| s.model()), target.line_model())
                    == Err::<Seq<SliceModel>, Option<SliceError>>(Some(e)) && !(e is Header) && !(e is NoParser),
            },
    {
        match self.header_parser.matches(h, target.path.as_str()) {
            Err(e) => Err(SliceError::Header(e)),
            Ok(false) => Ok(()),
            Ok(true) => {
                match parser.extract_slice(config, target.path.as_str()) {
                    Err(e) => {
                        proof {
                            lemma_parser_slice_not_header(parser, config@, target.path@);
                        }
                        Err(e)
                    },
                    Ok(None) => Ok(()),
                    Ok(Some(sl)) => {
                        let ghost before = slices@.map_values(|s: ConfigSlice| s.model());
                        slices.push(sl);
                        assert(slices@.map_values(|s: ConfigSlice| s.model()) =~= before.push(sl.model()));
                        Ok(())
                    },
                }
            },
        }
    }

    /// Extract configuration slices based on template header: the parser of
    /// the vendor reads the configuration, and each node, in tree order,
    /// whose path the header matches gives the parser's slice at that path.
    pub fn extract_slices(&self, config: &str, vendor: &str, template_header: &TemplateHeader) -> (r: Result<
        Vec<ConfigSlice>,
        SliceError,
    >)
        ensures
            match r {
                Ok(v) => extracted_slices(self.parsers@, config@, vendor@, *template_header) == Ok::<Seq<SliceModel>, Option<SliceError>>(
                    v@.map_values(|s: ConfigSlice| s.model()),
                ),
                Err(SliceError::NoParser(v)) => parser_for(self.parsers@, vendor@) is None && v@ == vendor@,
                Err(SliceError::Header(e)) => extracted_slices(self.parsers@, config@, vendor@, *template_header) == Err::<
                    Seq<SliceModel>,
                    Option<SliceError>,
                >(None) && e is RegexCompile,
                Err(e) => extracted_slices(self.parsers@, config@, vendor@, *template_header) == Err::<
                    Seq<SliceModel>,
                    Option<SliceError>,
                >(Some(e)),
            },
    {
        let parser = match self.find_parser(vendor) {
            Some(p) => p,
            None => {
                return Err(SliceError::NoParser(vendor.to_string()));
            },
        };
        let tree = match parser.parse(config) {
            Ok(t) => t,
            Err(e) => {
                proof {
                    lemma_parser_nodes_not_header(parser, config@);
                }
                return Err(e);
            },
        };
        let ghost ns = tree.nodes_model();
        let ghost pre_all = preorder(ns);
        let mut slices: Vec<ConfigSlice> = Vec::new();
        let mut i: usize = 0;
        assert(slices@.map_values(|s: ConfigSlice| s.model()) =~= Seq::<SliceModel>::empty());
        while i < tree.nodes.len()
            invariant
                i <= tree.nodes@.len(),
                ns == tree.nodes_model(),
                parser_for(self.parsers@, vendor@) == Some(parser),
                parser_nodes(parser, config@) == Ok::<Seq<NodeModel>, SliceError>(ns),
                slices_over(parser, config@, *template_header, preorder(ns.take(i as int))) == Ok::<
                    Seq<SliceModel>,
                    Option<SliceError>,
                >(slices@.map_values(|s: ConfigSlice| s.model())),
            decreases tree.nodes.len() - i,
        {
            let node = &tree.nodes[i];
            let ghost pre = preorder(ns.take(i as int));
            let ghost q = preorder(ns.take(i + 1));
            let ghost kids = node.children@.map_values(|c: ConfigNode| c.line_model());
            proof {
                assert(ns.take(i + 1).drop_last() =~= ns.take(i as int));
                assert(ns[i as int] == node.node_model());
                assert(q =~= pre + seq![node.line_model()] + kids);
                lemma_preorder_prefix(ns, i + 1);
                assert(q.take(pre.len() + 1 as int).drop_last() =~= pre);
                assert(q.take(pre.len() + 1 as int).last() == node.line_model());
            }
            match self.visit(parser, config, template_header, node, &mut slices) {
                Ok(()) => {},
                Err(e) => {
                    proof {
                        assert(preorder(ns).take(pre.len() + 1 as int) =~= q.take(pre.len() + 1 as int));
                        lemma_slices_err(parser, config@, *template_header, preorder(ns), pre.len() + 1 as int);
                    }
                    return Err(e);
                },
            }
            let mut j: usize = 0;
            while j < node.children.len()
                invariant
                    j <= node.children@.len(),
                    ns == tree.nodes_model(),
                    parser_for(self.parsers@, vendor@) == Some(parser),
                    parser_nodes(parser, config@) == Ok::<Seq<NodeModel>, SliceError>(ns),
                    q == pre + seq![node.line_model()] + kids,
                    kids == node.children@.map_values(|c: ConfigNode| c.line_model()),
                    q.len() <= preorder(ns).len(),
                    q == preorder(ns).take(q.len() as int),
                    slices_over(parser, config@, *template_header, q.take(pre.len() + 1 + j)) == Ok::<
                        Seq<SliceModel>,
                        Option<SliceError>,
                    >(slices@.map_values(|s: ConfigSlice| s.model())),
                decreases node.children.len() - j,
            {
                let child = &node.children[j];
                let ghost idx = pre.len() + 1 + j;
                proof {
                    assert(q[idx] == kids[j as int]);
                    assert(q.take(idx + 1).drop_last() =~= q.take(idx));
                    assert(q.take(idx + 1).last() == child.line_model());
                }
                match self.visit(parser, config, template_header, child, &mut slices) {
                    Ok(()) => {},
                    Err(e) => {
                        proof {
                            assert(preorder(ns).take(idx + 1) =~= q.take(idx + 1));
                            lemma_slices_err(parser, config@, *template_header, preorder(ns), idx + 1);
                        }
                        return Err(e);
                    },
                }
                j = j + 1;
            }
            proof {
                assert(q.take(pre.len() + 1 + j) =~= q);
            }
            i = i + 1;
        }
        proof {
            assert(ns.take(i as int) =~= ns);
        }
        Ok(slices)
    }
}

/// Replacing each blank of a text by an underscore keeps its length and
/// every other character.
proof fn lemma_blanks_to_underscores(s: Seq<char>)
    ensures
        replace_all(s, " "@, "_"@).len() == s.len(),
        forall|k: int|
            0 <= k < s.len() ==> #[trigger] replace_all(s, " "@, "_"@)[k] == (if s[k] == ' ' { '_' } else { s[k] }),
    decreases s.len(),
{
    reveal_strlit(" ");
    reveal_strlit("_");
    if s.len() > 0 {
        lemma_blanks_to_underscores(s.drop_first());
        let r = replace_all(s, " "@, "_"@);
        let rest = replace_all(s.drop_first(), " "@, "_"@);
        assert(s.skip(1) =~= s.drop_first());
        if s.take(1) == " "@ {
            assert(s.take(1)[0] == s[0]);
            assert(" "@[0] == ' ');
            assert(s[0] == ' ');
            assert(r == "_"@ + rest);
        } else {
            assert(s[0] != ' ') by {
                if s[0] == ' ' {
                    assert(s.take(1) =~= " "@);
                }
            }
            assert(r == seq![s[0]] + rest);
        }
        assert forall|k: int| 0 <= k < s.len() implies #[trigger] r[k] == (if s[k] == ' ' { '_' } else { s[k] }) by {
            if k > 0 {
                assert(r[k] == rest[k - 1]);
                assert(s.drop_first()[k - 1] == s[k]);
            }
        }
    }
}

/// A Cisco routing-process line ("router <protocol> <instance>") is read
/// as a container named "router" whose path is "router.", the protocol, a
/// dot, then the instance with each blank made an underscore: the path
/// keeps the protocol and every character of the instance, in place.
pub proof fn law_router_path_keeps_protocol_and_instance(t: Seq<char>, g: Seq<Option<Seq<char>>>, proto: Seq<char>, inst: Seq<char>)
    requires
        regex_valid(interface_pattern()),
        regex_captures(interface_pattern(), t) is None,
        regex_valid(router_pattern()),
        regex_captures(router_pattern(), t) == Some(g),
        group(g, 1) == Some(proto),
        group(g, 2) == Some(inst),
    ensures
        cisco_line(t) is Ok,
        cisco_line(t)->Ok_0.0 == "router"@,
        cisco_line(t)->Ok_0.2 == ConfigType::Container,
        ({
            let path = cisco_line(t)->Ok_0.3;
            let head = "router."@ + proto + "."@;
            &&& path.len() == head.len() + inst.len()
            &&& path.take(head.len() as int) == head
            &&& forall|k: int|
                0 <= k < inst.len() ==> #[trigger] path[head.len() + k] == (if inst[k] == ' ' { '_' } else { inst[k] })
        }),
{
    lemma_blanks_to_underscores(inst);
    let head = "router."@ + proto + "."@;
    let path = cisco_line(t)->Ok_0.3;
    assert(path == head + replace_all(inst, " "@, "_"@));
    assert(path.take(head.len() as int) =~= head);
}

/// Two routing processes of the same protocol whose instances differ (and
/// hold no blank) are given different paths.
pub proof fn law_router_instances_get_distinct_paths(
    t1: Seq<char>,
    g1: Seq<Option<Seq<char>>>,
    t2: Seq<char>,
    g2: Seq<Option<Seq<char>>>,
    proto: Seq<char>,
    i1: Seq<char>,
    i2: Seq<char>,
)
    requires
        regex_valid(interface_pattern()),
        regex_captures(interface_pattern(), t1) is None,
        regex_captures(interface_pattern(), t2) is None,
        regex_valid(router_pattern()),
        regex_captures(router_pattern(), t1) == Some(g1),
        regex_captures(router_pattern(), t2) == Some(g2),
        group(g1, 1) == Some(proto),
        group(g2, 1) == Some(proto),
        group(g1, 2) == Some(i1),
        group(g2, 2) == Some(i2),
        i1 != i2,
        forall|k: int| 0 <= k < i1.len() ==> i1[k] != ' ',
        forall|k: int| 0 <= k < i2.len() ==> i2[k] != ' ',
    ensures
        cisco_line(t1) is Ok,
        cisco_line(t2) is Ok,
        cisco_line(t1)->Ok_0.3 != cisco_line(t2)->Ok_0.3,
{
    law_router_path_keeps_protocol_and_instance(t1, g1, proto, i1);
    law_router_path_keeps_protocol_and_instance(t2, g2, proto, i2);
    let head = "router."@ + proto + "."@;
    let p1 = cisco_line(t1)->Ok_0.3;
    let p2 = cisco_line(t2)->Ok_0.3;
    if p1 == p2 {
        assert(i1.len() == i2.len());
        assert forall|k: int| 0 <= k < i1.len() implies i1[k] == i2[k] by {
            assert(p1[head.len() + k] == p2[head.len() + k]);
        }
        assert(i1 =~= i2);
    }
}

} // verus!

//! Connection rules: persistent connection patterns that apply automatically
//! when matching nodes and ports appear.

use vstd::prelude::*;

use crate::ids::{LinkId, PortId, RuleId};
use crate::text::{chars_of, decimal, owned, push_char, push_decimal, str_eq, str_is_empty};

verus! {

/// When a rule should attempt to create connections.
#[derive(Debug, Clone, Copy, PartialEq, Eq, Structural)]
pub enum RuleTrigger {
    /// Trigger when the source application appears
    OnSourceAppear,
    /// Trigger when the target application appears
    OnTargetAppear,
    /// Trigger only when both source and target are present
    OnBothPresent,
    /// Never auto-trigger; only apply manually
    ManualOnly,
}

impl Default for RuleTrigger {
    fn default() -> (r: Self)
        ensures
            r == RuleTrigger::OnBothPresent,
    {
        RuleTrigger::OnBothPresent
    }
}

impl RuleTrigger {
    /// Returns a human-readable display name for the trigger.
    pub fn display_name(&self) -> (r: &'static str)
        ensures
            r@ == match *self {
                RuleTrigger::OnSourceAppear => "Source Appears"@,
                RuleTrigger::OnTargetAppear => "Target Appears"@,
                RuleTrigger::OnBothPresent => "Both Present"@,
                RuleTrigger::ManualOnly => "Manual Only"@,
            },
    {
        match self {
            RuleTrigger::OnSourceAppear => "Source Appears",
            RuleTrigger::OnTargetAppear => "Target Appears",
            RuleTrigger::OnBothPresent => "Both Present",
            RuleTrigger::ManualOnly => "Manual Only",
        }
    }

    /// Returns all available trigger options.
    pub fn all() -> (r: Vec<RuleTrigger>)
        ensures
            r@ == seq![RuleTrigger::OnSourceAppear, RuleTrigger::OnTargetAppear,
                RuleTrigger::OnBothPresent, RuleTrigger::ManualOnly],
    {
        let mut v = Vec::new();
        v.push(RuleTrigger::OnSourceAppear);
        v.push(RuleTrigger::OnTargetAppear);
        v.push(RuleTrigger::OnBothPresent);
        v.push(RuleTrigger::ManualOnly);
        v
    }
}

/// The result of glob matching as the glob-match crate computes it (`*`, `?`,
/// `**`, character classes, braces, negation and backslash escapes).
pub uninterp spec fn glob_matches(glob: Seq<char>, path: Seq<char>) -> bool;

/// Glob matching (glob-match's `glob_match`).
#[verifier::external_body]
fn glob_match(glob: &str, path: &str) -> (r: bool)
    ensures
        r == glob_matches(glob@, path@),
{
    glob_match::glob_match(glob, path)
}

/// The characters glob-match reads as syntax besides the wildcards `*` and `?`.
pub open spec fn is_glob_syntax(c: char) -> bool {
    c == '[' || c == ']' || c == '{' || c == '}' || c == ',' || c == '!' || c == '\\'
}

/// One character of a pattern as handed to glob-match: syntax characters other
/// than `*` and `?` are escaped with a backslash, so that they stand for themselves.
pub open spec fn escaped_char(c: char) -> Seq<char> {
    if is_glob_syntax(c) { seq!['\\', c] } else { seq![c] }
}

/// A pattern as handed to glob-match (see `escaped_char`).
pub open spec fn glob_escaped(s: Seq<char>) -> Seq<char>
    decreases s.len(),
{
    if s.len() == 0 {
        Seq::empty()
    } else {
        glob_escaped(s.drop_last()) + escaped_char(s.last())
    }
}

/// Whether one part of a pattern accepts a text: an empty part accepts
/// anything, a part accepts its own text, and otherwise glob-match decides on
/// the escaped part, so that only `*` and `?` are wildcards (glob-match's `*`
/// and `?` do not match a `/`).
pub open spec fn part_matches_text(pattern: Seq<char>, text: Seq<char>) -> bool {
    pattern.len() == 0 || pattern == text || glob_matches(glob_escaped(pattern), text)
}

/// Whether a pattern accepts an application name, a node name and a port name:
/// each part accepts its text.
pub open spec fn pattern_matches(pat: MatchPattern, app: Seq<char>, node: Seq<char>, port: Seq<char>) -> bool {
    part_matches_text(pat.app_name@, app) && part_matches_text(pat.node_name@, node)
        && part_matches_text(pat.port_name@, port)
}

/// Escapes a pattern for glob-match (see `glob_escaped`).
fn escape_for_glob(pattern: &str) -> (r: String)
    ensures
        r@ == glob_escaped(pattern@),
{
    let cs = chars_of(pattern);
    let mut out = String::new();
    let mut i: usize = 0;
    while i < cs.len()
        invariant
            cs@ == pattern@,
            i <= cs@.len(),
            out@ == glob_escaped(cs@.take(i as int)),
        decreases cs.len() - i,
    {
        let c = cs[i];
        proof {
            assert(cs@.take(i + 1).drop_last() =~= cs@.take(i as int));
        }
        if c == '[' || c == ']' || c == '{' || c == '}' || c == ',' || c == '!' || c == '\\' {
            push_char(&mut out, '\\');
        }
        push_char(&mut out, c);
        proof {
            assert(out@ =~= glob_escaped(cs@.take(i as int)) + escaped_char(c));
        }
        i += 1;
    }
    proof {
        assert(cs@.take(cs@.len() as int) =~= cs@);
    }
    out
}

/// A glob-style pattern for matching node/port identifiers; an empty part matches anything.
#[derive(Debug, Clone, PartialEq, Eq, Hash)]
pub struct MatchPattern {
    /// Pattern for app_name (e.g., "*DAW*", "Firefox", "")
    pub app_name: String,
    /// Pattern for node_name (e.g., "alsa_output.*")
    pub node_name: String,
    /// Pattern for port_name (e.g., "playback_FL", "monitor_*")
    pub port_name: String,
}

/// The text an absent application name stands for.
pub open spec fn app_text(app_name: Option<&str>) -> Seq<char> {
    match app_name {
        Some(a) => a@,
        None => Seq::empty(),
    }
}

impl Default for MatchPattern {
    fn default() -> (r: Self)
        ensures
            r.app_name@.len() == 0,
            r.node_name@.len() == 0,
            r.port_name@.len() == 0,
    {
        MatchPattern { app_name: String::new(), node_name: String::new(), port_name: String::new() }
    }
}

impl MatchPattern {
    /// Creates a new match pattern.
    pub fn new(app_name: &str, node_name: &str, port_name: &str) -> (r: Self)
        ensures
            r.app_name@ == app_name@,
            r.node_name@ == node_name@,
            r.port_name@ == port_name@,
    {
        MatchPattern { app_name: owned(app_name), node_name: owned(node_name), port_name: owned(port_name) }
    }

    /// Creates a pattern that matches a specific port exactly (no application
    /// name: any); it matches the port it was made from (see `lemma_exact_matches`).
    pub fn exact(app_name: Option<&str>, node_name: &str, port_name: &str) -> (r: Self)
        ensures
            r.app_name@ == app_text(app_name),
            r.node_name@ == node_name@,
            r.port_name@ == port_name@,
            pattern_matches(r, app_text(app_name), node_name@, port_name@),
    {
        let app = match app_name {
            Some(a) => owned(a),
            None => String::new(),
        };
        MatchPattern { app_name: app, node_name: owned(node_name), port_name: owned(port_name) }
    }

    /// Tests if this pattern matches the given identifiers (glob-style: `*` = any
    /// characters, `?` = one character, other characters stand for themselves;
    /// an empty part matches anything; an absent application name is matched as
    /// the empty text). See `pattern_matches`.
    pub fn matches(&self, app_name: Option<&str>, node_name: &str, port_name: &str) -> (r: bool)
        ensures
            r == pattern_matches(*self, app_text(app_name), node_name@, port_name@),
    {
        let app: &str = match app_name {
            Some(a) => a,
            None => "",
        };
        proof {
            reveal_strlit("");
            assert(app@ =~= app_text(app_name));
        }
        Self::part_matches(self.app_name.as_str(), app)
            && Self::part_matches(self.node_name.as_str(), node_name)
            && Self::part_matches(self.port_name.as_str(), port_name)
    }

    /// One part of a pattern (see `part_matches_text`).
    fn part_matches(pattern: &str, text: &str) -> (r: bool)
        ensures
            r == part_matches_text(pattern@, text@),
    {
        if str_is_empty(pattern) || str_eq(pattern, text) {
            return true;
        }
        let escaped = escape_for_glob(pattern);
        glob_match(escaped.as_str(), text)
    }
}

/// A pattern made by `MatchPattern::exact` matches the port it was made from.
pub proof fn lemma_exact_matches(p: MatchPattern, app: Seq<char>, node: Seq<char>, port: Seq<char>)
    requires
        p.app_name@ == app,
        p.node_name@ == node,
        p.port_name@ == port,
    ensures
        pattern_matches(p, app, node, port),
{
}

/// A single port-to-port connection specification within a rule.
#[derive(Debug, Clone, PartialEq, Eq)]
pub struct ConnectionSpec {
    /// Pattern for the output (source) port
    pub output_pattern: MatchPattern,
    /// Pattern for the input (sink) port
    pub input_pattern: MatchPattern,
}

impl ConnectionSpec {
    /// Creates a new connection specification.
    pub fn new(output_pattern: MatchPattern, input_pattern: MatchPattern) -> (r: Self)
        ensures
            r.output_pattern == output_pattern,
            r.input_pattern == input_pattern,
    {
        ConnectionSpec { output_pattern, input_pattern }
    }
}

/// A connection rule defining a set of connections to establish.
#[derive(Debug, Clone)]
pub struct ConnectionRule {
    /// Unique rule ID
    pub id: RuleId,
    /// Human-readable rule name
    pub name: String,
    /// Whether the rule is enabled
    pub enabled: bool,
    /// When to trigger auto-connection
    pub trigger: RuleTrigger,
    /// The connections this rule creates
    pub connections: Vec<ConnectionSpec>,
    /// If true, remove all other connections from matched nodes when rule is applied
    pub exclusive: bool,
    /// The primary node/app this rule was created for (for display purposes)
    pub primary_node: Option<String>,
}

impl ConnectionRule {
    /// Creates a new empty, enabled rule with the given name and a fresh id.
    pub fn new(name: String) -> (r: Self)
        ensures
            r.name == name,
            r.enabled,
            r.trigger == RuleTrigger::OnBothPresent,
            r.connections@.len() == 0,
            !r.exclusive,
            r.primary_node is None,
            r.id.0 != 0,
    {
        ConnectionRule {
            id: RuleId::new(),
            name,
            enabled: true,
            trigger: RuleTrigger::OnBothPresent,
            connections: Vec::new(),
            exclusive: false,
            primary_node: None,
        }
    }

    /// Creates an enabled rule, triggered when both ends are present, from a
    /// snapshot of connections.
    pub fn from_snapshot(name: String, connections: Vec<ConnectionSpec>, primary_node: Option<String>) -> (r: Self)
        ensures
            r.name == name,
            r.enabled,
            r.trigger == RuleTrigger::OnBothPresent,
            r.connections == connections,
            !r.exclusive,
            r.primary_node == primary_node,
            r.id.0 != 0,
    {
        ConnectionRule {
            id: RuleId::new(),
            name,
            enabled: true,
            trigger: RuleTrigger::OnBothPresent,
            connections,
            exclusive: false,
            primary_node,
        }
    }
}

/// Pending connection to be created by a rule.
#[derive(Debug, Clone, Copy, PartialEq, Eq, Structural)]
pub struct PendingConnection {
    /// Output port ID
    pub output_port: PortId,
    /// Input port ID
    pub input_port: PortId,
    /// Rule that triggered this connection (for diagnostics/logging)
    pub rule_id: RuleId,
}

/// Manager for connection rules.
#[derive(Debug, Clone)]
pub struct RuleManager {
    /// All rules
    pub rules: Vec<ConnectionRule>,
    /// Counter for generating default names
    pub next_rule_number: usize,
    /// Pending connections to be created (runtime only)
    pub pending_connections: Vec<PendingConnection>,
    /// Pending links to be removed (for exclusive rules, runtime only)
    pub pending_disconnections: Vec<LinkId>,
}

/// The index of the first rule with the id, if any.
pub open spec fn first_rule_index(rules: Seq<ConnectionRule>, id: RuleId) -> Option<int> {
    if exists|i: int| 0 <= i < rules.len() && rules[i].id == id {
        Some(choose|i: int| 0 <= i < rules.len() && rules[i].id == id
            && forall|j: int| 0 <= j < i ==> rules[j].id != id)
    } else {
        None
    }
}

/// The rules after the first rule with the id has its enabled flag flipped
/// (unchanged when no rule has the id).
pub open spec fn rules_toggled(rules: Seq<ConnectionRule>, id: RuleId) -> Seq<ConnectionRule> {
    match first_rule_index(rules, id) {
        Some(i) => rules.update(i, ConnectionRule { enabled: !rules[i].enabled, ..rules[i] }),
        None => rules,
    }
}

/// Below any rule with the id there is a first one.
proof fn lemma_first_with_id(rules: Seq<ConnectionRule>, id: RuleId, k: int)
    requires
        0 <= k < rules.len(),
        rules[k].id == id,
    ensures
        exists|i: int| 0 <= i < rules.len() && rules[i].id == id && forall|j: int| 0 <= j < i ==> rules[j].id != id,
    decreases k,
{
    if exists|j: int| 0 <= j < k && rules[j].id == id {
        let j = choose|j: int| 0 <= j < k && rules[j].id == id;
        lemma_first_with_id(rules, id, j);
    } else {
        assert(forall|j: int| 0 <= j < k ==> rules[j].id != id);
    }
}

/// Toggling the same rule twice gives back the rules as they were.
pub proof fn lemma_toggle_twice(rules: Seq<ConnectionRule>, id: RuleId)
    ensures
        rules_toggled(rules_toggled(rules, id), id) == rules,
{
    match first_rule_index(rules, id) {
        Some(i) => {
            let r1 = rules_toggled(rules, id);
            let k = choose|k: int| 0 <= k < rules.len() && rules[k].id == id;
            lemma_first_with_id(rules, id, k);
            assert forall|j: int| 0 <= j < i implies r1[j].id != id by {
                assert(r1[j] == rules[j]);
            }
            lemma_first_rule_index(r1, id, i);
            assert(rules_toggled(r1, id) =~= rules);
        },
        None => {},
    }
}

/// The default name of the `n`-th rule.
pub open spec fn default_rule_name(n: nat) -> Seq<char> {
    "Rule "@ + decimal(n)
}

impl Default for RuleManager {
    fn default() -> (r: Self)
        ensures
            r.rules@.len() == 0,
            r.rule_counter() == 0,
            r.pending_connections@.len() == 0,
            r.pending_disconnections@.len() == 0,
    {
        RuleManager {
            rules: Vec::new(),
            next_rule_number: 0,
            pending_connections: Vec::new(),
            pending_disconnections: Vec::new(),
        }
    }
}

impl RuleManager {
    /// The number of rules created from snapshots so far (for default names).
    pub open spec fn rule_counter(&self) -> nat {
        self.next_rule_number as nat
    }

    /// Creates a new empty rule manager.
    pub fn new() -> (r: Self)
        ensures
            r.rules@.len() == 0,
            r.rule_counter() == 0,
            r.pending_connections@.len() == 0,
            r.pending_disconnections@.len() == 0,
    {
        RuleManager {
            rules: Vec::new(),
            next_rule_number: 0,
            pending_connections: Vec::new(),
            pending_disconnections: Vec::new(),
        }
    }

    /// Index of the first rule with the given id.
    fn position(&self, id: &RuleId) -> (r: Option<usize>)
        ensures
            match r {
                Some(i) => i < self.rules@.len() && self.rules@[i as int].id == *id
                    && forall|j: int| 0 <= j < i ==> self.rules@[j].id != *id,
                None => forall|j: int| 0 <= j < self.rules@.len() ==> self.rules@[j].id != *id,
            },
    {
        let mut i: usize = 0;
        while i < self.rules.len()
            invariant
                i <= self.rules@.len(),
                forall|j: int| 0 <= j < i ==> self.rules@[j].id != *id,
            decreases self.rules.len() - i,
        {
            if self.rules[i].id == *id {
                return Some(i);
            }
            i += 1;
        }
        None
    }

    /// Adds a new rule at the end and returns its ID.
    pub fn add_rule(&mut self, rule: ConnectionRule) -> (r: RuleId)
        ensures
            r == rule.id,
            final(self).rules@ == old(self).rules@.push(rule),
            final(self).rule_counter() == old(self).rule_counter(),
            final(self).pending_connections == old(self).pending_connections,
            final(self).pending_disconnections == old(self).pending_disconnections,
    {
        let id = rule.id;
        self.rules.push(rule);
        id
    }

    /// Creates an enabled rule from a snapshot and adds it; without a name it is
    /// called "Rule N", N counting the rules created this way.
    pub fn create_from_snapshot(&mut self, name: Option<String>, connections: Vec<ConnectionSpec>, primary_node: Option<String>) -> (r: RuleId)
        requires
            old(self).rule_counter() < usize::MAX,
        ensures
            final(self).rule_counter() == old(self).rule_counter() + 1,
            final(self).rules@.len() == old(self).rules@.len() + 1,
            final(self).rules@.take(old(self).rules@.len() as int) == old(self).rules@,
            ({
                let added = final(self).rules@.last();
                &&& added.id == r
                &&& added.enabled
                &&& added.trigger == RuleTrigger::OnBothPresent
                &&& added.connections == connections
                &&& !added.exclusive
                &&& added.primary_node == primary_node
                &&& added.name@ == match name {
                    Some(n) => n@,
                    None => default_rule_name(final(self).rule_counter()),
                }
            }),
            final(self).pending_connections == old(self).pending_connections,
            final(self).pending_disconnections == old(self).pending_disconnections,
    {
        self.next_rule_number = self.next_rule_number + 1;
        let rule_name = match name {
            Some(n) => n,
            None => {
                let mut s = owned("Rule ");
                push_decimal(&mut s, self.next_rule_number as u64);
                s
            },
        };
        let rule = ConnectionRule::from_snapshot(rule_name, connections, primary_node);
        let r = self.add_rule(rule);
        proof {
            assert(self.rules@.take(old(self).rules@.len() as int) =~= old(self).rules@);
        }
        r
    }

    /// Removes the first rule with the given ID and returns it.
    pub fn remove_rule(&mut self, id: &RuleId) -> (r: Option<ConnectionRule>)
        ensures
            match first_rule_index(old(self).rules@, *id) {
                Some(i) => r == Some(old(self).rules@[i]) && final(self).rules@ == old(self).rules@.remove(i),
                None => r is None && final(self).rules@ == old(self).rules@,
            },
            final(self).rule_counter() == old(self).rule_counter(),
            final(self).pending_connections == old(self).pending_connections,
            final(self).pending_disconnections == old(self).pending_disconnections,
    {
        match self.position(id) {
            Some(pos) => {
                proof {
                    lemma_first_rule_index(old(self).rules@, *id, pos as int);
                }
                Some(self.rules.remove(pos))
            },
            None => None,
        }
    }

    /// Gets the first rule with the given ID.
    pub fn get_rule(&self, id: &RuleId) -> (r: Option<&ConnectionRule>)
        ensures
            match first_rule_index(self.rules@, *id) {
                Some(i) => r == Some(&self.rules@[i]),
                None => r is None,
            },
    {
        match self.position(id) {
            Some(pos) => {
                proof {
                    lemma_first_rule_index(self.rules@, *id, pos as int);
                }
                Some(&self.rules[pos])
            },
            None => None,
        }
    }

    /// Returns all enabled rules, in order.
    pub fn enabled_rules(&self) -> (r: Vec<&ConnectionRule>)
        ensures
            r@.map_values(|x: &ConnectionRule| *x) == self.rules@.filter(|x: ConnectionRule| x.enabled),
    {
        let mut r: Vec<&ConnectionRule> = Vec::new();
        let mut i: usize = 0;
        while i < self.rules.len()
            invariant
                i <= self.rules@.len(),
                r@.map_values(|x: &ConnectionRule| *x) == self.rules@.take(i as int).filter(|x: ConnectionRule| x.enabled),
            decreases self.rules.len() - i,
        {
            proof {
                assert(self.rules@.take(i + 1) =~= self.rules@.take(i as int).push(self.rules@[i as int]));
                self.rules@.take(i as int).lemma_filter_push(self.rules@[i as int], |x: ConnectionRule| x.enabled);
            }
            if self.rules[i].enabled {
                r.push(&self.rules[i]);
                proof {
                    assert(r@.map_values(|x: &ConnectionRule| *x) =~=
                        self.rules@.take(i as int).filter(|x: ConnectionRule| x.enabled).push(self.rules@[i as int]));
                }
            }
            i += 1;
        }
        proof {
            assert(self.rules@.take(self.rules@.len() as int) =~= self.rules@);
        }
        r
    }

    /// Toggles the enabled state of the first rule with the given ID.
    pub fn toggle_enabled(&mut self, id: &RuleId)
        ensures
            final(self).rules@ == rules_toggled(old(self).rules@, *id),
            final(self).rule_counter() == old(self).rule_counter(),
            final(self).pending_connections == old(self).pending_connections,
            final(self).pending_disconnections == old(self).pending_disconnections,
    {
        match self.position(id) {
            Some(pos) => {
                proof {
                    lemma_first_rule_index(old(self).rules@, *id, pos as int);
                }
                let mut rule = self.rules.remove(pos);
                rule.enabled = !rule.enabled;
                self.rules.insert(pos, rule);
                proof {
                    assert(self.rules@ =~= old(self).rules@.update(pos as int,
                        ConnectionRule { enabled: !old(self).rules@[pos as int].enabled, ..old(self).rules@[pos as int] }));
                }
            },
            None => {},
        }
    }

    /// Returns true if there are no rules.
    pub fn is_empty(&self) -> (r: bool)
        ensures
            r == (self.rules@.len() == 0),
    {
        self.rules.len() == 0
    }

    /// Returns the number of rules.
    pub fn len(&self) -> (r: usize)
        ensures
            r == self.rules@.len(),
    {
        self.rules.len()
    }

    /// Queues a pending connection to be created.
    pub fn queue_connection(&mut self, output_port: PortId, input_port: PortId, rule_id: RuleId)
        ensures
            final(self).pending_connections@ == old(self).pending_connections@.push(
                PendingConnection { output_port, input_port, rule_id }),
            final(self).rules == old(self).rules,
            final(self).rule_counter() == old(self).rule_counter(),
            final(self).pending_disconnections == old(self).pending_disconnections,
    {
        self.pending_connections.push(PendingConnection { output_port, input_port, rule_id });
    }

    /// Takes all pending connections, clearing the queue.
    pub fn take_pending_connections(&mut self) -> (r: Vec<PendingConnection>)
        ensures
            r@ == old(self).pending_connections@,
            final(self).pending_connections@.len() == 0,
            final(self).rules == old(self).rules,
            final(self).rule_counter() == old(self).rule_counter(),
            final(self).pending_disconnections == old(self).pending_disconnections,
    {
        let mut taken: Vec<PendingConnection> = Vec::new();
        std::mem::swap(&mut taken, &mut self.pending_connections);
        taken
    }

    /// Queues a link to be removed (for exclusive rules), once.
    pub fn queue_disconnection(&mut self, link_id: LinkId)
        ensures
            final(self).pending_disconnections@ == if old(self).pending_disconnections@.contains(link_id) {
                old(self).pending_disconnections@
            } else {
                old(self).pending_disconnections@.push(link_id)
            },
            final(self).rules == old(self).rules,
            final(self).rule_counter() == old(self).rule_counter(),
            final(self).pending_connections == old(self).pending_connections,
    {
        let mut i: usize = 0;
        while i < self.pending_disconnections.len()
            invariant
                i <= self.pending_disconnections@.len(),
                forall|k: int| 0 <= k < i ==> self.pending_disconnections@[k] != link_id,
            decreases self.pending_disconnections.len() - i,
        {
            if self.pending_disconnections[i] == link_id {
                proof {
                    assert(self.pending_disconnections@.contains(link_id));
                }
                return;
            }
            i += 1;
        }
        self.pending_disconnections.push(link_id);
    }

    /// Takes all pending disconnections, clearing the queue.
    pub fn take_pending_disconnections(&mut self) -> (r: Vec<LinkId>)
        ensures
            r@ == old(self).pending_disconnections@,
            final(self).pending_disconnections@.len() == 0,
            final(self).rules == old(self).rules,
            final(self).rule_counter() == old(self).rule_counter(),
            final(self).pending_connections == old(self).pending_connections,
    {
        let mut taken: Vec<LinkId> = Vec::new();
        std::mem::swap(&mut taken, &mut self.pending_disconnections);
        taken
    }
}

proof fn lemma_first_rule_index(rules: Seq<ConnectionRule>, id: RuleId, i: int)
    requires
        0 <= i < rules.len(),
        rules[i].id == id,
        forall|j: int| 0 <= j < i ==> rules[j].id != id,
    ensures
        first_rule_index(rules, id) == Some(i),
{
    let c = choose|k: int| 0 <= k < rules.len() && rules[k].id == id && forall|j: int| 0 <= j < k ==> rules[j].id != id;
    assert(0 <= c < rules.len() && rules[c].id == id && forall|j: int| 0 <= j < c ==> rules[j].id != id);
    if c < i {
        assert(rules[c].id != id);
    }
    if i < c {
        assert(rules[i].id != id);
    }
}

/// A disconnection queue never holds a link twice.
pub proof fn lemma_queue_disconnection_unique(q: Seq<LinkId>, link: LinkId)
    requires
        q.no_duplicates(),
    ensures
        (if q.contains(link) { q } else { q.push(link) }).no_duplicates(),
{
}

}

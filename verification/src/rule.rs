//! Window rules for matching and applying settings

use vstd::prelude::*;
use crate::config::WindowDecoration;

verus! {

/// Whether `regex::Regex::new` accepts `pattern` (it may refuse a pattern
/// that is malformed or that would exceed the default size limit).
pub uninterp spec fn regex_valid(pattern: Seq<char>) -> bool;

/// Whether the regex compiled from `pattern` matches somewhere in `haystack`.
pub uninterp spec fn regex_match(pattern: Seq<char>, haystack: Seq<char>) -> bool;

/// Calls `regex::Regex::new`; trusted to succeed exactly for the patterns
/// that `regex_valid` names.  Which patterns those are is not stated.
#[verifier::external_body]
fn regex_compiles(pattern: &str) -> (b: bool)
    ensures
        b == regex_valid(pattern@),
{
    regex::Regex::new(pattern).is_ok()
}

/// Calls `regex::Regex::new` on `pattern` and, when it compiles,
/// `regex::Regex::is_match` on `haystack`; trusted to compile exactly the
/// patterns that `regex_valid` names and then to give the result named
/// `regex_match`.  What that result is on given strings is not stated.
#[verifier::external_body]
fn regex_is_match(pattern: &str, haystack: &str) -> (r: Option<bool>)
    ensures
        r.is_some() == regex_valid(pattern@),
        r matches Some(b) ==> b == regex_match(pattern@, haystack@),
{
    match regex::Regex::new(pattern) {
        Ok(re) => Some(re.is_match(haystack)),
        Err(_) => None,
    }
}

/// String equality between a borrowed and an owned string.
fn str_eq(a: &str, b: &String) -> (r: bool)
    ensures
        r == (a@ == b@),
{
    let owned = a.to_owned();
    owned == *b
}

/// A pattern for matching window properties
#[derive(Debug, Clone)]
pub struct Pattern {
    /// Literal string to match
    pub literal: Option<String>,
    /// Regex pattern, kept as its source text
    pub regex: Option<String>,
}

/// Whether a pattern accepts a string: a literal by equality, a regex by
/// matching anywhere; a pattern with neither accepts nothing.
pub open spec fn pattern_matches(p: Pattern, s: Seq<char>) -> bool {
    match p.literal {
        Some(l) => s == l@,
        None => match p.regex {
            Some(r) => regex_valid(r@) && regex_match(r@, s),
            None => false,
        },
    }
}

impl Pattern {
    /// Create a literal string pattern
    pub fn literal(s: &str) -> (r: Self)
        ensures
            r.literal matches Some(l) && l@ == s@,
            r.regex.is_none(),
    {
        Pattern { literal: Some(s.to_owned()), regex: None }
    }

    /// Create a regex pattern; `None` when the pattern does not compile.
    pub fn regex(pattern: &str) -> (r: Option<Self>)
        ensures
            r.is_some() == regex_valid(pattern@),
            r matches Some(p) ==> (p.literal.is_none() && (p.regex matches Some(src) && src@ == pattern@)),
    {
        if regex_compiles(pattern) {
            Some(Pattern { literal: None, regex: Some(pattern.to_owned()) })
        } else {
            None
        }
    }

    /// Check if the pattern matches a string
    pub fn matches(&self, s: &str) -> (r: bool)
        ensures
            r == pattern_matches(*self, s@),
    {
        if let Some(literal) = &self.literal {
            str_eq(s, literal)
        } else if let Some(regex) = &self.regex {
            let outcome = regex_is_match(regex.as_str(), s);
            self.decide(s, outcome)
        } else {
            false
        }
    }

    /// Whether the pattern accepts `s`, given what searching its regex in
    /// `s` gave (`None`: the regex does not compile): a literal by
    /// equality, a regex when the search found a match.
    pub fn decide(&self, s: &str, outcome: Option<bool>) -> (r: bool)
        ensures
            r == match self.literal {
                Some(l) => s@ == l@,
                None => self.regex.is_some() && outcome == Some(true),
            },
    {
        if let Some(literal) = &self.literal {
            str_eq(s, literal)
        } else {
            self.regex.is_some() && outcome == Some(true)
        }
    }
}

/// A window rule that matches windows and applies settings
#[derive(Debug, Clone)]
pub struct Rule {
    /// App ID to match exactly
    pub app_id: Option<String>,
    /// Title to match exactly
    pub title: Option<String>,
    /// Regex pattern for app_id
    pub app_id_regex: Option<String>,
    /// Regex pattern for title
    pub title_regex: Option<String>,
    /// Tag to assign to matching windows
    pub tag: Option<u32>,
    /// Whether matching windows should float
    pub floating: Option<bool>,
    /// Decoration style for matching windows
    pub decoration: Option<WindowDecoration>,
    /// Whether this is a terminal window
    pub is_terminal: Option<bool>,
    /// Whether to disable swallowing for this window
    pub disable_swallow: Option<bool>,
    /// Scroller factor for matching windows, as the bit pattern of an `f32`
    pub scroller_mfact: Option<u32>,
}

impl Default for Rule {
    fn default() -> (r: Self)
        ensures
            r.app_id.is_none() && r.title.is_none(),
            r.app_id_regex.is_none() && r.title_regex.is_none(),
            r.tag.is_none() && r.floating.is_none() && r.decoration.is_none(),
            r.is_terminal.is_none() && r.disable_swallow.is_none() && r.scroller_mfact.is_none(),
    {
        Rule {
            app_id: None,
            title: None,
            app_id_regex: None,
            title_regex: None,
            tag: None,
            floating: None,
            decoration: None,
            is_terminal: None,
            disable_swallow: None,
            scroller_mfact: None,
        }
    }
}

pub open spec fn opt_view(o: Option<&str>) -> Option<Seq<char>> {
    match o {
        Some(s) => Some(s@),
        None => None,
    }
}

pub open spec fn opt_string_view(o: Option<String>) -> Option<Seq<char>> {
    match o {
        Some(s) => Some(s@),
        None => None,
    }
}

/// A property is absent or empty.
pub open spec fn absent_or_empty(v: Option<Seq<char>>) -> bool {
    match v {
        Some(s) => s.len() == 0,
        None => true,
    }
}

/// One property of a window against a rule's literal and regex for it:
/// the literal decides when both it and the property are present, else a
/// regex decides; with neither, any property matches.
pub open spec fn field_matches(lit: Option<Seq<char>>, re: Option<Seq<char>>, v: Option<Seq<char>>) -> bool {
    match v {
        Some(id) => match lit {
            Some(p) => id == p,
            None => match re {
                Some(r) => regex_valid(r) && regex_match(r, id),
                None => true,
            },
        },
        None => lit.is_none() && re.is_none(),
    }
}

/// Whether a rule applies to a window with this app id and title.  A rule
/// with neither app id nor title applies to windows missing either.
pub open spec fn rule_matches(r: Rule, app_id: Option<Seq<char>>, title: Option<Seq<char>>) -> bool {
    if r.app_id.is_none() && r.title.is_none() {
        absent_or_empty(app_id) || absent_or_empty(title)
    } else {
        field_matches(opt_string_view(r.app_id), opt_string_view(r.app_id_regex), app_id)
            && field_matches(opt_string_view(r.title), opt_string_view(r.title_regex), title)
    }
}

/// One property of a window against a rule's literal and regex for it,
/// given what searching the regex in the property gave (`None`: the regex
/// does not compile): the literal decides when both it and the property
/// are present, else the regex search; with neither, any property matches.
pub open spec fn field_decides(lit: Option<Seq<char>>, has_regex: bool, v: Option<Seq<char>>, outcome: Option<bool>) -> bool {
    match v {
        Some(id) => match lit {
            Some(p) => id == p,
            None => !has_regex || outcome == Some(true),
        },
        None => lit.is_none() && !has_regex,
    }
}

/// Decide one property as `field_decides` says.
pub fn field_decision(lit: &Option<String>, has_regex: bool, v: Option<&str>, outcome: Option<bool>) -> (r: bool)
    ensures
        r == field_decides(opt_string_view(*lit), has_regex, opt_view(v), outcome),
{
    match v {
        Some(id) => match lit {
            Some(p) => str_eq(id, p),
            None => !has_regex || outcome == Some(true),
        },
        None => lit.is_none() && !has_regex,
    }
}

fn field_match(lit: &Option<String>, re: &Option<String>, v: Option<&str>) -> (r: bool)
    ensures
        r == field_matches(opt_string_view(*lit), opt_string_view(*re), opt_view(v)),
{
    let outcome = match (re, v, lit) {
        (Some(pattern), Some(id), None) => regex_is_match(pattern.as_str(), id),
        _ => None,
    };
    field_decision(lit, re.is_some(), v, outcome)
}

impl Rule {
    /// Check if this rule matches a window
    pub fn matches(&self, app_id: Option<&str>, title: Option<&str>) -> (r: bool)
        ensures
            r == rule_matches(*self, opt_view(app_id), opt_view(title)),
    {
        if self.app_id.is_none() && self.title.is_none() {
            let app_empty = match app_id {
                Some(s) => s.is_empty(),
                None => true,
            };
            let title_empty = match title {
                Some(s) => s.is_empty(),
                None => true,
            };
            return app_empty || title_empty;
        }
        let app_id_matches = field_match(&self.app_id, &self.app_id_regex, app_id);
        let title_matches = field_match(&self.title, &self.title_regex, title);
        app_id_matches && title_matches
    }
}

/// Result of applying rules to a window
#[derive(Debug, Clone, Copy)]
pub struct AppliedRules {
    pub tag: Option<u32>,
    pub floating: Option<bool>,
    pub decoration: Option<WindowDecoration>,
    pub is_terminal: Option<bool>,
    pub disable_swallow: Option<bool>,
    pub scroller_mfact: Option<u32>,
}

impl Default for AppliedRules {
    fn default() -> (r: Self)
        ensures
            r == no_rules(),
    {
        AppliedRules {
            tag: None,
            floating: None,
            decoration: None,
            is_terminal: None,
            disable_swallow: None,
            scroller_mfact: None,
        }
    }
}

/// Settings before any rule applied.
pub open spec fn no_rules() -> AppliedRules {
    AppliedRules {
        tag: None,
        floating: None,
        decoration: None,
        is_terminal: None,
        disable_swallow: None,
        scroller_mfact: None,
    }
}

pub open spec fn or_else<T>(newer: Option<T>, older: Option<T>) -> Option<T> {
    match newer {
        Some(v) => Some(v),
        None => older,
    }
}

/// Settings after a matching rule: each value the rule sets replaces the
/// earlier one.
pub open spec fn overlay(a: AppliedRules, r: Rule) -> AppliedRules {
    AppliedRules {
        tag: or_else(r.tag, a.tag),
        floating: or_else(r.floating, a.floating),
        decoration: or_else(r.decoration, a.decoration),
        is_terminal: or_else(r.is_terminal, a.is_terminal),
        disable_swallow: or_else(r.disable_swallow, a.disable_swallow),
        scroller_mfact: or_else(r.scroller_mfact, a.scroller_mfact),
    }
}

/// The settings that the rules give a window: the rules are applied in
/// order, so for each setting the last matching rule that sets it wins.
pub open spec fn spec_apply_rules(rules: Seq<Rule>, app_id: Option<Seq<char>>, title: Option<Seq<char>>) -> AppliedRules
    decreases rules.len(),
{
    if rules.len() == 0 {
        no_rules()
    } else {
        let before = spec_apply_rules(rules.drop_last(), app_id, title);
        if rule_matches(rules.last(), app_id, title) {
            overlay(before, rules.last())
        } else {
            before
        }
    }
}

/// Apply matching rules to a window
pub fn apply_rules(rules: &[Rule], app_id: Option<&str>, title: Option<&str>) -> (applied: AppliedRules)
    ensures
        applied == spec_apply_rules(rules@, opt_view(app_id), opt_view(title)),
{
    let mut applied = AppliedRules::default();
    let n = rules.len();
    let mut i: usize = 0;
    while i < n
        invariant
            n == rules@.len(),
            0 <= i <= n,
            applied == spec_apply_rules(rules@.subrange(0, i as int), opt_view(app_id), opt_view(title)),
        decreases n - i,
    {
        let rule = &rules[i];
        proof {
            assert(rules@.subrange(0, i + 1).drop_last() == rules@.subrange(0, i as int));
            assert(rules@.subrange(0, i + 1).last() == rules@[i as int]);
        }
        if rule.matches(app_id, title) {
            if let Some(tag) = rule.tag {
                applied.tag = Some(tag);
            }
            if let Some(floating) = rule.floating {
                applied.floating = Some(floating);
            }
            if let Some(decoration) = rule.decoration {
                applied.decoration = Some(decoration);
            }
            if let Some(is_terminal) = rule.is_terminal {
                applied.is_terminal = Some(is_terminal);
            }
            if let Some(disable_swallow) = rule.disable_swallow {
                applied.disable_swallow = Some(disable_swallow);
            }
            if let Some(mfact) = rule.scroller_mfact {
                applied.scroller_mfact = Some(mfact);
            }
        }
        i = i + 1;
    }
    proof {
        assert(rules@.subrange(0, n as int) == rules@);
    }
    applied
}

/// A setting is given by some matching rule exactly when the applied
/// settings hold one, and then it is the value of the last such rule.
pub proof fn lemma_last_matching_tag_wins(rules: Seq<Rule>, app_id: Option<Seq<char>>, title: Option<Seq<char>>)
    ensures
        spec_apply_rules(rules, app_id, title).tag is None <==> (forall|i: int|
            0 <= i < rules.len() && rule_matches(#[trigger] rules[i], app_id, title) ==> rules[i].tag is None),
        spec_apply_rules(rules, app_id, title).tag matches Some(t) ==> exists|i: int|
            0 <= i < rules.len() && rule_matches(#[trigger] rules[i], app_id, title) && rules[i].tag == Some(t)
                && forall|j: int| i < j < rules.len() && rule_matches(#[trigger] rules[j], app_id, title) ==> rules[j].tag is None,
    decreases rules.len(),
{
    if rules.len() > 0 {
        let init = rules.drop_last();
        lemma_last_matching_tag_wins(init, app_id, title);
        let last = rules.len() - 1;
        assert(forall|i: int| 0 <= i < init.len() ==> init[i] == rules[i]);
        if rule_matches(rules.last(), app_id, title) && rules.last().tag.is_some() {
            assert(rules[last] == rules.last());
        } else {
            if let Some(t) = spec_apply_rules(rules, app_id, title).tag {
                let i = choose|i: int|
                    0 <= i < init.len() && rule_matches(#[trigger] init[i], app_id, title) && init[i].tag == Some(t)
                        && forall|j: int| i < j < init.len() && rule_matches(#[trigger] init[j], app_id, title) ==> init[j].tag is None;
                assert(rules[i] == init[i]);
                assert forall|j: int| i < j < rules.len() && rule_matches(#[trigger] rules[j], app_id, title) implies rules[j].tag is None by {
                    if j < last {
                        assert(rules[j] == init[j]);
                    } else {
                        assert(rules[j] == rules.last());
                    }
                }
            }
        }
    }
}

/// What a rule's literal app id and title decide: a rule naming a title
/// does not apply to a window whose title is different or unknown, nor a
/// rule naming an app id to a window whose app id is different or unknown;
/// a rule whose named app id and title are the window's applies, and so
/// does a rule naming only the window's app id, whatever the title.
pub proof fn lemma_rule_literals(r: Rule, app_id: Option<Seq<char>>, title: Option<Seq<char>>)
    ensures
        (r.title matches Some(p) && !(title == Some(p@))) ==> !rule_matches(r, app_id, title),
        (r.app_id matches Some(p) && !(app_id == Some(p@))) ==> !rule_matches(r, app_id, title),
        (r.app_id matches Some(p) && (app_id == Some(p@) && (r.title matches Some(q) && title == Some(q@))))
            ==> rule_matches(r, app_id, title),
        (r.app_id matches Some(p) && app_id == Some(p@) && r.title.is_none() && r.title_regex.is_none())
            ==> rule_matches(r, app_id, title),
{
}

} // verus!

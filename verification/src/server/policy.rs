//! Input policies: rules that deny a task or hold it for approval when its input
//! contains a given text, compared without regard to ASCII case.
use vstd::prelude::*;

use crate::text::{ascii_lower_seq, ascii_lower_str, concat3, concat_str, contains_seq, contains_str};

verus! {

/// What a matching rule does.
#[derive(PartialEq, Eq, Structural, Clone, Copy, Debug)]
pub enum PolicyAction {
    Deny,
    RequireApproval,
}

/// A rule: `action` applies when the input contains `contains`.
#[derive(Debug)]
pub struct PolicyRule {
    pub name: String,
    pub action: PolicyAction,
    pub contains: String,
}

/// The model of a rule.
pub ghost struct RuleView {
    pub name: Seq<char>,
    pub action: PolicyAction,
    pub contains: Seq<char>,
}

impl View for PolicyRule {
    type V = RuleView;

    open spec fn view(&self) -> RuleView {
        RuleView { name: self.name@, action: self.action, contains: self.contains@ }
    }
}

/// The models of a list of rules.
pub open spec fn rules_view(rs: Seq<PolicyRule>) -> Seq<RuleView> {
    rs.map_values(|r: PolicyRule| r@)
}

/// A rule matches when its text is not empty and occurs in the input, ASCII case ignored.
pub open spec fn rule_matches(r: RuleView, input: Seq<char>) -> bool {
    r.contains.len() > 0 && contains_seq(ascii_lower_seq(input), ascii_lower_seq(r.contains))
}

/// What the engine decides for an input.
#[derive(Debug)]
pub enum PolicyDecision {
    Allow,
    RequireApproval { rule: String, reason: String },
    Deny { rule: String, reason: String },
}

/// The model of a decision.
pub ghost enum DecisionView {
    Allow,
    RequireApproval { rule: Seq<char>, reason: Seq<char> },
    Deny { rule: Seq<char>, reason: Seq<char> },
}

impl View for PolicyDecision {
    type V = DecisionView;

    open spec fn view(&self) -> DecisionView {
        match self {
            PolicyDecision::Allow => DecisionView::Allow,
            PolicyDecision::RequireApproval { rule, reason } => DecisionView::RequireApproval {
                rule: rule@,
                reason: reason@,
            },
            PolicyDecision::Deny { rule, reason } => DecisionView::Deny {
                rule: rule@,
                reason: reason@,
            },
        }
    }
}

/// The reason a rule gives: `rule '<name>' matched '<text>'`.
pub open spec fn reason_spec(r: RuleView) -> Seq<char> {
    "rule '"@ + r.name + "' matched '"@ + r.contains + "'"@
}

/// The decision of a rule that matched.
pub open spec fn decision_of(r: RuleView) -> DecisionView {
    match r.action {
        PolicyAction::Deny => DecisionView::Deny { rule: r.name, reason: reason_spec(r) },
        PolicyAction::RequireApproval => DecisionView::RequireApproval {
            rule: r.name,
            reason: reason_spec(r),
        },
    }
}

/// The first rule that matches decides; with none, the input is allowed.
pub open spec fn decide(rules: Seq<RuleView>, input: Seq<char>) -> DecisionView
    decreases rules.len(),
{
    if rules.len() == 0 {
        DecisionView::Allow
    } else if rule_matches(rules[0], input) {
        decision_of(rules[0])
    } else {
        decide(rules.drop_first(), input)
    }
}

impl PolicyRule {
    /// A rule that denies inputs containing `needle`.
    pub fn deny_contains(name: String, needle: String) -> (r: PolicyRule)
        ensures
            r@ == (RuleView { name: name@, action: PolicyAction::Deny, contains: needle@ }),
    {
        PolicyRule { name, action: PolicyAction::Deny, contains: needle }
    }

    /// A rule that holds inputs containing `needle` for approval.
    pub fn require_approval_contains(name: String, needle: String) -> (r: PolicyRule)
        ensures
            r@ == (RuleView {
                name: name@,
                action: PolicyAction::RequireApproval,
                contains: needle@,
            }),
    {
        PolicyRule { name, action: PolicyAction::RequireApproval, contains: needle }
    }

    /// Whether the rule applies to `input`.
    pub fn matches(&self, input: &str) -> (b: bool)
        ensures
            b == rule_matches(self@, input@),
    {
        let haystack = ascii_lower_str(input);
        let needle = ascii_lower_str(self.contains.as_str());
        assert(needle@.len() == self@.contains.len());
        needle.as_str().unicode_len() != 0 && contains_str(haystack.as_str(), needle.as_str())
    }

    /// A deep copy of the rule.
    pub fn duplicate(&self) -> (r: PolicyRule)
        ensures
            r@ == self@,
    {
        PolicyRule { name: self.name.clone(), action: self.action, contains: self.contains.clone() }
    }
}

/// An ordered list of rules.
#[derive(Debug)]
pub struct PolicyEngine {
    pub rules: Vec<PolicyRule>,
}

impl PolicyEngine {
    /// An engine with no rules: every input is allowed.
    pub fn new() -> (e: PolicyEngine)
        ensures
            e.rules@.len() == 0,
    {
        PolicyEngine { rules: Vec::new() }
    }

    /// The same engine with `rule` added after the existing rules.
    pub fn with_rule(self, rule: PolicyRule) -> (e: PolicyEngine)
        ensures
            rules_view(e.rules@) == rules_view(self.rules@).push(rule@),
    {
        let mut rules = self.rules;
        let ghost before = rules@;
        rules.push(rule);
        assert(rules_view(rules@) =~= rules_view(before).push(rule@));
        PolicyEngine { rules }
    }

    /// The decision of the first rule that matches `input`, or `Allow`.
    pub fn evaluate(&self, input: &str) -> (d: PolicyDecision)
        ensures
            d@ == decide(rules_view(self.rules@), input@),
    {
        let ghost rs = rules_view(self.rules@);
        let mut i: usize = 0;
        assert(rs.skip(0) =~= rs);
        while i < self.rules.len()
            invariant
                rs == rules_view(self.rules@),
                i <= self.rules@.len(),
                decide(rs, input@) == decide(rs.skip(i as int), input@),
            decreases self.rules@.len() - i,
        {
            let rule = &self.rules[i];
            let ghost rest = rs.skip(i as int);
            assert(rest[0] == rule@);
            if rule.matches(input) {
                let a = concat3("rule '", rule.name.as_str(), "' matched '");
                let b = concat3(a.as_str(), rule.contains.as_str(), "'");
                return match rule.action {
                    PolicyAction::Deny => PolicyDecision::Deny { rule: rule.name.clone(), reason: b },
                    PolicyAction::RequireApproval => PolicyDecision::RequireApproval {
                        rule: rule.name.clone(),
                        reason: b,
                    },
                };
            }
            assert(rest.drop_first() =~= rs.skip(i + 1));
            i = i + 1;
        }
        assert(rs.skip(i as int) =~= Seq::<RuleView>::empty());
        PolicyDecision::Allow
    }
}

/// Lower-casing ASCII letters twice is the same as once.
proof fn lemma_ascii_lower_idempotent(s: Seq<char>)
    ensures
        ascii_lower_seq(ascii_lower_seq(s)) == ascii_lower_seq(s),
{
    assert(ascii_lower_seq(ascii_lower_seq(s)) =~= ascii_lower_seq(s));
}

/// Policies ignore ASCII case: an input and its lower-case form get the same decision.
pub proof fn lemma_policy_ignores_ascii_case(rules: Seq<RuleView>, input: Seq<char>)
    ensures
        decide(rules, input) == decide(rules, ascii_lower_seq(input)),
    decreases rules.len(),
{
    lemma_ascii_lower_idempotent(input);
    if rules.len() > 0 {
        lemma_policy_ignores_ascii_case(rules.drop_first(), input);
    }
}

/// An input is allowed exactly when no rule matches it; otherwise the first rule that
/// matches decides.
pub proof fn lemma_policy_first_match(rules: Seq<RuleView>, input: Seq<char>)
    ensures
        (decide(rules, input) == DecisionView::Allow) <==> (forall|i: int|
            0 <= i < rules.len() ==> !rule_matches(#[trigger] rules[i], input)),
        forall|i: int|
            0 <= i < rules.len() && rule_matches(#[trigger] rules[i], input) && (forall|j: int|
                0 <= j < i ==> !rule_matches(#[trigger] rules[j], input)) ==> decide(rules, input)
                == decision_of(rules[i]),
    decreases rules.len(),
{
    if rules.len() > 0 {
        lemma_policy_first_match(rules.drop_first(), input);
        assert forall|i: int| 1 <= i < rules.len() implies rules.drop_first()[i - 1] == rules[i] by {}
        if !rule_matches(rules[0], input) {
            assert forall|i: int| 0 <= i < rules.len() && rule_matches(#[trigger] rules[i], input)
                && (forall|j: int| 0 <= j < i ==> !rule_matches(#[trigger] rules[j], input))
                implies decide(rules, input) == decision_of(rules[i]) by {
                assert(rules.drop_first()[i - 1] == rules[i]);
                assert forall|j: int| 0 <= j < i - 1 implies !rule_matches(
                    #[trigger] rules.drop_first()[j],
                    input,
                ) by {
                    assert(rules.drop_first()[j] == rules[j + 1]);
                }
            }
            if decide(rules, input) == DecisionView::Allow {
                assert forall|i: int| 0 <= i < rules.len() implies !rule_matches(
                    #[trigger] rules[i],
                    input,
                ) by {
                    if i > 0 {
                        assert(rules.drop_first()[i - 1] == rules[i]);
                    }
                }
            }
        } else {
            match rules[0].action {
                PolicyAction::Deny => {},
                PolicyAction::RequireApproval => {},
            }
        }
    }
}

/// Adding a rule at the end never changes a decision already made by an earlier rule.
pub proof fn lemma_policy_new_rule_is_last(rules: Seq<RuleView>, rule: RuleView, input: Seq<char>)
    ensures
        decide(rules, input) != DecisionView::Allow ==> decide(rules.push(rule), input) == decide(
            rules,
            input,
        ),
        decide(rules, input) == DecisionView::Allow ==> decide(rules.push(rule), input) == decide(
            seq![rule],
            input,
        ),
    decreases rules.len(),
{
    if rules.len() > 0 {
        assert(rules.push(rule).drop_first() =~= rules.drop_first().push(rule));
        lemma_policy_new_rule_is_last(rules.drop_first(), rule, input);
    } else {
        assert(rules.push(rule) =~= seq![rule]);
    }
}

} // verus!

//! Business rules for anti-money-laundering checks and transaction limits:
//! conditions on a transaction and the actions to take when they hold.
use vstd::prelude::*;
use crate::decimal::Amount;
use crate::text::str_eq;
use super::event::{opt_view, AmlFlag};

verus! {

/// The facts about a transaction that rules look at.
#[derive(Debug)]
pub struct TransactionContext {
    /// The amount
    pub amount: Option<Amount>,
    /// The currency code
    pub currency: Option<String>,
    /// The transaction type
    pub tx_type: Option<String>,
    /// The ISO country code
    pub location: Option<String>,
    /// The IP address
    pub ip_address: Option<String>,
    /// The actor
    pub actor_id: Option<String>,
    /// The account
    pub account_id: Option<String>,
}

impl TransactionContext {
    /// A context with nothing known.
    pub fn new() -> (r: TransactionContext)
        ensures
            r.amount is None,
            r.currency is None,
            r.tx_type is None,
            r.location is None,
            r.ip_address is None,
            r.actor_id is None,
            r.account_id is None,
    {
        TransactionContext {
            amount: None,
            currency: None,
            tx_type: None,
            location: None,
            ip_address: None,
            actor_id: None,
            account_id: None,
        }
    }

    /// The context with an amount and its currency.
    pub fn with_amount(self, amount: Amount, currency: &str) -> (r: TransactionContext)
        ensures
            r.amount == Some(amount),
            opt_view(r.currency) == Some(currency@),
            r.tx_type == self.tx_type,
            r.location == self.location,
            r.ip_address == self.ip_address,
            r.actor_id == self.actor_id,
            r.account_id == self.account_id,
    {
        TransactionContext { amount: Some(amount), currency: Some(currency.to_string()), ..self }
    }

    /// The context with a country code.
    pub fn with_location(self, location: &str) -> (r: TransactionContext)
        ensures
            opt_view(r.location) == Some(location@),
            r.amount == self.amount,
            r.currency == self.currency,
            r.tx_type == self.tx_type,
            r.ip_address == self.ip_address,
            r.actor_id == self.actor_id,
            r.account_id == self.account_id,
    {
        TransactionContext { location: Some(location.to_string()), ..self }
    }

    /// The context with a transaction type.
    pub fn with_tx_type(self, tx_type: &str) -> (r: TransactionContext)
        ensures
            opt_view(r.tx_type) == Some(tx_type@),
            r.amount == self.amount,
            r.currency == self.currency,
            r.location == self.location,
            r.ip_address == self.ip_address,
            r.actor_id == self.actor_id,
            r.account_id == self.account_id,
    {
        TransactionContext { tx_type: Some(tx_type.to_string()), ..self }
    }

    /// The context with an actor.
    pub fn with_actor(self, actor_id: &str) -> (r: TransactionContext)
        ensures
            opt_view(r.actor_id) == Some(actor_id@),
            r.amount == self.amount,
            r.currency == self.currency,
            r.tx_type == self.tx_type,
            r.location == self.location,
            r.ip_address == self.ip_address,
            r.account_id == self.account_id,
    {
        TransactionContext { actor_id: Some(actor_id.to_string()), ..self }
    }

    /// The context with an account.
    pub fn with_account(self, account_id: &str) -> (r: TransactionContext)
        ensures
            opt_view(r.account_id) == Some(account_id@),
            r.amount == self.amount,
            r.currency == self.currency,
            r.tx_type == self.tx_type,
            r.location == self.location,
            r.ip_address == self.ip_address,
            r.actor_id == self.actor_id,
    {
        TransactionContext { account_id: Some(account_id.to_string()), ..self }
    }
}

/// A condition on a transaction.
#[derive(Debug)]
pub enum RuleCondition {
    /// The amount, in the currency, is above the threshold
    AmountGreaterThan { threshold: Amount, currency: String },
    /// The amount, in the currency, is at least the threshold
    AmountGreaterOrEqual { threshold: Amount, currency: String },
    /// The location is one of the countries
    LocationIn { countries: Vec<String> },
    /// The transaction is of the type
    TransactionType { tx_type: String },
    /// Both conditions hold
    And(Box<RuleCondition>, Box<RuleCondition>),
    /// One of the conditions holds
    Or(Box<RuleCondition>, Box<RuleCondition>),
}

/// Whether a list of strings holds a text.
pub open spec fn texts_contain(xs: Seq<String>, t: Seq<char>) -> bool {
    exists|i: int| 0 <= i < xs.len() && xs[i]@ == t
}

/// Whether an optional string is present with the given text.
pub open spec fn opt_is(o: Option<String>, t: Seq<char>) -> bool {
    match o {
        Some(s) => s@ == t,
        None => false,
    }
}

/// Whether a condition holds of a transaction.
pub open spec fn condition_holds(c: RuleCondition, ctx: TransactionContext) -> bool
    decreases c,
{
    match c {
        RuleCondition::AmountGreaterThan { threshold, currency } =>
            opt_is(ctx.currency, currency@) && (ctx.amount matches Some(a) && a@ > threshold@),
        RuleCondition::AmountGreaterOrEqual { threshold, currency } =>
            opt_is(ctx.currency, currency@) && (ctx.amount matches Some(a) && a@ >= threshold@),
        RuleCondition::LocationIn { countries } =>
            ctx.location matches Some(loc) && texts_contain(countries@, loc@),
        RuleCondition::TransactionType { tx_type } => opt_is(ctx.tx_type, tx_type@),
        RuleCondition::And(l, r) => condition_holds(*l, ctx) && condition_holds(*r, ctx),
        RuleCondition::Or(l, r) => condition_holds(*l, ctx) || condition_holds(*r, ctx),
    }
}

/// A condition combined with `and` holds when both hold; combined with
/// `or`, when either holds.
pub proof fn lemma_combined_conditions(a: RuleCondition, b: RuleCondition, ctx: TransactionContext)
    ensures
        condition_holds(RuleCondition::And(Box::new(a), Box::new(b)), ctx)
            == (condition_holds(a, ctx) && condition_holds(b, ctx)),
        condition_holds(RuleCondition::Or(Box::new(a), Box::new(b)), ctx)
            == (condition_holds(a, ctx) || condition_holds(b, ctx)),
{
}

/// Whether a list of strings holds a string's text.
pub fn contains_text(xs: &Vec<String>, t: &str) -> (r: bool)
    ensures
        r == texts_contain(xs@, t@),
{
    let mut i: usize = 0;
    while i < xs.len()
        invariant
            i <= xs@.len(),
            forall|j: int| 0 <= j < i ==> xs@[j]@ != t@,
        decreases xs@.len() - i,
    {
        if str_eq(xs[i].as_str(), t) {
            return true;
        }
        i = i + 1;
    }
    false
}

/// Whether an optional string is present with a string's text.
fn opt_matches(o: &Option<String>, t: &String) -> (r: bool)
    ensures
        r == opt_is(*o, t@),
{
    match o {
        Some(s) => str_eq(s.as_str(), t.as_str()),
        None => false,
    }
}

impl RuleCondition {
    /// Whether the condition holds of a transaction.
    pub fn evaluate(&self, ctx: &TransactionContext) -> (r: bool)
        ensures
            r == condition_holds(*self, *ctx),
        decreases self,
    {
        match self {
            RuleCondition::AmountGreaterThan { threshold, currency } => {
                opt_matches(&ctx.currency, currency) && match &ctx.amount {
                    Some(a) => threshold.less_than(a),
                    None => false,
                }
            },
            RuleCondition::AmountGreaterOrEqual { threshold, currency } => {
                opt_matches(&ctx.currency, currency) && match &ctx.amount {
                    Some(a) => threshold.at_most(a),
                    None => false,
                }
            },
            RuleCondition::LocationIn { countries } => {
                match &ctx.location {
                    Some(loc) => contains_text(countries, loc.as_str()),
                    None => false,
                }
            },
            RuleCondition::TransactionType { tx_type } => opt_matches(&ctx.tx_type, tx_type),
            RuleCondition::And(left, right) => left.evaluate(ctx) && right.evaluate(ctx),
            RuleCondition::Or(left, right) => left.evaluate(ctx) || right.evaluate(ctx),
        }
    }

    /// Both this condition and another.
    pub fn and(self, other: RuleCondition) -> (r: RuleCondition)
        ensures
            r == RuleCondition::And(Box::new(self), Box::new(other)),
    {
        RuleCondition::And(Box::new(self), Box::new(other))
    }

    /// This condition or another.
    pub fn or(self, other: RuleCondition) -> (r: RuleCondition)
        ensures
            r == RuleCondition::Or(Box::new(self), Box::new(other)),
    {
        RuleCondition::Or(Box::new(self), Box::new(other))
    }
}

/// What to do when a rule's condition holds.
#[derive(Debug)]
pub enum RuleAction {
    /// Flag the transaction for review, with a flag's code
    FlagAml(String),
    /// Ask for a manager's approval
    RequireApproval,
    /// Block the transaction
    Block,
    /// Send a notification
    Notify(String),
    /// Several actions
    Multiple(Vec<RuleAction>),
}

/// The flag that a flag code names, among those a rule can raise.
pub open spec fn rule_flag_of(code: Seq<char>) -> Option<AmlFlag> {
    if code == "large_amount"@ {
        Some(AmlFlag::LargeAmount)
    } else if code == "near_threshold"@ {
        Some(AmlFlag::NearThreshold)
    } else if code == "unusual_pattern"@ {
        Some(AmlFlag::UnusualPattern)
    } else if code == "high_risk_country"@ {
        Some(AmlFlag::HighRiskCountry)
    } else if code == "cross_border"@ {
        Some(AmlFlag::CrossBorder)
    } else {
        None
    }
}

/// The flag an action raises, if any.
pub open spec fn action_flag(a: RuleAction) -> Option<AmlFlag> {
    match a {
        RuleAction::FlagAml(code) => rule_flag_of(code@),
        _ => None,
    }
}

impl RuleAction {
    /// The flag the action raises: for `FlagAml`, the flag its code names
    /// (one of large_amount, near_threshold, unusual_pattern,
    /// high_risk_country, cross_border); none otherwise.
    pub fn to_aml_flag(&self) -> (r: Option<AmlFlag>)
        ensures
            r == action_flag(*self),
    {
        match self {
            RuleAction::FlagAml(flag) => {
                let f = flag.as_str();
                proof {
                    reveal_strlit("large_amount");
                    reveal_strlit("near_threshold");
                    reveal_strlit("unusual_pattern");
                    reveal_strlit("high_risk_country");
                    reveal_strlit("cross_border");
                }
                if str_eq(f, "large_amount") {
                    Some(AmlFlag::LargeAmount)
                } else if str_eq(f, "near_threshold") {
                    Some(AmlFlag::NearThreshold)
                } else if str_eq(f, "unusual_pattern") {
                    Some(AmlFlag::UnusualPattern)
                } else if str_eq(f, "high_risk_country") {
                    Some(AmlFlag::HighRiskCountry)
                } else if str_eq(f, "cross_border") {
                    Some(AmlFlag::CrossBorder)
                } else {
                    None
                }
            },
            _ => None,
        }
    }
}

/// A named rule: a condition and the action taken when it holds.
#[derive(Debug)]
pub struct Rule {
    /// The name
    pub name: String,
    /// The condition
    pub condition: RuleCondition,
    /// The action
    pub action: RuleAction,
}

impl Rule {
    /// A rule.
    pub fn new(name: &str, condition: RuleCondition, action: RuleAction) -> (r: Rule)
        ensures
            r.name@ == name@,
            r.condition == condition,
            r.action == action,
    {
        Rule { name: name.to_string(), condition, action }
    }

    /// Whether the rule's condition holds of a transaction.
    pub fn matches(&self, ctx: &TransactionContext) -> (r: bool)
        ensures
            r == condition_holds(self.condition, *ctx),
    {
        self.condition.evaluate(ctx)
    }

    /// The action taken when the rule matches.
    pub fn action(&self) -> (r: &RuleAction)
        ensures
            *r == self.action,
    {
        &self.action
    }
}

/// A rule under construction.
#[derive(Debug)]
pub struct RuleBuilder {
    name: String,
    condition: Option<RuleCondition>,
    action: Option<RuleAction>,
}

impl RuleBuilder {
    /// The name given so far.
    pub closed spec fn name_text(&self) -> Seq<char> {
        self.name@
    }

    /// The condition given so far.
    pub closed spec fn condition_given(&self) -> Option<RuleCondition> {
        self.condition
    }

    /// The action given so far.
    pub closed spec fn action_given(&self) -> Option<RuleAction> {
        self.action
    }

    /// A rule with a name and nothing else yet.
    pub fn new(name: &str) -> (r: RuleBuilder)
        ensures
            r.name_text() == name@,
            r.condition_given() is None,
            r.action_given() is None,
    {
        RuleBuilder { name: name.to_string(), condition: None, action: None }
    }

    /// The rule's condition.
    pub fn when(self, condition: RuleCondition) -> (r: RuleBuilder)
        ensures
            r.name_text() == self.name_text(),
            r.condition_given() == Some(condition),
            r.action_given() == self.action_given(),
    {
        RuleBuilder { condition: Some(condition), ..self }
    }

    /// The rule's action.
    pub fn then(self, action: RuleAction) -> (r: RuleBuilder)
        ensures
            r.name_text() == self.name_text(),
            r.condition_given() == self.condition_given(),
            r.action_given() == Some(action),
    {
        RuleBuilder { action: Some(action), ..self }
    }

    /// The rule; it must have a condition and an action.
    pub fn build(self) -> (r: Rule)
        requires
            self.condition_given() is Some,
            self.action_given() is Some,
        ensures
            r.name@ == self.name_text(),
            Some(r.condition) == self.condition_given(),
            Some(r.action) == self.action_given(),
    {
        match (self.condition, self.action) {
            (Some(condition), Some(action)) => Rule { name: self.name, condition, action },
            _ => {
                proof { assert(false); }
                Rule { name: self.name, condition: RuleCondition::And(Box::new(RuleCondition::TransactionType { tx_type: String::new() }), Box::new(RuleCondition::TransactionType { tx_type: String::new() })), action: RuleAction::Block }
            },
        }
    }
}

/// The actions of the rules that match, in the rules' order.
pub open spec fn matching_actions(rules: Seq<Rule>, ctx: TransactionContext) -> Seq<RuleAction>
    decreases rules.len(),
{
    if rules.len() == 0 {
        Seq::empty()
    } else {
        let rest = matching_actions(rules.drop_last(), ctx);
        if condition_holds(rules.last().condition, ctx) {
            rest.push(rules.last().action)
        } else {
            rest
        }
    }
}

/// The flags raised by a list of actions, in order.
pub open spec fn actions_flags(actions: Seq<RuleAction>) -> Seq<AmlFlag>
    decreases actions.len(),
{
    if actions.len() == 0 {
        Seq::empty()
    } else {
        let rest = actions_flags(actions.drop_last());
        match action_flag(actions.last()) {
            Some(f) => rest.push(f),
            None => rest,
        }
    }
}

/// A set of rules evaluated together, in order.
#[derive(Debug)]
pub struct RuleSet {
    rules: Vec<Rule>,
}

impl RuleSet {
    /// The rules, in order.
    pub closed spec fn rules(&self) -> Seq<Rule> {
        self.rules@
    }

    /// An empty set of rules.
    pub fn new() -> (r: RuleSet)
        ensures
            r.rules().len() == 0,
    {
        RuleSet { rules: Vec::new() }
    }

    /// The set with one more rule, after the others.
    pub fn add(self, rule: Rule) -> (r: RuleSet)
        ensures
            r.rules() == self.rules().push(rule),
    {
        let mut rules = self.rules;
        rules.push(rule);
        RuleSet { rules }
    }

    /// The actions of the rules that match a transaction, in order.
    pub fn evaluate(&self, ctx: &TransactionContext) -> (r: Vec<&RuleAction>)
        ensures
            r@.len() == matching_actions(self.rules(), *ctx).len(),
            forall|i: int| 0 <= i < r@.len() ==> *r@[i] == #[trigger] matching_actions(self.rules(), *ctx)[i],
    {
        let mut out: Vec<&RuleAction> = Vec::new();
        let mut i: usize = 0;
        while i < self.rules.len()
            invariant
                i <= self.rules@.len(),
                out@.len() == matching_actions(self.rules@.subrange(0, i as int), *ctx).len(),
                forall|j: int| 0 <= j < out@.len()
                    ==> *out@[j] == #[trigger] matching_actions(self.rules@.subrange(0, i as int), *ctx)[j],
            decreases self.rules@.len() - i,
        {
            let ghost prefix = self.rules@.subrange(0, i as int + 1);
            assert(prefix.drop_last() == self.rules@.subrange(0, i as int));
            if self.rules[i].matches(ctx) {
                out.push(self.rules[i].action());
            }
            i = i + 1;
        }
        assert(self.rules@.subrange(0, self.rules@.len() as int) == self.rules@);
        out
    }

    /// Whether a matching rule blocks the transaction.
    pub fn is_blocked(&self, ctx: &TransactionContext) -> (r: bool)
        ensures
            r == exists|i: int| 0 <= i < matching_actions(self.rules(), *ctx).len()
                && #[trigger] matching_actions(self.rules(), *ctx)[i] is Block,
    {
        let actions = self.evaluate(ctx);
        let mut i: usize = 0;
        while i < actions.len()
            invariant
                i <= actions@.len(),
                actions@.len() == matching_actions(self.rules(), *ctx).len(),
                forall|j: int| 0 <= j < actions@.len() ==> *actions@[j] == #[trigger] matching_actions(self.rules(), *ctx)[j],
                forall|j: int| 0 <= j < i ==> !(matching_actions(self.rules(), *ctx)[j] is Block),
            decreases actions@.len() - i,
        {
            if let RuleAction::Block = actions[i] {
                assert(*actions@[i as int] == matching_actions(self.rules(), *ctx)[i as int]);
                return true;
            }
            i = i + 1;
        }
        false
    }

    /// Whether a matching rule asks for approval.
    pub fn requires_approval(&self, ctx: &TransactionContext) -> (r: bool)
        ensures
            r == exists|i: int| 0 <= i < matching_actions(self.rules(), *ctx).len()
                && #[trigger] matching_actions(self.rules(), *ctx)[i] is RequireApproval,
    {
        let actions = self.evaluate(ctx);
        let mut i: usize = 0;
        while i < actions.len()
            invariant
                i <= actions@.len(),
                actions@.len() == matching_actions(self.rules(), *ctx).len(),
                forall|j: int| 0 <= j < actions@.len() ==> *actions@[j] == #[trigger] matching_actions(self.rules(), *ctx)[j],
                forall|j: int| 0 <= j < i ==> !(matching_actions(self.rules(), *ctx)[j] is RequireApproval),
            decreases actions@.len() - i,
        {
            if let RuleAction::RequireApproval = actions[i] {
                assert(*actions@[i as int] == matching_actions(self.rules(), *ctx)[i as int]);
                return true;
            }
            i = i + 1;
        }
        false
    }

    /// The flags raised by the matching rules, in order.
    pub fn get_aml_flags(&self, ctx: &TransactionContext) -> (r: Vec<AmlFlag>)
        ensures
            r@ == actions_flags(matching_actions(self.rules(), *ctx)),
    {
        let actions = self.evaluate(ctx);
        let ghost m = matching_actions(self.rules(), *ctx);
        let mut flags: Vec<AmlFlag> = Vec::new();
        let mut i: usize = 0;
        while i < actions.len()
            invariant
                i <= actions@.len(),
                actions@.len() == m.len(),
                forall|j: int| 0 <= j < actions@.len() ==> *actions@[j] == #[trigger] m[j],
                flags@ == actions_flags(m.subrange(0, i as int)),
            decreases actions@.len() - i,
        {
            assert(m.subrange(0, i as int + 1).drop_last() == m.subrange(0, i as int));
            assert(*actions@[i as int] == m[i as int]);
            match actions[i].to_aml_flag() {
                Some(f) => flags.push(f),
                None => {},
            }
            i = i + 1;
        }
        assert(m.subrange(0, m.len() as int) == m);
        flags
    }
}

} // verus!

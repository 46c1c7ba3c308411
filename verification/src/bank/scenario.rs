//! Banking scenarios: blocks of operations, one block per stakeholder, to
//! be run against the business layer.
use vstd::prelude::*;
use vstd::string::StringExecFns;
use crate::decimal::{decimal_text, Amount};
use crate::text::{concat_str, debug_list_text, debug_strings, texts};
use super::wallet::{wallet_type_name, WalletType};

verus! {

/// A customer's operation.
#[derive(Debug)]
pub enum CustomerOp {
    /// Money in, to a wallet
    Deposit { amount: Amount, currency: String, to_wallet: WalletType },
    /// Money out, from a wallet
    Withdraw { amount: Amount, currency: String, from_wallet: WalletType },
    /// Money between two wallets
    Transfer { amount: Amount, currency: String, from_wallet: WalletType, to_wallet: WalletType },
}

/// An employee's operation.
#[derive(Debug)]
pub enum EmployeeOp {
    /// A salary received
    ReceiveSalary { amount: Amount, currency: String },
    /// An insurance plan bought
    BuyInsurance { plan: String, cost: Amount, currency: String },
}

/// A shareholder's operation.
#[derive(Debug)]
pub enum ShareholderOp {
    /// A dividend received
    ReceiveDividend { amount: Amount, currency: String },
}

/// A manager's operation.
#[derive(Debug)]
pub enum ManagerOp {
    /// A salary paid to an employee's account
    PaySalary { employee_account: String, amount: Amount, currency: String },
    /// A bonus paid to an employee's account, with a reason
    PayBonus { employee_account: String, amount: Amount, currency: String, reason: String },
    /// A dividend paid to a shareholder's account
    PayDividend { shareholder_account: String, amount: Amount, currency: String },
}

/// An auditor's operation.
#[derive(Debug)]
pub enum AuditorOp {
    /// A scan of the transactions over a range of dates, for flags
    Scan { from_date: Option<String>, to_date: Option<String>, flags: Vec<String> },
    /// A report in a format
    Report { format: String },
}

/// The operations of one stakeholder.
#[derive(Debug)]
pub enum StakeholderBlock {
    Customer { name: String, operations: Vec<CustomerOp> },
    Employee { name: String, operations: Vec<EmployeeOp> },
    Shareholder { name: String, operations: Vec<ShareholderOp> },
    Manager { name: String, operations: Vec<ManagerOp> },
    Auditor { name: String, operations: Vec<AuditorOp> },
}

/// An operation that describes itself in words.
pub trait Operation {
    /// A one-line description.
    fn description(&self) -> String;
}

/// "<amount> <currency>".
pub open spec fn money_text(amount: Amount, currency: Seq<char>) -> Seq<char> {
    decimal_text(amount.parts()) + " "@ + currency
}

/// The description of a customer's operation.
pub open spec fn customer_op_text(op: CustomerOp) -> Seq<char> {
    match op {
        CustomerOp::Deposit { amount, currency, to_wallet } =>
            "Deposit "@ + money_text(amount, currency@) + " to "@ + wallet_type_name(to_wallet),
        CustomerOp::Withdraw { amount, currency, from_wallet } =>
            "Withdraw "@ + money_text(amount, currency@) + " from "@ + wallet_type_name(from_wallet),
        CustomerOp::Transfer { amount, currency, from_wallet, to_wallet } =>
            "Transfer "@ + money_text(amount, currency@) + " from "@ + wallet_type_name(from_wallet)
                + " to "@ + wallet_type_name(to_wallet),
    }
}

/// The description of an employee's operation.
pub open spec fn employee_op_text(op: EmployeeOp) -> Seq<char> {
    match op {
        EmployeeOp::ReceiveSalary { amount, currency } => "Receive salary "@ + money_text(amount, currency@),
        EmployeeOp::BuyInsurance { plan, cost, currency } =>
            "Buy insurance '"@ + plan@ + "' for "@ + money_text(cost, currency@),
    }
}

/// The description of a shareholder's operation.
pub open spec fn shareholder_op_text(op: ShareholderOp) -> Seq<char> {
    match op {
        ShareholderOp::ReceiveDividend { amount, currency } => "Receive dividend "@ + money_text(amount, currency@),
    }
}

/// The description of a manager's operation.
pub open spec fn manager_op_text(op: ManagerOp) -> Seq<char> {
    match op {
        ManagerOp::PaySalary { employee_account, amount, currency } =>
            "Pay salary "@ + money_text(amount, currency@) + " to "@ + employee_account@,
        ManagerOp::PayBonus { employee_account, amount, currency, reason } =>
            "Pay bonus "@ + money_text(amount, currency@) + " to "@ + employee_account@ + " ("@ + reason@ + ")"@,
        ManagerOp::PayDividend { shareholder_account, amount, currency } =>
            "Pay dividend "@ + money_text(amount, currency@) + " to "@ + shareholder_account@,
    }
}

/// The range of dates a scan covers, in words.
pub open spec fn date_range_text(from_date: Option<String>, to_date: Option<String>) -> Seq<char> {
    match (from_date, to_date) {
        (Some(from), Some(to)) => "from "@ + from@ + " to "@ + to@,
        (Some(from), None) => "from "@ + from@,
        _ => "all time"@,
    }
}

/// The description of an auditor's operation.
pub open spec fn auditor_op_text(op: AuditorOp) -> Seq<char> {
    match op {
        AuditorOp::Scan { from_date, to_date, flags } =>
            "Scan transactions "@ + date_range_text(from_date, to_date) + " with flags "@
                + debug_list_text(texts(flags@)),
        AuditorOp::Report { format } => "Generate "@ + format@ + " report"@,
    }
}

/// Appends "<amount> <currency>".
fn push_money(s: &mut String, amount: &Amount, currency: &String)
    ensures
        final(s)@ == old(s)@ + money_text(*amount, currency@),
{
    proof { reveal_strlit(" "); }
    s.append(amount.to_text().as_str());
    s.append(" ");
    s.append(currency.as_str());
}

impl Operation for CustomerOp {
    fn description(&self) -> (r: String)
        ensures
            r@ == customer_op_text(*self),
    {
        proof {
            reveal_strlit("Deposit ");
            reveal_strlit("Withdraw ");
            reveal_strlit("Transfer ");
            reveal_strlit(" to ");
            reveal_strlit(" from ");
        }
        match self {
            CustomerOp::Deposit { amount, currency, to_wallet } => {
                let mut s = String::from_str("Deposit ");
                push_money(&mut s, amount, currency);
                s.append(" to ");
                s.append(to_wallet.name());
                s
            },
            CustomerOp::Withdraw { amount, currency, from_wallet } => {
                let mut s = String::from_str("Withdraw ");
                push_money(&mut s, amount, currency);
                s.append(" from ");
                s.append(from_wallet.name());
                s
            },
            CustomerOp::Transfer { amount, currency, from_wallet, to_wallet } => {
                let mut s = String::from_str("Transfer ");
                push_money(&mut s, amount, currency);
                s.append(" from ");
                s.append(from_wallet.name());
                s.append(" to ");
                s.append(to_wallet.name());
                s
            },
        }
    }
}

impl Operation for EmployeeOp {
    fn description(&self) -> (r: String)
        ensures
            r@ == employee_op_text(*self),
    {
        proof {
            reveal_strlit("Receive salary ");
            reveal_strlit("Buy insurance '");
            reveal_strlit("' for ");
        }
        match self {
            EmployeeOp::ReceiveSalary { amount, currency } => {
                let mut s = String::from_str("Receive salary ");
                push_money(&mut s, amount, currency);
                s
            },
            EmployeeOp::BuyInsurance { plan, cost, currency } => {
                let mut s = concat_str("Buy insurance '", plan.as_str());
                s.append("' for ");
                push_money(&mut s, cost, currency);
                s
            },
        }
    }
}

impl Operation for ShareholderOp {
    fn description(&self) -> (r: String)
        ensures
            r@ == shareholder_op_text(*self),
    {
        proof { reveal_strlit("Receive dividend "); }
        match self {
            ShareholderOp::ReceiveDividend { amount, currency } => {
                let mut s = String::from_str("Receive dividend ");
                push_money(&mut s, amount, currency);
                s
            },
        }
    }
}

impl Operation for ManagerOp {
    fn description(&self) -> (r: String)
        ensures
            r@ == manager_op_text(*self),
    {
        proof {
            reveal_strlit("Pay salary ");
            reveal_strlit("Pay bonus ");
            reveal_strlit("Pay dividend ");
            reveal_strlit(" to ");
            reveal_strlit(" (");
            reveal_strlit(")");
        }
        match self {
            ManagerOp::PaySalary { employee_account, amount, currency } => {
                let mut s = String::from_str("Pay salary ");
                push_money(&mut s, amount, currency);
                s.append(" to ");
                s.append(employee_account.as_str());
                s
            },
            ManagerOp::PayBonus { employee_account, amount, currency, reason } => {
                let mut s = String::from_str("Pay bonus ");
                push_money(&mut s, amount, currency);
                s.append(" to ");
                s.append(employee_account.as_str());
                s.append(" (");
                s.append(reason.as_str());
                s.append(")");
                s
            },
            ManagerOp::PayDividend { shareholder_account, amount, currency } => {
                let mut s = String::from_str("Pay dividend ");
                push_money(&mut s, amount, currency);
                s.append(" to ");
                s.append(shareholder_account.as_str());
                s
            },
        }
    }
}

impl Operation for AuditorOp {
    fn description(&self) -> (r: String)
        ensures
            r@ == auditor_op_text(*self),
    {
        proof {
            reveal_strlit("Scan transactions ");
            reveal_strlit(" with flags ");
            reveal_strlit("from ");
            reveal_strlit(" to ");
            reveal_strlit("all time");
            reveal_strlit("Generate ");
            reveal_strlit(" report");
        }
        match self {
            AuditorOp::Scan { from_date, to_date, flags } => {
                let mut s = String::from_str("Scan transactions ");
                match (from_date, to_date) {
                    (Some(from), Some(to)) => {
                        s.append("from ");
                        s.append(from.as_str());
                        s.append(" to ");
                        s.append(to.as_str());
                    },
                    (Some(from), None) => {
                        s.append("from ");
                        s.append(from.as_str());
                    },
                    _ => {
                        s.append("all time");
                    },
                }
                s.append(" with flags ");
                s.append(debug_strings(flags).as_str());
                s
            },
            AuditorOp::Report { format } => {
                let mut s = concat_str("Generate ", format.as_str());
                s.append(" report");
                s
            },
        }
    }
}

/// A scenario: blocks of operations, in order.
#[derive(Debug)]
pub struct Scenario {
    /// The blocks, in order
    pub blocks: Vec<StakeholderBlock>,
}

impl Scenario {
    /// A scenario of blocks.
    pub fn new(blocks: Vec<StakeholderBlock>) -> (r: Scenario)
        ensures
            r.blocks == blocks,
    {
        Scenario { blocks }
    }

    /// The customers' blocks, in order, as (name, operations).
    pub fn customers(&self) -> (r: Vec<(&str, &Vec<CustomerOp>)>)
        ensures
            r@.len() == customer_blocks(self.blocks@).len(),
            forall|i: int| 0 <= i < r@.len() ==> (r@[i].0@, *r@[i].1) == #[trigger] customer_blocks(self.blocks@)[i],
    {
        let mut out: Vec<(&str, &Vec<CustomerOp>)> = Vec::new();
        let mut i: usize = 0;
        while i < self.blocks.len()
            invariant
                i <= self.blocks@.len(),
                out@.len() == customer_blocks(self.blocks@.subrange(0, i as int)).len(),
                forall|j: int| 0 <= j < out@.len() ==> (out@[j].0@, *out@[j].1)
                    == #[trigger] customer_blocks(self.blocks@.subrange(0, i as int))[j],
            decreases self.blocks@.len() - i,
        {
            assert(self.blocks@.subrange(0, i as int + 1).drop_last() == self.blocks@.subrange(0, i as int));
            if let StakeholderBlock::Customer { name, operations } = &self.blocks[i] {
                out.push((name.as_str(), operations));
            }
            i = i + 1;
        }
        assert(self.blocks@.subrange(0, self.blocks@.len() as int) == self.blocks@);
        out
    }

    /// The employees' blocks, in order, as (name, operations).
    pub fn employees(&self) -> (r: Vec<(&str, &Vec<EmployeeOp>)>)
        ensures
            r@.len() == employee_blocks(self.blocks@).len(),
            forall|i: int| 0 <= i < r@.len() ==> (r@[i].0@, *r@[i].1) == #[trigger] employee_blocks(self.blocks@)[i],
    {
        let mut out: Vec<(&str, &Vec<EmployeeOp>)> = Vec::new();
        let mut i: usize = 0;
        while i < self.blocks.len()
            invariant
                i <= self.blocks@.len(),
                out@.len() == employee_blocks(self.blocks@.subrange(0, i as int)).len(),
                forall|j: int| 0 <= j < out@.len() ==> (out@[j].0@, *out@[j].1)
                    == #[trigger] employee_blocks(self.blocks@.subrange(0, i as int))[j],
            decreases self.blocks@.len() - i,
        {
            assert(self.blocks@.subrange(0, i as int + 1).drop_last() == self.blocks@.subrange(0, i as int));
            if let StakeholderBlock::Employee { name, operations } = &self.blocks[i] {
                out.push((name.as_str(), operations));
            }
            i = i + 1;
        }
        assert(self.blocks@.subrange(0, self.blocks@.len() as int) == self.blocks@);
        out
    }

    /// The auditors' blocks, in order, as (name, operations).
    pub fn auditors(&self) -> (r: Vec<(&str, &Vec<AuditorOp>)>)
        ensures
            r@.len() == auditor_blocks(self.blocks@).len(),
            forall|i: int| 0 <= i < r@.len() ==> (r@[i].0@, *r@[i].1) == #[trigger] auditor_blocks(self.blocks@)[i],
    {
        let mut out: Vec<(&str, &Vec<AuditorOp>)> = Vec::new();
        let mut i: usize = 0;
        while i < self.blocks.len()
            invariant
                i <= self.blocks@.len(),
                out@.len() == auditor_blocks(self.blocks@.subrange(0, i as int)).len(),
                forall|j: int| 0 <= j < out@.len() ==> (out@[j].0@, *out@[j].1)
                    == #[trigger] auditor_blocks(self.blocks@.subrange(0, i as int))[j],
            decreases self.blocks@.len() - i,
        {
            assert(self.blocks@.subrange(0, i as int + 1).drop_last() == self.blocks@.subrange(0, i as int));
            if let StakeholderBlock::Auditor { name, operations } = &self.blocks[i] {
                out.push((name.as_str(), operations));
            }
            i = i + 1;
        }
        assert(self.blocks@.subrange(0, self.blocks@.len() as int) == self.blocks@);
        out
    }

    /// The shareholders' blocks, in order, as (name, operations).
    pub fn shareholders(&self) -> (r: Vec<(&str, &Vec<ShareholderOp>)>)
        ensures
            r@.len() == shareholder_blocks(self.blocks@).len(),
            forall|i: int| 0 <= i < r@.len() ==> (r@[i].0@, *r@[i].1) == #[trigger] shareholder_blocks(self.blocks@)[i],
    {
        let mut out: Vec<(&str, &Vec<ShareholderOp>)> = Vec::new();
        let mut i: usize = 0;
        while i < self.blocks.len()
            invariant
                i <= self.blocks@.len(),
                out@.len() == shareholder_blocks(self.blocks@.subrange(0, i as int)).len(),
                forall|j: int| 0 <= j < out@.len() ==> (out@[j].0@, *out@[j].1)
                    == #[trigger] shareholder_blocks(self.blocks@.subrange(0, i as int))[j],
            decreases self.blocks@.len() - i,
        {
            assert(self.blocks@.subrange(0, i as int + 1).drop_last() == self.blocks@.subrange(0, i as int));
            if let StakeholderBlock::Shareholder { name, operations } = &self.blocks[i] {
                out.push((name.as_str(), operations));
            }
            i = i + 1;
        }
        assert(self.blocks@.subrange(0, self.blocks@.len() as int) == self.blocks@);
        out
    }

    /// The managers' blocks, in order, as (name, operations).
    pub fn managers(&self) -> (r: Vec<(&str, &Vec<ManagerOp>)>)
        ensures
            r@.len() == manager_blocks(self.blocks@).len(),
            forall|i: int| 0 <= i < r@.len() ==> (r@[i].0@, *r@[i].1) == #[trigger] manager_blocks(self.blocks@)[i],
    {
        let mut out: Vec<(&str, &Vec<ManagerOp>)> = Vec::new();
        let mut i: usize = 0;
        while i < self.blocks.len()
            invariant
                i <= self.blocks@.len(),
                out@.len() == manager_blocks(self.blocks@.subrange(0, i as int)).len(),
                forall|j: int| 0 <= j < out@.len() ==> (out@[j].0@, *out@[j].1)
                    == #[trigger] manager_blocks(self.blocks@.subrange(0, i as int))[j],
            decreases self.blocks@.len() - i,
        {
            assert(self.blocks@.subrange(0, i as int + 1).drop_last() == self.blocks@.subrange(0, i as int));
            if let StakeholderBlock::Manager { name, operations } = &self.blocks[i] {
                out.push((name.as_str(), operations));
            }
            i = i + 1;
        }
        assert(self.blocks@.subrange(0, self.blocks@.len() as int) == self.blocks@);
        out
    }
}

/// The customers' blocks of a list, in order, as (name, operations).
pub open spec fn customer_blocks(bs: Seq<StakeholderBlock>) -> Seq<(Seq<char>, Vec<CustomerOp>)>
    decreases bs.len(),
{
    if bs.len() == 0 {
        Seq::empty()
    } else {
        let rest = customer_blocks(bs.drop_last());
        match bs.last() {
            StakeholderBlock::Customer { name, operations } => rest.push((name@, operations)),
            _ => rest,
        }
    }
}

/// The employees' blocks of a list, in order, as (name, operations).
pub open spec fn employee_blocks(bs: Seq<StakeholderBlock>) -> Seq<(Seq<char>, Vec<EmployeeOp>)>
    decreases bs.len(),
{
    if bs.len() == 0 {
        Seq::empty()
    } else {
        let rest = employee_blocks(bs.drop_last());
        match bs.last() {
            StakeholderBlock::Employee { name, operations } => rest.push((name@, operations)),
            _ => rest,
        }
    }
}

/// The auditors' blocks of a list, in order, as (name, operations).
pub open spec fn auditor_blocks(bs: Seq<StakeholderBlock>) -> Seq<(Seq<char>, Vec<AuditorOp>)>
    decreases bs.len(),
{
    if bs.len() == 0 {
        Seq::empty()
    } else {
        let rest = auditor_blocks(bs.drop_last());
        match bs.last() {
            StakeholderBlock::Auditor { name, operations } => rest.push((name@, operations)),
            _ => rest,
        }
    }
}

/// The shareholders' blocks of a list, in order, as (name, operations).
pub open spec fn shareholder_blocks(bs: Seq<StakeholderBlock>) -> Seq<(Seq<char>, Vec<ShareholderOp>)>
    decreases bs.len(),
{
    if bs.len() == 0 {
        Seq::empty()
    } else {
        let rest = shareholder_blocks(bs.drop_last());
        match bs.last() {
            StakeholderBlock::Shareholder { name, operations } => rest.push((name@, operations)),
            _ => rest,
        }
    }
}

/// The managers' blocks of a list, in order, as (name, operations).
pub open spec fn manager_blocks(bs: Seq<StakeholderBlock>) -> Seq<(Seq<char>, Vec<ManagerOp>)>
    decreases bs.len(),
{
    if bs.len() == 0 {
        Seq::empty()
    } else {
        let rest = manager_blocks(bs.drop_last());
        match bs.last() {
            StakeholderBlock::Manager { name, operations } => rest.push((name@, operations)),
            _ => rest,
        }
    }
}

/// A scenario under construction.
#[derive(Debug)]
pub struct ScenarioBuilder {
    blocks: Vec<StakeholderBlock>,
}

impl ScenarioBuilder {
    /// The blocks so far.
    pub closed spec fn blocks(&self) -> Seq<StakeholderBlock> {
        self.blocks@
    }

    /// A scenario with no blocks yet.
    pub fn new() -> (r: ScenarioBuilder)
        ensures
            r.blocks().len() == 0,
    {
        ScenarioBuilder { blocks: Vec::new() }
    }

    /// Adds a customer's block.
    pub fn customer(self, name: &str, operations: Vec<CustomerOp>) -> (r: ScenarioBuilder)
        ensures
            r.blocks().len() == self.blocks().len() + 1,
            r.blocks().drop_last() == self.blocks(),
            r.blocks().last() matches StakeholderBlock::Customer { name: n, operations: ops }
                && n@ == name@ && ops == operations,
    {
        let mut blocks = self.blocks;
        blocks.push(StakeholderBlock::Customer { name: name.to_string(), operations });
        ScenarioBuilder { blocks }
    }

    /// Adds an employee's block.
    pub fn employee(self, name: &str, operations: Vec<EmployeeOp>) -> (r: ScenarioBuilder)
        ensures
            r.blocks().len() == self.blocks().len() + 1,
            r.blocks().drop_last() == self.blocks(),
            r.blocks().last() matches StakeholderBlock::Employee { name: n, operations: ops }
                && n@ == name@ && ops == operations,
    {
        let mut blocks = self.blocks;
        blocks.push(StakeholderBlock::Employee { name: name.to_string(), operations });
        ScenarioBuilder { blocks }
    }

    /// Adds a shareholder's block.
    pub fn shareholder(self, name: &str, operations: Vec<ShareholderOp>) -> (r: ScenarioBuilder)
        ensures
            r.blocks().len() == self.blocks().len() + 1,
            r.blocks().drop_last() == self.blocks(),
            r.blocks().last() matches StakeholderBlock::Shareholder { name: n, operations: ops }
                && n@ == name@ && ops == operations,
    {
        let mut blocks = self.blocks;
        blocks.push(StakeholderBlock::Shareholder { name: name.to_string(), operations });
        ScenarioBuilder { blocks }
    }

    /// Adds a manager's block.
    pub fn manager(self, name: &str, operations: Vec<ManagerOp>) -> (r: ScenarioBuilder)
        ensures
            r.blocks().len() == self.blocks().len() + 1,
            r.blocks().drop_last() == self.blocks(),
            r.blocks().last() matches StakeholderBlock::Manager { name: n, operations: ops }
                && n@ == name@ && ops == operations,
    {
        let mut blocks = self.blocks;
        blocks.push(StakeholderBlock::Manager { name: name.to_string(), operations });
        ScenarioBuilder { blocks }
    }

    /// Adds an auditor's block.
    pub fn auditor(self, name: &str, operations: Vec<AuditorOp>) -> (r: ScenarioBuilder)
        ensures
            r.blocks().len() == self.blocks().len() + 1,
            r.blocks().drop_last() == self.blocks(),
            r.blocks().last() matches StakeholderBlock::Auditor { name: n, operations: ops }
                && n@ == name@ && ops == operations,
    {
        let mut blocks = self.blocks;
        blocks.push(StakeholderBlock::Auditor { name: name.to_string(), operations });
        ScenarioBuilder { blocks }
    }

    /// The scenario, with the blocks in the order they were added.
    pub fn build(self) -> (r: Scenario)
        ensures
            r.blocks@ == self.blocks(),
    {
        Scenario::new(self.blocks)
    }
}

} // verus!

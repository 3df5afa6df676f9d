//! The command layer: which operations each ledger state offers, and a
//! dispatcher that applies one command to the ledger and returns the lines
//! to print, so that an interactive shell holds no logic of its own.

use vstd::prelude::*;

use crate::fixed::{
    format_fixed2, parse_money, parse_percent, spec_fixed2, spec_parse_units, ParseError,
    MAX_AMOUNT_UNITS, MAX_TARGET_BP,
};
use crate::portfolio::{
    adj_views, contains_name, spec_adjustments, spec_after_add, spec_complete, spec_summary,
    spec_total, spec_with_amount, spec_with_target, wf, Adjustment, Portfolio, PortfolioError,
};

verus! {

/// The state of an interactive session, derived from the ledger alone:
/// nothing recorded yet, some asset classes still without a target, or every
/// asset class ready for the exchange computation.
#[derive(Debug, Clone, Copy, PartialEq, Eq, Structural)]
pub enum PortfolioState {
    Empty,
    HasAssets,
    Complete,
}

pub open spec fn spec_state(s: Seq<crate::portfolio::AssetClass>) -> PortfolioState {
    if s.len() == 0 {
        PortfolioState::Empty
    } else if spec_complete(s) {
        PortfolioState::Complete
    } else {
        PortfolioState::HasAssets
    }
}

/// The operations a menu can offer.
#[derive(Debug, Clone, Copy, PartialEq, Eq, Structural)]
pub enum CommandKind {
    AddAssetClass,
    Exit,
    SetAllocation,
    SetTarget,
    CheckPortfolio,
    ComputeExchange,
}

/// Which operations each state offers: adding and leaving always; setting
/// and viewing once an asset class exists; computing once every target is
/// set.
pub open spec fn spec_menu(st: PortfolioState) -> Seq<CommandKind> {
    match st {
        PortfolioState::Empty => seq![CommandKind::AddAssetClass, CommandKind::Exit],
        PortfolioState::HasAssets => seq![
            CommandKind::AddAssetClass,
            CommandKind::Exit,
            CommandKind::SetAllocation,
            CommandKind::SetTarget,
            CommandKind::CheckPortfolio,
        ],
        PortfolioState::Complete => seq![
            CommandKind::AddAssetClass,
            CommandKind::Exit,
            CommandKind::SetAllocation,
            CommandKind::SetTarget,
            CommandKind::CheckPortfolio,
            CommandKind::ComputeExchange,
        ],
    }
}

/// The session state of a ledger.
pub fn portfolio_state(p: &Portfolio) -> (r: PortfolioState)
    ensures
        r == spec_state(p@),
{
    if p.num_allocations() == 0 {
        PortfolioState::Empty
    } else if p.complete() {
        PortfolioState::Complete
    } else {
        PortfolioState::HasAssets
    }
}

/// The operations to offer for the ledger as it stands.
pub fn menu(p: &Portfolio) -> (r: Vec<CommandKind>)
    ensures
        r@ == spec_menu(spec_state(p@)),
{
    let st = portfolio_state(p);
    let mut out: Vec<CommandKind> = Vec::new();
    out.push(CommandKind::AddAssetClass);
    out.push(CommandKind::Exit);
    match st {
        PortfolioState::Empty => {},
        PortfolioState::HasAssets => {
            out.push(CommandKind::SetAllocation);
            out.push(CommandKind::SetTarget);
            out.push(CommandKind::CheckPortfolio);
        },
        PortfolioState::Complete => {
            out.push(CommandKind::SetAllocation);
            out.push(CommandKind::SetTarget);
            out.push(CommandKind::CheckPortfolio);
            out.push(CommandKind::ComputeExchange);
        },
    }
    proof {
        assert(out@ =~= spec_menu(spec_state(p@)));
    }
    out
}

/// One command from the user; numeric arguments arrive as the raw text that
/// was typed.
pub enum Command {
    AddAssetClass { name: String },
    SetAllocation { name: String, amount: String },
    SetTarget { name: String, percent: String },
    CheckPortfolio,
    ComputeExchange,
}

/// Why a command was refused; the ledger is unchanged in every such case.
#[derive(Debug, Clone, Copy, PartialEq, Eq, Structural)]
pub enum CommandError {
    /// The numeric argument was rejected.
    Input(ParseError),
    /// The named asset class does not exist.
    UnknownAssetClass,
    /// Computing an exchange needs at least one asset class and every
    /// target set.
    NotReady,
}

/// The printed form of one adjustment. A positive value is a purchase, any
/// other a sale; the rendering truncates sub-cent remainders, the exact
/// value being the micro-dollar figure itself.
pub open spec fn spec_adjustment_line(name: Seq<char>, micro: int) -> Seq<char> {
    if micro > 0 {
        "Buy $"@ + spec_fixed2((micro / 10_000) as nat) + " of "@ + name
    } else {
        "Sell $"@ + spec_fixed2(((-micro) / 10_000) as nat) + " of "@ + name
    }
}

/// Render one adjustment as a buy or sell line.
pub fn adjustment_line(a: &Adjustment) -> (r: String)
    requires
        a.micro > -170_141_183_460_469_231_731_687_303_715_884_105_727i128,
    ensures
        r@ == spec_adjustment_line(a.name@, a.micro as int),
{
    if a.micro > 0 {
        let mut s: String = "Buy $".to_owned();
        let cell: String = format_fixed2(a.micro / 10_000);
        s.append(cell.as_str());
        s.append(" of ");
        s.append(a.name.as_str());
        proof {
            assert(s@ =~= spec_adjustment_line(a.name@, a.micro as int));
        }
        s
    } else {
        let mut s: String = "Sell $".to_owned();
        let cell: String = format_fixed2((-a.micro) / 10_000);
        s.append(cell.as_str());
        s.append(" of ");
        s.append(a.name.as_str());
        proof {
            assert(s@ =~= spec_adjustment_line(a.name@, a.micro as int));
        }
        s
    }
}

/// Apply one command to the ledger and return the lines to print.
pub fn apply_command(p: &mut Portfolio, cmd: Command) -> (r: Result<Vec<String>, CommandError>)
    requires
        wf(old(p)@),
    ensures
        wf(final(p)@),
        (match cmd {
            Command::AddAssetClass { name } => {
                &&& r matches Ok(lines) && lines@.len() == 0
                &&& final(p)@ == spec_after_add(old(p)@, name)
            },
            Command::SetAllocation { name, amount } => (match spec_parse_units(
                amount@,
                MAX_AMOUNT_UNITS as int,
            ) {
                Result::Ok(u) => {
                    if contains_name(old(p)@, name@) {
                        &&& r matches Ok(lines) && lines@.len() == 0
                        &&& final(p)@ == spec_with_amount(old(p)@, name@, u as i64)
                    } else {
                        &&& r == Result::<Vec<String>, CommandError>::Err(
                            CommandError::UnknownAssetClass,
                        )
                        &&& final(p)@ == old(p)@
                    }
                },
                Result::Err(e) => {
                    &&& r == Result::<Vec<String>, CommandError>::Err(CommandError::Input(e))
                    &&& final(p)@ == old(p)@
                },
            }),
            Command::SetTarget { name, percent } => (match spec_parse_units(
                percent@,
                MAX_TARGET_BP as int,
            ) {
                Result::Ok(u) => {
                    if contains_name(old(p)@, name@) {
                        &&& r matches Ok(lines) && lines@.len() == 0
                        &&& final(p)@ == spec_with_target(old(p)@, name@, u as i64)
                    } else {
                        &&& r == Result::<Vec<String>, CommandError>::Err(
                            CommandError::UnknownAssetClass,
                        )
                        &&& final(p)@ == old(p)@
                    }
                },
                Result::Err(e) => {
                    &&& r == Result::<Vec<String>, CommandError>::Err(CommandError::Input(e))
                    &&& final(p)@ == old(p)@
                },
            }),
            Command::CheckPortfolio => {
                &&& r matches Ok(lines) && lines@.len() == 1 && lines@[0]@ == spec_summary(
                    old(p)@,
                )
                &&& final(p)@ == old(p)@
            },
            Command::ComputeExchange => {
                if spec_state(old(p)@) == PortfolioState::Complete {
                    &&& r matches Ok(lines) && adjustment_lines_match(
                        lines@,
                        spec_adjustments(old(p)@, spec_total(old(p)@)),
                    )
                    &&& final(p)@ == old(p)@
                } else {
                    &&& r == Result::<Vec<String>, CommandError>::Err(CommandError::NotReady)
                    &&& final(p)@ == old(p)@
                }
            },
        }),
{
    match cmd {
        Command::AddAssetClass { name } => {
            p.add_asset_class(name);
            Ok(Vec::new())
        },
        Command::SetAllocation { name, amount } => {
            match parse_money(amount.as_str()) {
                Err(e) => Err(CommandError::Input(e)),
                Ok(u) => {
                    match p.set_allocation(name, u) {
                        Ok(_) => Ok(Vec::new()),
                        Err(PortfolioError::NotFound) => Err(CommandError::UnknownAssetClass),
                        Err(PortfolioError::OutOfRange) => unreached(),
                    }
                },
            }
        },
        Command::SetTarget { name, percent } => {
            match parse_percent(percent.as_str()) {
                Err(e) => Err(CommandError::Input(e)),
                Ok(u) => {
                    match p.set_target(name, u) {
                        Ok(_) => Ok(Vec::new()),
                        Err(PortfolioError::NotFound) => Err(CommandError::UnknownAssetClass),
                        Err(PortfolioError::OutOfRange) => unreached(),
                    }
                },
            }
        },
        Command::CheckPortfolio => {
            let mut lines: Vec<String> = Vec::new();
            lines.push(p.summary_table());
            Ok(lines)
        },
        Command::ComputeExchange => {
            if p.num_allocations() == 0 || !p.complete() {
                return Err(CommandError::NotReady);
            }
            let adjs = p.compute_adjustments();
            let ghost pairs = spec_adjustments(p@, spec_total(p@));
            let mut lines: Vec<String> = Vec::new();
            let n = adjs.len();
            let mut j: usize = 0;
            while j < n
                invariant
                    n == adjs@.len(),
                    j <= n,
                    adj_views(adjs@) == pairs,
                    forall|k: int|
                        0 <= k < n ==> (#[trigger] adjs@[k].micro)
                            >= -1_000_000_000_000_000_000i128,
                    lines@.len() == j,
                    forall|k: int|
                        0 <= k < j ==> (#[trigger] lines@[k]@) == spec_adjustment_line(
                            pairs[k].0,
                            pairs[k].1,
                        ),
                decreases n - j,
            {
                proof {
                    assert(adj_views(adjs@)[j as int] == (adjs@[j as int].name@, adjs@[
                        j as int].micro as int));
                }
                lines.push(adjustment_line(&adjs[j]));
                j = j + 1;
            }
            Ok(lines)
        },
    }
}

/// Every printed line is the rendering of the adjustment at its position.
pub open spec fn adjustment_lines_match(lines: Seq<String>, pairs: Seq<(Seq<char>, int)>) -> bool {
    &&& lines.len() == pairs.len()
    &&& forall|k: int|
        0 <= k < lines.len() ==> (#[trigger] lines[k]@) == spec_adjustment_line(
            pairs[k].0,
            pairs[k].1,
        )
}

} // verus!

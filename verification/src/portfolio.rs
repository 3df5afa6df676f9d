//! The portfolio ledger: named asset classes, each with a current dollar
//! amount and an optional percentage target, and the rebalancing computation
//! over them.

use vstd::prelude::*;

use crate::fixed::{format_fixed2, spec_fixed2, MAX_AMOUNT_UNITS, MAX_TARGET_BP};

verus! {

use vstd::math::abs;

/// Smallest reportable adjustment, in micro-dollars: one cent.
pub const EPSILON_MICRO: i128 = 10_000;

/// One asset class: a unique name, the dollars currently held (in cents) and,
/// once set, the desired share of the whole portfolio (in basis points).
pub struct AssetClass {
    pub name: String,
    pub amount: i64,
    pub target: Option<i64>,
}

/// Why a ledger operation was refused.
#[derive(Debug, Clone, Copy, PartialEq, Eq, Structural)]
pub enum PortfolioError {
    /// The named asset class does not exist.
    NotFound,
    /// The amount or target is negative or above its maximum.
    OutOfRange,
}

pub open spec fn entry_wf(a: AssetClass) -> bool {
    &&& 0 <= a.amount <= MAX_AMOUNT_UNITS
    &&& (a.target matches Some(t) ==> 0 <= t <= MAX_TARGET_BP)
}

/// The ledger invariant: every entry is in range and names are unique.
pub open spec fn wf(s: Seq<AssetClass>) -> bool {
    &&& forall|i: int| 0 <= i < s.len() ==> entry_wf(#[trigger] s[i])
    &&& forall|i: int, j: int|
        0 <= i < s.len() && 0 <= j < s.len() && i != j ==> (#[trigger] s[i].name@) != (
        #[trigger] s[j].name@)
}

pub open spec fn contains_name(s: Seq<AssetClass>, name: Seq<char>) -> bool {
    exists|i: int| 0 <= i < s.len() && (#[trigger] s[i].name@) == name
}

/// Sum of all amounts, in cents.
pub open spec fn spec_total(s: Seq<AssetClass>) -> int
    decreases s.len(),
{
    if s.len() == 0 {
        0
    } else {
        spec_total(s.drop_last()) + s.last().amount
    }
}

/// True when every asset class has a target set.
pub open spec fn spec_complete(s: Seq<AssetClass>) -> bool {
    forall|i: int| 0 <= i < s.len() ==> (#[trigger] s[i].target) is Some
}

/// The ledger after an amount is set: the entry named `name` carries
/// `amount`, every other entry is unchanged.
pub open spec fn spec_with_amount(s: Seq<AssetClass>, name: Seq<char>, amount: i64) -> Seq<
    AssetClass,
> {
    Seq::new(
        s.len(),
        |i: int|
            if s[i].name@ == name {
                AssetClass { name: s[i].name, amount, target: s[i].target }
            } else {
                s[i]
            },
    )
}

/// The ledger after a target is set: the entry named `name` carries the
/// target, every other entry is unchanged.
pub open spec fn spec_with_target(s: Seq<AssetClass>, name: Seq<char>, target: i64) -> Seq<
    AssetClass,
> {
    Seq::new(
        s.len(),
        |i: int|
            if s[i].name@ == name {
                AssetClass { name: s[i].name, amount: s[i].amount, target: Some(target) }
            } else {
                s[i]
            },
    )
}

/// The ledger after an asset class is added: a fresh record with zero amount
/// and no target, either replacing the record of the same name or appended.
pub open spec fn spec_after_add(s: Seq<AssetClass>, name: String) -> Seq<AssetClass> {
    if contains_name(s, name@) {
        Seq::new(
            s.len(),
            |i: int|
                if s[i].name@ == name@ {
                    AssetClass { name: s[i].name, amount: 0, target: None }
                } else {
                    s[i]
                },
        )
    } else {
        s.push(AssetClass { name, amount: 0, target: None })
    }
}

/// The amount of the entry named `name` (meaningful when the name is there
/// and names are unique).
pub open spec fn spec_amount_of(s: Seq<AssetClass>, name: Seq<char>) -> i64 {
    s[choose|i: int| 0 <= i < s.len() && (#[trigger] s[i].name@) == name].amount
}

/// The target of the entry named `name`.
pub open spec fn spec_target_of(s: Seq<AssetClass>, name: Seq<char>) -> Option<i64> {
    s[choose|i: int| 0 <= i < s.len() && (#[trigger] s[i].name@) == name].target
}

/// One reported adjustment: buy (when `micro` is positive) or sell (when it
/// is negative) that many micro-dollars of the named asset class.
pub struct Adjustment {
    pub name: String,
    pub micro: i128,
}

pub open spec fn target_bp(a: AssetClass) -> int {
    match a.target {
        Option::Some(t) => t as int,
        Option::None => 0,
    }
}

/// The exact adjustment for one asset class, in micro-dollars: the ideal
/// amount `total * target` minus the current amount.
pub open spec fn raw_adjustment(total: int, a: AssetClass) -> int {
    total * target_bp(a) - a.amount * 10_000
}

/// The reported adjustments: name and exact micro-dollar value of every
/// entry whose adjustment is at least one cent in absolute value, in ledger
/// order.
pub open spec fn spec_adjustments(s: Seq<AssetClass>, total: int) -> Seq<(Seq<char>, int)>
    decreases s.len(),
{
    if s.len() == 0 {
        Seq::empty()
    } else {
        spec_adjustments(s.drop_last(), total) + (if abs(raw_adjustment(total, s.last()))
            >= EPSILON_MICRO {
            seq![(s.last().name@, raw_adjustment(total, s.last()))]
        } else {
            Seq::empty()
        })
    }
}

pub open spec fn adj_views(q: Seq<Adjustment>) -> Seq<(Seq<char>, int)> {
    q.map_values(|a: Adjustment| (a.name@, a.micro as int))
}

/// Sum of all targets, in basis points.
pub open spec fn spec_target_sum(s: Seq<AssetClass>) -> int
    decreases s.len(),
{
    if s.len() == 0 {
        0
    } else {
        spec_target_sum(s.drop_last()) + target_bp(s.last())
    }
}

/// Sum of the exact adjustments of all entries, suppressed or not.
pub open spec fn spec_raw_sum(s: Seq<AssetClass>, total: int) -> int
    decreases s.len(),
{
    if s.len() == 0 {
        0
    } else {
        spec_raw_sum(s.drop_last(), total) + raw_adjustment(total, s.last())
    }
}

/// Sum of the values of a sequence of reported adjustments.
pub open spec fn spec_pair_sum(q: Seq<(Seq<char>, int)>) -> int
    decreases q.len(),
{
    if q.len() == 0 {
        0
    } else {
        spec_pair_sum(q.drop_last()) + q.last().1
    }
}

proof fn lemma_raw_sum_formula(s: Seq<AssetClass>, total: int)
    ensures
        spec_raw_sum(s, total) == total * spec_target_sum(s) - 10_000 * spec_total(s),
    decreases s.len(),
{
    if s.len() == 0 {
        assert(total * 0 == 0) by (nonlinear_arith);
    } else {
        lemma_raw_sum_formula(s.drop_last(), total);
        assert(total * (spec_target_sum(s.drop_last()) + target_bp(s.last())) == total
            * spec_target_sum(s.drop_last()) + total * target_bp(s.last())) by (nonlinear_arith);
    }
}

proof fn lemma_pair_sum_snoc(q: Seq<(Seq<char>, int)>, x: (Seq<char>, int))
    ensures
        spec_pair_sum(q.push(x)) == spec_pair_sum(q) + x.1,
{
    assert(q.push(x).drop_last() =~= q);
    assert(q.push(x).last() == x);
}

proof fn lemma_reported_near_raw(s: Seq<AssetClass>, total: int)
    ensures
        abs(spec_pair_sum(spec_adjustments(s, total)) - spec_raw_sum(s, total)) <= s.len()
            * EPSILON_MICRO,
    decreases s.len(),
{
    if s.len() == 0 {
    } else {
        lemma_reported_near_raw(s.drop_last(), total);
        let prev = spec_adjustments(s.drop_last(), total);
        let r = raw_adjustment(total, s.last());
        if abs(r) >= EPSILON_MICRO {
            assert(spec_adjustments(s, total) =~= prev.push((s.last().name@, r)));
            lemma_pair_sum_snoc(prev, (s.last().name@, r));
        } else {
            assert(spec_adjustments(s, total) =~= prev);
        }
        assert((s.len() - 1) * EPSILON_MICRO + EPSILON_MICRO == s.len() * EPSILON_MICRO)
            by (nonlinear_arith);
    }
}

/// When the targets are all set and sum to exactly 100%, the adjustments
/// balance: the exact buy/sell values sum to zero, so what is reported,
/// which omits only sub-cent adjustments, sums to less than one cent per
/// asset class in absolute value.
pub proof fn lemma_adjustments_balance(s: Seq<AssetClass>)
    requires
        wf(s),
        spec_complete(s),
        spec_target_sum(s) == MAX_TARGET_BP,
    ensures
        spec_raw_sum(s, spec_total(s)) == 0,
        abs(spec_pair_sum(spec_adjustments(s, spec_total(s)))) <= s.len() * EPSILON_MICRO,
{
    let total = spec_total(s);
    lemma_raw_sum_formula(s, total);
    assert(total * 10_000int == 10_000 * total) by (nonlinear_arith);
    lemma_reported_near_raw(s, total);
}

/// Computing adjustments is a pure function of the ledger: with the ledger
/// unchanged, two computations return the same adjustments.
pub proof fn lemma_compute_idempotent(
    s: Seq<AssetClass>,
    r1: Seq<(Seq<char>, int)>,
    r2: Seq<(Seq<char>, int)>,
)
    requires
        r1 == spec_adjustments(s, spec_total(s)),
        r2 == spec_adjustments(s, spec_total(s)),
    ensures
        r1 == r2,
{
}

/// Setting an allocation and immediately reading it back returns exactly
/// the value that was set: fixed-point amounts round-trip without drift.
pub proof fn lemma_set_then_get_allocation(s: Seq<AssetClass>, name: Seq<char>, amount: i64)
    requires
        wf(s),
        contains_name(s, name),
    ensures
        contains_name(spec_with_amount(s, name, amount), name),
        spec_amount_of(spec_with_amount(s, name, amount), name) == amount,
{
    let s2 = spec_with_amount(s, name, amount);
    let i0 = choose|i: int| 0 <= i < s.len() && (#[trigger] s[i].name@) == name;
    assert(s2[i0].name@ == name);
    assert(forall|i: int|
        0 <= i < s2.len() && (#[trigger] s2[i].name@) == name ==> s2[i].amount == amount);
}

/// Setting a target and immediately reading it back returns exactly the
/// value that was set.
pub proof fn lemma_set_then_get_target(s: Seq<AssetClass>, name: Seq<char>, target: i64)
    requires
        wf(s),
        contains_name(s, name),
    ensures
        contains_name(spec_with_target(s, name, target), name),
        spec_target_of(spec_with_target(s, name, target), name) == Some(target),
{
    let s2 = spec_with_target(s, name, target);
    let i0 = choose|i: int| 0 <= i < s.len() && (#[trigger] s[i].name@) == name;
    assert(s2[i0].name@ == name);
    assert(forall|i: int|
        0 <= i < s2.len() && (#[trigger] s2[i].name@) == name ==> s2[i].target == Some(target));
}

/// Adding an asset class under a name that already exists resets the record:
/// afterwards it holds a zero amount and no target.
pub proof fn lemma_add_resets(s: Seq<AssetClass>, name: String)
    requires
        wf(s),
    ensures
        contains_name(spec_after_add(s, name), name@),
        spec_amount_of(spec_after_add(s, name), name@) == 0,
        spec_target_of(spec_after_add(s, name), name@) is None,
{
    let s2 = spec_after_add(s, name);
    if contains_name(s, name@) {
        let i0 = choose|i: int| 0 <= i < s.len() && (#[trigger] s[i].name@) == name@;
        assert(s2[i0].name@ == name@);
    } else {
        assert(s2[s.len() as int].name@ == name@);
    }
    assert(forall|i: int|
        0 <= i < s2.len() && (#[trigger] s2[i].name@) == name@ ==> s2[i].amount == 0 && s2[i].target
            is None);
}

/// The target column of one summary row: the percentage with two fractional
/// digits, or a placeholder while the target is unset.
pub open spec fn spec_target_cell(t: Option<i64>) -> Seq<char> {
    match t {
        Option::Some(bp) => spec_fixed2(bp as nat) + seq!['%'],
        Option::None => "Unspecified"@,
    }
}

/// One summary row: a line break, then name, amount and target separated by
/// tabs.
pub open spec fn spec_row(a: AssetClass) -> Seq<char> {
    seq!['\n'] + a.name@ + seq!['\t'] + spec_fixed2(a.amount as nat) + seq!['\t']
        + spec_target_cell(a.target)
}

/// The whole summary table: a header line followed by one row per asset
/// class, in ledger order.
pub open spec fn spec_summary(s: Seq<AssetClass>) -> Seq<char>
    decreases s.len(),
{
    if s.len() == 0 {
        "Asset Class\tAllocation\tTarget"@
    } else {
        spec_summary(s.drop_last()) + spec_row(s.last())
    }
}

proof fn lemma_total_bound(s: Seq<AssetClass>)
    requires
        forall|i: int| 0 <= i < s.len() ==> entry_wf(#[trigger] s[i]),
    ensures
        0 <= spec_total(s) <= s.len() * MAX_AMOUNT_UNITS,
    decreases s.len(),
{
    if s.len() > 0 {
        lemma_total_bound(s.drop_last());
        assert((s.len() - 1) * MAX_AMOUNT_UNITS + MAX_AMOUNT_UNITS == s.len() * MAX_AMOUNT_UNITS)
            by (nonlinear_arith);
    }
}

/// The ledger of asset classes.
pub struct Portfolio {
    entries: Vec<AssetClass>,
}

impl View for Portfolio {
    type V = Seq<AssetClass>;

    closed spec fn view(&self) -> Seq<AssetClass> {
        self.entries@
    }
}

impl Portfolio {
    /// An empty ledger.
    pub fn new() -> (r: Portfolio)
        ensures
            r@ == Seq::<AssetClass>::empty(),
            wf(r@),
    {
        let r = Portfolio { entries: Vec::new() };
        proof {
            assert(r@ =~= Seq::<AssetClass>::empty());
        }
        r
    }

    /// How many asset classes the ledger holds.
    pub fn num_allocations(&self) -> (r: usize)
        ensures
            r == self@.len(),
    {
        self.entries.len()
    }

    fn find_index(&self, name: &String) -> (r: Option<usize>)
        ensures
            (r matches Some(j) ==> j < self@.len() && self@[j as int].name@ == name@),
            (r is None ==> !contains_name(self@, name@)),
    {
        let n = self.entries.len();
        let mut j: usize = 0;
        while j < n
            invariant
                n == self@.len(),
                j <= n,
                forall|i: int| 0 <= i < j ==> (#[trigger] self@[i].name@) != name@,
            decreases n - j,
        {
            if self.entries[j].name == *name {
                return Some(j);
            }
            j = j + 1;
        }
        None
    }

    /// Add a new asset class with zero amount and no target; an existing
    /// record of the same name is reset, not kept.
    pub fn add_asset_class(&mut self, name: String)
        requires
            wf(old(self)@),
        ensures
            final(self)@ == spec_after_add(old(self)@, name),
            wf(final(self)@),
            contains_name(final(self)@, name@),
    {
        match self.find_index(&name) {
            Some(j) => {
                let e = &mut self.entries[j];
                e.amount = 0;
                e.target = None;
                proof {
                    assert(final(self)@ =~= spec_after_add(old(self)@, name));
                    assert(final(self)@[j as int].name@ == name@);
                }
            },
            None => {
                self.entries.push(AssetClass { name, amount: 0, target: None });
                proof {
                    assert(final(self)@[old(self)@.len() as int].name@ == name@);
                }
            },
        }
    }

    /// The names of all asset classes, in ledger order.
    pub fn asset_classes(&self) -> (r: Vec<String>)
        ensures
            r@.len() == self@.len(),
            forall|i: int| 0 <= i < self@.len() ==> (#[trigger] r@[i]@) == self@[i].name@,
    {
        let n = self.entries.len();
        let mut out: Vec<String> = Vec::new();
        let mut j: usize = 0;
        while j < n
            invariant
                n == self@.len(),
                j <= n,
                out@.len() == j,
                forall|i: int| 0 <= i < j ==> (#[trigger] out@[i]@) == self@[i].name@,
            decreases n - j,
        {
            out.push(self.entries[j].name.clone());
            j = j + 1;
        }
        out
    }

    /// The current amount of the named asset class, in cents.
    pub fn get_allocation(&self, name: &str) -> (r: i64)
        requires
            wf(self@),
            contains_name(self@, name@),
        ensures
            r == spec_amount_of(self@, name@),
            forall|i: int|
                0 <= i < self@.len() && (#[trigger] self@[i].name@) == name@ ==> r
                    == self@[i].amount,
    {
        let owned: String = name.to_owned();
        match self.find_index(&owned) {
            Some(j) => self.entries[j].amount,
            None => unreached(),
        }
    }

    /// The target of the named asset class, in basis points, if set.
    pub fn get_target(&self, name: &str) -> (r: Option<i64>)
        requires
            wf(self@),
            contains_name(self@, name@),
        ensures
            r == spec_target_of(self@, name@),
            forall|i: int|
                0 <= i < self@.len() && (#[trigger] self@[i].name@) == name@ ==> r
                    == self@[i].target,
    {
        let owned: String = name.to_owned();
        match self.find_index(&owned) {
            Some(j) => self.entries[j].target,
            None => unreached(),
        }
    }

    /// Set the current amount of the named asset class, in cents.
    pub fn set_allocation(&mut self, name: String, amount: i64) -> (r: Result<(), PortfolioError>)
        requires
            wf(old(self)@),
        ensures
            wf(final(self)@),
            (r matches Ok(u) ==> contains_name(old(self)@, name@) && 0 <= amount
                <= MAX_AMOUNT_UNITS),
            (contains_name(old(self)@, name@) && 0 <= amount <= MAX_AMOUNT_UNITS ==> r is Ok),
            (r is Ok ==> final(self)@ == spec_with_amount(old(self)@, name@, amount)),
            (r is Ok ==> final(self)@.len() == old(self)@.len() && forall|i: int|
                0 <= i < old(self)@.len()
                    ==> (#[trigger] final(self)@[i].name@) == old(self)@[i].name@
                    && final(self)@[i].target == old(self)@[i].target
                    && final(self)@[i].amount == (if old(self)@[i].name@ == name@ {
                    amount
                } else {
                    old(self)@[i].amount
                })),
            (r == Result::<(), PortfolioError>::Err(PortfolioError::NotFound) <==> !contains_name(
                old(self)@,
                name@,
            )),
            (r is Err ==> final(self)@ == old(self)@),
    {
        match self.find_index(&name) {
            Some(j) => {
                if amount < 0 || amount > MAX_AMOUNT_UNITS {
                    return Err(PortfolioError::OutOfRange);
                }
                let e = &mut self.entries[j];
                e.amount = amount;
                proof {
                    assert(final(self)@ =~= spec_with_amount(old(self)@, name@, amount));
                }
                Ok(())
            },
            None => Err(PortfolioError::NotFound),
        }
    }

    /// Set the target of the named asset class, in basis points.
    pub fn set_target(&mut self, name: String, target: i64) -> (r: Result<(), PortfolioError>)
        requires
            wf(old(self)@),
        ensures
            wf(final(self)@),
            (r matches Ok(u) ==> contains_name(old(self)@, name@) && 0 <= target <= MAX_TARGET_BP),
            (contains_name(old(self)@, name@) && 0 <= target <= MAX_TARGET_BP ==> r is Ok),
            (r is Ok ==> final(self)@ == spec_with_target(old(self)@, name@, target)),
            (r is Ok ==> final(self)@.len() == old(self)@.len() && forall|i: int|
                0 <= i < old(self)@.len()
                    ==> (#[trigger] final(self)@[i].name@) == old(self)@[i].name@
                    && final(self)@[i].amount == old(self)@[i].amount
                    && final(self)@[i].target == (if old(self)@[i].name@ == name@ {
                    Some(target)
                } else {
                    old(self)@[i].target
                })),
            (r == Result::<(), PortfolioError>::Err(PortfolioError::NotFound) <==> !contains_name(
                old(self)@,
                name@,
            )),
            (r is Err ==> final(self)@ == old(self)@),
    {
        match self.find_index(&name) {
            Some(j) => {
                if target < 0 || target > MAX_TARGET_BP {
                    return Err(PortfolioError::OutOfRange);
                }
                let e = &mut self.entries[j];
                e.target = Some(target);
                proof {
                    assert(final(self)@ =~= spec_with_target(old(self)@, name@, target));
                }
                Ok(())
            },
            None => Err(PortfolioError::NotFound),
        }
    }

    /// The sum of all amounts, in cents.
    pub fn total(&self) -> (r: i128)
        requires
            wf(self@),
        ensures
            r == spec_total(self@),
            0 <= r <= self@.len() * MAX_AMOUNT_UNITS,
    {
        let n = self.entries.len();
        let mut acc: i128 = 0;
        let mut j: usize = 0;
        proof {
            lemma_total_bound(self@);
        }
        while j < n
            invariant
                wf(self@),
                n == self@.len(),
                j <= n,
                acc == spec_total(self@.take(j as int)),
                0 <= acc <= j * MAX_AMOUNT_UNITS,
            decreases n - j,
        {
            proof {
                assert(self@.take(j + 1).drop_last() =~= self@.take(j as int));
                assert(self@.take(j + 1).last() == self@[j as int]);
                assert(j * MAX_AMOUNT_UNITS + MAX_AMOUNT_UNITS == (j + 1) * MAX_AMOUNT_UNITS)
                    by (nonlinear_arith);
                assert((j + 1) * MAX_AMOUNT_UNITS <= n * MAX_AMOUNT_UNITS) by (nonlinear_arith)
                    requires
                        j + 1 <= n,
                        MAX_AMOUNT_UNITS > 0,
                ;
            }
            acc = acc + self.entries[j].amount as i128;
            j = j + 1;
        }
        proof {
            assert(self@.take(n as int) =~= self@);
        }
        acc
    }

    /// The buy/sell adjustments that bring the portfolio to its targets:
    /// for each asset class, ideal minus current in micro-dollars, with
    /// sub-cent adjustments suppressed.
    pub fn compute_adjustments(&self) -> (r: Vec<Adjustment>)
        requires
            wf(self@),
            spec_complete(self@),
        ensures
            adj_views(r@) == spec_adjustments(self@, spec_total(self@)),
            forall|k: int|
                0 <= k < r@.len() ==> abs(#[trigger] r@[k].micro as int) >= EPSILON_MICRO,
            forall|k: int|
                0 <= k < r@.len() ==> (#[trigger] r@[k].micro) >= -1_000_000_000_000_000_000i128,
    {
        let total: i128 = self.total();
        let n = self.entries.len();
        let mut out: Vec<Adjustment> = Vec::new();
        let mut j: usize = 0;
        proof {
            assert(adj_views(out@) =~= spec_adjustments(self@.take(0), total as int));
        }
        while j < n
            invariant
                wf(self@),
                spec_complete(self@),
                n == self@.len(),
                total == spec_total(self@),
                0 <= total <= n * MAX_AMOUNT_UNITS,
                j <= n,
                adj_views(out@) == spec_adjustments(self@.take(j as int), total as int),
                forall|k: int|
                    0 <= k < out@.len() ==> abs(#[trigger] out@[k].micro as int) >= EPSILON_MICRO,
                forall|k: int|
                    0 <= k < out@.len() ==> (#[trigger] out@[k].micro)
                        >= -1_000_000_000_000_000_000i128,
            decreases n - j,
        {
            let e = &self.entries[j];
            let t: i64 = match e.target {
                Some(t) => t,
                None => unreached(),
            };
            proof {
                assert(entry_wf(self@[j as int]));
                assert(total <= 1_844_674_407_370_955_161_500_000_000_000_000int)
                    by (nonlinear_arith)
                    requires
                        total <= n * 100_000_000_000_000int,
                        n <= 0xFFFF_FFFF_FFFF_FFFFint,
                ;
                assert(0 <= total * t && total * t
                    <= 18_446_744_073_709_551_615_000_000_000_000_000_000int) by (nonlinear_arith)
                    requires
                        0 <= total <= 1_844_674_407_370_955_161_500_000_000_000_000int,
                        0 <= t <= 10_000int,
                ;
            }
            let micro: i128 = total * (t as i128) - (e.amount as i128) * 10_000;
            let ghost prev = out@;
            if micro >= EPSILON_MICRO || micro <= -EPSILON_MICRO {
                out.push(Adjustment { name: e.name.clone(), micro });
            }
            proof {
                assert(self@.take(j + 1).drop_last() =~= self@.take(j as int));
                assert(self@.take(j + 1).last() == self@[j as int]);
                if abs(micro as int) >= EPSILON_MICRO {
                    assert(adj_views(out@) =~= adj_views(prev).push(
                        (self@[j as int].name@, micro as int),
                    ));
                }
                assert(adj_views(out@) =~= spec_adjustments(self@.take(j + 1), total as int));
            }
            j = j + 1;
        }
        proof {
            assert(self@.take(n as int) =~= self@);
        }
        out
    }

    /// A tab-separated table of every asset class with its amount and
    /// target.
    pub fn summary_table(&self) -> (r: String)
        requires
            wf(self@),
        ensures
            r@ == spec_summary(self@),
    {
        let mut out: String = "Asset Class\tAllocation\tTarget".to_owned();
        proof {
            assert(out@ =~= spec_summary(self@.take(0)));
        }
        let n = self.entries.len();
        let mut j: usize = 0;
        while j < n
            invariant
                wf(self@),
                n == self@.len(),
                j <= n,
                out@ == spec_summary(self@.take(j as int)),
            decreases n - j,
        {
            let e = &self.entries[j];
            proof {
                assert(entry_wf(self@[j as int]));
            }
            out.append("\n");
            out.append(e.name.as_str());
            out.append("\t");
            let amt: String = format_fixed2(e.amount as i128);
            out.append(amt.as_str());
            out.append("\t");
            match e.target {
                Some(bp) => {
                    let cell: String = format_fixed2(bp as i128);
                    out.append(cell.as_str());
                    out.append("%");
                },
                None => {
                    out.append("Unspecified");
                },
            }
            proof {
                reveal_strlit("\n");
                reveal_strlit("\t");
                reveal_strlit("%");
                assert(self@.take(j + 1).drop_last() =~= self@.take(j as int));
                assert(self@.take(j + 1).last() == self@[j as int]);
                assert(out@ =~= spec_summary(self@.take(j + 1)));
            }
            j = j + 1;
        }
        proof {
            assert(self@.take(n as int) =~= self@);
        }
        out
    }

    /// True when every asset class has a target set.
    pub fn complete(&self) -> (r: bool)
        ensures
            r == spec_complete(self@),
    {
        let n = self.entries.len();
        let mut j: usize = 0;
        while j < n
            invariant
                n == self@.len(),
                j <= n,
                forall|i: int| 0 <= i < j ==> (#[trigger] self@[i].target) is Some,
            decreases n - j,
        {
            if self.entries[j].target.is_none() {
                return false;
            }
            j = j + 1;
        }
        true
    }
}

} // verus!

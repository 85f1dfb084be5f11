//! Tip accounting.
//!
//! A tip is checked, split between the creator and the platform, moved, and
//! then recorded: the global tip sequence advances by one, the tip joins the
//! item's append-only sequence, and the item's total and the global volume grow
//! by the full amount of the tip.

use vstd::prelude::*;
use crate::auth::Authorization;
use crate::error::Error;
use crate::governance::{fee_or_default, Governance, GovernanceConfig, DEFAULT_TIP_THRESHOLD};
use crate::identity::{Address, Symbol};
use crate::table::Table;

verus! {

/// The smallest tip that is accepted.
pub const MINIMUM_TIP_STROOPS: i128 = 100_000;

/// The number of basis points in the whole.
pub const BPS_DENOMINATOR: i128 = 10_000;

/// One recorded tip.
#[derive(Debug)]
pub struct SimpleTip {
    pub tipper: Address,
    pub amount: i128,
    pub timestamp: u64,
}

impl Clone for SimpleTip {
    fn clone(&self) -> (copy: SimpleTip)
        ensures
            copy == *self,
    {
        SimpleTip { tipper: self.tipper.clone(), amount: self.amount, timestamp: self.timestamp }
    }
}

/// What the tipper gets back for an accepted tip.
#[derive(Clone, Copy, Debug, PartialEq, Eq, Structural)]
pub struct TipReceipt {
    pub tip_id: u64,
    pub amount_sent: i128,
    pub author_received: i128,
    pub platform_fee: i128,
    pub timestamp: u64,
}

/// How the value of a tip reaches the creator and the platform.
#[derive(Clone, Copy, Debug, PartialEq, Eq, Structural)]
pub enum ValueMover {
    /// An external ledger moves the value; the contract keeps no balances.
    ExternalLedgerMover,
    /// The contract credits a balance for each receiver, to be withdrawn later.
    InternalAccumulatorMover,
}

impl ValueMover {
    /// Whether receivers hold balances here that they can withdraw.
    pub open spec fn keeps_balances(&self) -> bool {
        *self == ValueMover::InternalAccumulatorMover
    }

    /// Whether receivers hold balances here that they can withdraw.
    pub fn supports_withdraw(&self) -> (supported: bool)
        ensures
            supported == self.keeps_balances(),
    {
        match self {
            ValueMover::ExternalLedgerMover => false,
            ValueMover::InternalAccumulatorMover => true,
        }
    }
}

/// The platform's share of a tip: the amount times the fee in basis points,
/// divided by the whole and rounded down.
pub open spec fn platform_fee_of(amount: int, fee_bps: int) -> int {
    amount * fee_bps / (BPS_DENOMINATOR as int)
}

/// The sum of the amounts of a sequence of tips.
pub open spec fn sum_amounts(tips: Seq<SimpleTip>) -> int
    decreases tips.len(),
{
    if tips.len() == 0 {
        0
    } else {
        sum_amounts(tips.drop_last()) + tips.last().amount
    }
}

/// A tip added at the end adds its amount to the sum.
pub proof fn lemma_sum_amounts_push(tips: Seq<SimpleTip>, tip: SimpleTip)
    ensures
        sum_amounts(tips.push(tip)) == sum_amounts(tips) + tip.amount,
{
    assert(tips.push(tip).drop_last() =~= tips);
}

/// Every tip of the sequence is of the minimum tip at least.
pub open spec fn amounts_valid(tips: Seq<SimpleTip>) -> bool {
    forall|k: int| 0 <= k < tips.len() ==> (#[trigger] tips[k]).amount >= MINIMUM_TIP_STROOPS
}

proof fn lemma_valid_push(tips: Seq<SimpleTip>, tip: SimpleTip)
    requires
        amounts_valid(tips),
        tip.amount >= MINIMUM_TIP_STROOPS,
    ensures
        amounts_valid(tips.push(tip)),
{
    let grown = tips.push(tip);
    assert forall|k: int| 0 <= k < grown.len() implies (#[trigger] grown[k]).amount
        >= MINIMUM_TIP_STROOPS by {
        if k < tips.len() {
            assert(grown[k] == tips[k]);
        }
    }
}

/// The amounts of a beginning of a sequence of valid tips sum to no more than
/// those of the whole sequence.
proof fn lemma_sum_of_beginning(tips: Seq<SimpleTip>, upto: int)
    requires
        amounts_valid(tips),
        0 <= upto <= tips.len(),
    ensures
        0 <= sum_amounts(tips.take(upto)) <= sum_amounts(tips),
    decreases tips.len(),
{
    if upto == tips.len() {
        assert(tips.take(upto) =~= tips);
        if tips.len() > 0 {
            let front = tips.drop_last();
            assert forall|k: int| 0 <= k < front.len() implies (#[trigger] front[k]).amount
                >= MINIMUM_TIP_STROOPS by {
                assert(front[k] == tips[k]);
            }
            lemma_sum_of_beginning(front, front.len() as int);
            assert(tips.last() == tips[tips.len() - 1]);
        }
    } else {
        let front = tips.drop_last();
        assert forall|k: int| 0 <= k < front.len() implies (#[trigger] front[k]).amount
            >= MINIMUM_TIP_STROOPS by {
            assert(front[k] == tips[k]);
        }
        lemma_sum_of_beginning(front, upto);
        assert(front.take(upto) =~= tips.take(upto));
        assert(tips.last() == tips[tips.len() - 1]);
    }
}

/// Splits a tip into the platform's fee and the creator's share, in this
/// order. The fee is rounded down, so the rounding goes to the creator.
pub fn split_tip(amount: i128, fee_bps: u32) -> (split: (i128, i128))
    requires
        0 <= amount,
        fee_bps <= BPS_DENOMINATOR,
    ensures
        split.0 == platform_fee_of(amount as int, fee_bps as int),
        split.0 + split.1 == amount,
        0 <= split.0 <= amount,
{
    let bps: i128 = fee_bps as i128;
    let whole: i128 = amount / BPS_DENOMINATOR;
    let rest: i128 = amount % BPS_DENOMINATOR;
    proof {
        let a = amount as int;
        let b = fee_bps as int;
        let q = a / 10_000;
        let r = a % 10_000;
        assert(a == 10_000 * q + r && 0 <= r < 10_000 && 0 <= q) by (nonlinear_arith)
            requires
                0 <= a,
                q == a / 10_000,
                r == a % 10_000,
        ;
        assert(0 <= q * b <= a) by (nonlinear_arith)
            requires
                0 <= q,
                0 <= b <= 10_000,
                10_000 * q <= a,
        ;
        assert(0 <= r * b <= 10_000 * 10_000) by (nonlinear_arith)
            requires
                0 <= r < 10_000,
                0 <= b <= 10_000,
        ;
        assert(a * b / 10_000 == q * b + r * b / 10_000) by (nonlinear_arith)
            requires
                a == 10_000 * q + r,
        ;
        assert(r * b / 10_000 <= r) by (nonlinear_arith)
            requires
                0 <= r,
                0 <= b <= 10_000,
        ;
        assert(q * b + r <= a) by (nonlinear_arith)
            requires
                a == 10_000 * q + r,
                0 <= q,
                0 <= b <= 10_000,
        ;
    }
    let fee: i128 = whole * bps + rest * bps / BPS_DENOMINATOR;
    (fee, amount - fee)
}

/// The state of the tipping contract.
pub struct TippingContract {
    governance: Governance,
    mover: ValueMover,
    article_tips: Table<Vec<SimpleTip>>,
    article_totals: Table<i128>,
    highlight_tips: Table<Vec<SimpleTip>>,
    balances: Table<i128>,
    tip_counter: u64,
    total_volume: i128,
    recorded_total: i128,
    credited_total: i128,
}

/// The weight of an amount in a sum of amounts: the amount itself, which is
/// not negative in any sum that is taken here.
pub open spec fn amount_weight() -> spec_fn(i128) -> nat {
    |amount: i128|
        if amount >= 0 {
            amount as nat
        } else {
            0
        }
}

/// The weight of a sequence of tips in a sum of amounts: the sum of its
/// amounts.
pub open spec fn tips_weight() -> spec_fn(Vec<SimpleTip>) -> nat {
    |tips: Vec<SimpleTip>|
        if sum_amounts(tips@) >= 0 {
            sum_amounts(tips@) as nat
        } else {
            0
        }
}

spec fn tips_in(table: Table<Vec<SimpleTip>>, key: Seq<char>) -> Seq<SimpleTip> {
    if table@.contains_key(key) {
        table@[key]@
    } else {
        Seq::empty()
    }
}

spec fn amount_in(table: Table<i128>, key: Seq<char>) -> i128 {
    if table@.contains_key(key) {
        table@[key]
    } else {
        0
    }
}

fn append_tip(table: &mut Table<Vec<SimpleTip>>, key: &String, tip: SimpleTip)
    requires
        old(table).wf(),
    ensures
        final(table).wf(),
        tips_in(*final(table), key@) == tips_in(*old(table), key@).push(tip),
        forall|other: Seq<char>|
            other != key@ ==> tips_in(*final(table), other) == tips_in(*old(table), other),
        forall|weight: spec_fn(Vec<SimpleTip>) -> nat| #[trigger]
            final(table).total(weight) + (if old(table)@.contains_key(key@) {
                weight(old(table)@[key@])
            } else {
                0
            }) == old(table).total(weight) + weight(final(table)@[key@]),
        forall|other: Seq<char>| #[trigger]
            final(table)@.contains_key(other) == (old(table)@.contains_key(other) || other
                == key@),
{
    let mut tips = match table.take(key) {
        Some(tips) => tips,
        None => Vec::new(),
    };
    tips.push(tip);
    table.set(key.clone(), tips);
}

fn add_amount(table: &mut Table<i128>, key: &String, amount: i128)
    requires
        old(table).wf(),
        i128::MIN <= amount_in(*old(table), key@) + amount <= i128::MAX,
    ensures
        final(table).wf(),
        amount_in(*final(table), key@) == amount_in(*old(table), key@) + amount,
        forall|other: Seq<char>|
            other != key@ ==> amount_in(*final(table), other) == amount_in(*old(table), other),
        forall|weight: spec_fn(i128) -> nat| #[trigger]
            final(table).total(weight) + (if old(table)@.contains_key(key@) {
                weight(old(table)@[key@])
            } else {
                0
            }) == old(table).total(weight) + weight(final(table)@[key@]),
        forall|other: Seq<char>| #[trigger]
            final(table)@.contains_key(other) == (old(table)@.contains_key(other) || other
                == key@),
{
    let current = match table.get(key) {
        Some(held) => *held,
        None => 0,
    };
    table.set(key.clone(), current + amount);
}

fn copy_tips(tips: &Vec<SimpleTip>) -> (copy: Vec<SimpleTip>)
    ensures
        copy@ == tips@,
{
    let mut copy: Vec<SimpleTip> = Vec::new();
    let mut i: usize = 0;
    while i < tips.len()
        invariant
            i <= tips@.len(),
            copy@ == tips@.take(i as int),
        decreases tips@.len() - i,
    {
        copy.push(tips[i].clone());
        assert(tips@.take(i + 1) =~= tips@.take(i as int).push(tips@[i as int]));
        i += 1;
    }
    assert(tips@.take(tips@.len() as int) =~= tips@);
    copy
}

impl TippingContract {
    /// The governance state.
    pub closed spec fn governance(&self) -> Governance {
        self.governance
    }

    /// How the value of a tip is moved.
    pub closed spec fn mover(&self) -> ValueMover {
        self.mover
    }

    /// The tips recorded for an item, oldest first.
    pub closed spec fn tips_of(&self, item: Seq<char>) -> Seq<SimpleTip> {
        tips_in(self.article_tips, item)
    }

    /// The tips recorded for a highlight, oldest first.
    pub closed spec fn highlight_tips_of(&self, highlight: Seq<char>) -> Seq<SimpleTip> {
        tips_in(self.highlight_tips, highlight)
    }

    /// The total tipped to an item.
    pub closed spec fn total_of(&self, item: Seq<char>) -> i128 {
        amount_in(self.article_totals, item)
    }

    /// The balance credited to an account and not yet withdrawn.
    pub closed spec fn balance_of(&self, account: Seq<char>) -> i128 {
        amount_in(self.balances, account)
    }

    /// The number of tips accepted so far, which is the id of the latest.
    pub closed spec fn tip_count(&self) -> u64 {
        self.tip_counter
    }

    /// The total of all tips accepted so far.
    pub closed spec fn volume(&self) -> i128 {
        self.total_volume
    }

    /// The sum of the totals of all items held and of the tips of all
    /// highlights held.
    pub closed spec fn recorded_sum(&self) -> nat {
        self.article_totals.total(amount_weight()) + self.highlight_tips.total(tips_weight())
    }

    /// The sum of all balances held.
    pub closed spec fn balances_sum(&self) -> nat {
        self.balances.total(amount_weight())
    }

    /// Whether records of the item are held: its tips or its total.
    pub closed spec fn holds_article(&self, item: Seq<char>) -> bool {
        self.article_tips@.contains_key(item) || self.article_totals@.contains_key(item)
    }

    /// Whether the tips of the highlight are held.
    pub closed spec fn holds_highlight(&self, highlight: Seq<char>) -> bool {
        self.highlight_tips@.contains_key(highlight)
    }

    /// Whether a balance of the account is held.
    pub closed spec fn holds_balance(&self, account: Seq<char>) -> bool {
        self.balances@.contains_key(account)
    }

    /// The state is one that the operations can reach: every recorded tip is
    /// of the minimum tip at least, every item's total is the sum of its
    /// recorded tips, no total and no balance is negative, neither the tips
    /// recorded nor the balances add up to more than the volume, and without
    /// balance keeping every balance is zero.
    pub closed spec fn wf(&self) -> bool {
        &&& self.governance.wf()
        &&& self.article_tips.wf()
        &&& self.article_totals.wf()
        &&& self.highlight_tips.wf()
        &&& self.balances.wf()
        &&& 0 <= self.total_volume
        &&& self.recorded_total == self.recorded_sum()
        &&& self.recorded_total <= self.total_volume
        &&& self.credited_total == self.balances_sum()
        &&& self.credited_total <= self.total_volume
        &&& forall|item: Seq<char>| #[trigger]
            self.total_of(item) == sum_amounts(self.tips_of(item))
        &&& forall|item: Seq<char>| 0 <= #[trigger] self.total_of(item) <= self.total_volume
        &&& forall|account: Seq<char>|
            0 <= #[trigger] self.balance_of(account) <= self.total_volume
        &&& !self.mover.keeps_balances() ==> forall|account: Seq<char>| #[trigger]
            self.balance_of(account) == 0
        &&& forall|item: Seq<char>| amounts_valid(#[trigger] self.tips_of(item))
        &&& forall|highlight: Seq<char>|
            amounts_valid(#[trigger] self.highlight_tips_of(highlight))
    }

    /// The platform account of the configuration.
    pub open spec fn platform_account(&self) -> Seq<char> {
        self.governance().config()->Some_0.platform_address@
    }

    /// What a tip call answers: `Ok` when the tip is accepted, else the error.
    /// Only the pause-aware entry points look at the pause flag, and only with
    /// an external ledger does it matter whether the value was moved.
    pub open spec fn tip_outcome(
        &self,
        pause_aware: bool,
        approvers: Set<Seq<char>>,
        tipper: Seq<char>,
        amount: i128,
        moved: bool,
    ) -> Result<(), Error> {
        if pause_aware && self.governance().paused() {
            Err(Error::ContractPaused)
        } else if !approvers.contains(tipper) {
            Err(Error::Unauthorized)
        } else if amount < MINIMUM_TIP_STROOPS {
            Err(Error::BelowMinimum)
        } else if !self.mover().keeps_balances() && !moved {
            Err(Error::TransferFailed)
        } else {
            Ok(())
        }
    }

    /// The receipt of a tip of `amount` accepted at time `now`.
    pub open spec fn receipt_matches(&self, receipt: TipReceipt, amount: i128, now: u64) -> bool {
        &&& receipt.tip_id == self.tip_count() + 1
        &&& receipt.amount_sent == amount
        &&& receipt.platform_fee == platform_fee_of(amount as int, self.governance().fee_bps() as int)
        &&& receipt.author_received == amount - receipt.platform_fee
        &&& receipt.timestamp == now
    }

    /// What a tip of `amount` for `author` adds to the balance of `account`.
    pub open spec fn credited(&self, account: Seq<char>, author: Seq<char>, amount: i128) -> int {
        let fee = platform_fee_of(amount as int, self.governance().fee_bps() as int);
        if self.mover().keeps_balances() {
            (if account == author {
                amount - fee
            } else {
                0
            }) + (if account == self.platform_account() {
                fee
            } else {
                0
            })
        } else {
            0
        }
    }

    /// The part of an accepted tip that does not depend on what was tipped:
    /// `post` has one more tip, the volume and the sum of what is recorded are
    /// larger by the amount, and the shares are credited where balances are
    /// kept, so that balances of the creator and the platform are held then.
    pub open spec fn value_moved(&self, post: &TippingContract, author: Seq<char>, amount: i128) -> bool {
        &&& post.governance() == self.governance()
        &&& post.mover() == self.mover()
        &&& post.tip_count() == self.tip_count() + 1
        &&& post.volume() == self.volume() + amount
        &&& post.recorded_sum() == self.recorded_sum() + amount
        &&& post.balances_sum() == self.balances_sum() + (if self.mover().keeps_balances() {
            amount
        } else {
            0
        })
        &&& forall|account: Seq<char>| #[trigger]
            post.balance_of(account) == self.balance_of(account) + self.credited(
                account,
                author,
                amount,
            )
        &&& forall|account: Seq<char>| #[trigger]
            post.holds_balance(account) == (self.holds_balance(account) || (
            self.mover().keeps_balances() && (account == author || account
                == self.platform_account())))
    }

    /// `post` is this state after an accepted tip to the item `item`, whose
    /// records are held then.
    pub open spec fn article_tip_recorded(
        &self,
        post: &TippingContract,
        tip: SimpleTip,
        item: Seq<char>,
        author: Seq<char>,
    ) -> bool {
        &&& self.value_moved(post, author, tip.amount)
        &&& post.tips_of(item) == self.tips_of(item).push(tip)
        &&& post.total_of(item) == self.total_of(item) + tip.amount
        &&& forall|other: Seq<char>|
            other != item ==> #[trigger] post.tips_of(other) == self.tips_of(other)
        &&& forall|other: Seq<char>|
            other != item ==> #[trigger] post.total_of(other) == self.total_of(other)
        &&& forall|other: Seq<char>| #[trigger]
            post.holds_article(other) == (self.holds_article(other) || other == item)
        &&& forall|highlight: Seq<char>| #[trigger]
            post.highlight_tips_of(highlight) == self.highlight_tips_of(highlight)
        &&& forall|highlight: Seq<char>| #[trigger]
            post.holds_highlight(highlight) == self.holds_highlight(highlight)
    }

    /// `post` is this state after an accepted tip to the highlight
    /// `highlight`, whose tips are held then: no item's tips or total have
    /// changed.
    pub open spec fn highlight_tip_recorded(
        &self,
        post: &TippingContract,
        tip: SimpleTip,
        highlight: Seq<char>,
        author: Seq<char>,
    ) -> bool {
        &&& self.value_moved(post, author, tip.amount)
        &&& post.highlight_tips_of(highlight) == self.highlight_tips_of(highlight).push(tip)
        &&& forall|other: Seq<char>|
            other != highlight ==> #[trigger] post.highlight_tips_of(other)
                == self.highlight_tips_of(other)
        &&& forall|other: Seq<char>| #[trigger]
            post.holds_highlight(other) == (self.holds_highlight(other) || other == highlight)
        &&& forall|item: Seq<char>| #[trigger] post.tips_of(item) == self.tips_of(item)
        &&& forall|item: Seq<char>| #[trigger] post.total_of(item) == self.total_of(item)
        &&& forall|item: Seq<char>| #[trigger]
            post.holds_article(item) == self.holds_article(item)
    }

    /// Both states have the same governance, way of moving value, counter,
    /// volume and balances.
    pub open spec fn same_ledger(&self, other: &TippingContract) -> bool {
        &&& self.governance() == other.governance()
        &&& self.mover() == other.mover()
        &&& self.tip_count() == other.tip_count()
        &&& self.volume() == other.volume()
        &&& self.balances_sum() == other.balances_sum()
        &&& forall|account: Seq<char>| #[trigger]
            self.balance_of(account) == other.balance_of(account)
        &&& forall|account: Seq<char>| #[trigger]
            self.holds_balance(account) == other.holds_balance(account)
    }

    /// Both states hold records of the same items, highlights and accounts,
    /// with the same tips, totals, balances, counter and volume, and move
    /// value in the same way: they differ in governance at most.
    pub open spec fn same_books(&self, other: &TippingContract) -> bool {
        &&& self.mover() == other.mover()
        &&& self.tip_count() == other.tip_count()
        &&& self.volume() == other.volume()
        &&& self.recorded_sum() == other.recorded_sum()
        &&& self.balances_sum() == other.balances_sum()
        &&& forall|item: Seq<char>| #[trigger] self.tips_of(item) == other.tips_of(item)
        &&& forall|item: Seq<char>| #[trigger] self.total_of(item) == other.total_of(item)
        &&& forall|highlight: Seq<char>| #[trigger]
            self.highlight_tips_of(highlight) == other.highlight_tips_of(highlight)
        &&& forall|account: Seq<char>| #[trigger]
            self.balance_of(account) == other.balance_of(account)
        &&& forall|item: Seq<char>| #[trigger] self.holds_article(item) == other.holds_article(item)
        &&& forall|highlight: Seq<char>| #[trigger]
            self.holds_highlight(highlight) == other.holds_highlight(highlight)
        &&& forall|account: Seq<char>| #[trigger]
            self.holds_balance(account) == other.holds_balance(account)
    }

    /// In a valid state the records under any one key are in order.
    proof fn lemma_records_in_order(&self, key: Seq<char>)
        requires
            self.wf(),
        ensures
            self.total_of(key) == sum_amounts(self.tips_of(key)),
            0 <= self.total_of(key) <= self.total_volume,
            amounts_valid(self.tips_of(key)),
            amounts_valid(self.highlight_tips_of(key)),
            0 <= self.balance_of(key) <= self.total_volume,
            !self.mover.keeps_balances() ==> self.balance_of(key) == 0,
    {
    }

    /// A state that differs from a valid one in the records of one item, one
    /// highlight and two accounts at most is valid when those records are in
    /// order, the volume has not shrunk and the sums are right.
    proof fn lemma_validity_carries(
        &self,
        post: &TippingContract,
        item: Seq<char>,
        highlight: Seq<char>,
        one: Seq<char>,
        other: Seq<char>,
    )
        requires
            self.wf(),
            post.governance.wf(),
            post.article_tips.wf(),
            post.article_totals.wf(),
            post.highlight_tips.wf(),
            post.balances.wf(),
            post.mover == self.mover,
            self.total_volume <= post.total_volume,
            post.recorded_total == post.recorded_sum(),
            post.recorded_total <= post.total_volume,
            post.credited_total == post.balances_sum(),
            post.credited_total <= post.total_volume,
            forall|key: Seq<char>| key != item ==> #[trigger] post.tips_of(key) == self.tips_of(key),
            forall|key: Seq<char>|
                key != item ==> #[trigger] post.total_of(key) == self.total_of(key),
            forall|key: Seq<char>|
                key != highlight ==> #[trigger] post.highlight_tips_of(key)
                    == self.highlight_tips_of(key),
            forall|key: Seq<char>|
                key != one && key != other ==> #[trigger] post.balance_of(key) == self.balance_of(
                    key,
                ),
            post.total_of(item) == sum_amounts(post.tips_of(item)),
            0 <= post.total_of(item) <= post.total_volume,
            amounts_valid(post.tips_of(item)),
            amounts_valid(post.highlight_tips_of(highlight)),
            0 <= post.balance_of(one) <= post.total_volume,
            0 <= post.balance_of(other) <= post.total_volume,
            !post.mover.keeps_balances() ==> post.balance_of(one) == 0 && post.balance_of(other)
                == 0,
        ensures
            post.wf(),
    {
        assert forall|key: Seq<char>| #[trigger]
            post.total_of(key) == sum_amounts(post.tips_of(key)) by {
            self.lemma_records_in_order(key);
        }
        assert forall|key: Seq<char>| 0 <= #[trigger] post.total_of(key)
            <= post.total_volume by {
            self.lemma_records_in_order(key);
        }
        assert forall|key: Seq<char>| 0 <= #[trigger] post.balance_of(key)
            <= post.total_volume by {
            self.lemma_records_in_order(key);
        }
        if !post.mover.keeps_balances() {
            assert forall|key: Seq<char>| #[trigger] post.balance_of(key) == 0 by {
                self.lemma_records_in_order(key);
            }
        }
        assert forall|key: Seq<char>| amounts_valid(#[trigger] post.tips_of(key)) by {
            self.lemma_records_in_order(key);
        }
        assert forall|key: Seq<char>| amounts_valid(#[trigger] post.highlight_tips_of(key)) by {
            self.lemma_records_in_order(key);
        }
    }

    proof fn lemma_books_carry_wf(&self, post: &TippingContract)
        requires
            self.wf(),
            post.governance.wf(),
            post.mover == self.mover,
            post.article_tips == self.article_tips,
            post.article_totals == self.article_totals,
            post.highlight_tips == self.highlight_tips,
            post.balances == self.balances,
            post.tip_counter == self.tip_counter,
            post.total_volume == self.total_volume,
            post.recorded_total == self.recorded_total,
            post.credited_total == self.credited_total,
        ensures
            post.wf(),
            post.same_books(self),
    {
        let any = Seq::<char>::empty();
        self.lemma_records_in_order(any);
        self.lemma_validity_carries(post, any, any, any, any);
    }

    /// A contract before its first call, with the given way of moving value.
    pub fn new(mover: ValueMover) -> (contract: TippingContract)
        ensures
            contract.wf(),
            contract.mover() == mover,
            contract.governance().config() is None,
            contract.tip_count() == 0,
            contract.volume() == 0,
            forall|item: Seq<char>| #[trigger] contract.tips_of(item) == Seq::<SimpleTip>::empty(),
            forall|item: Seq<char>| #[trigger] contract.total_of(item) == 0,
            forall|highlight: Seq<char>| #[trigger]
                contract.highlight_tips_of(highlight) == Seq::<SimpleTip>::empty(),
            forall|account: Seq<char>| #[trigger] contract.balance_of(account) == 0,
            forall|item: Seq<char>| !(#[trigger] contract.holds_article(item)),
            forall|highlight: Seq<char>| !(#[trigger] contract.holds_highlight(highlight)),
            forall|account: Seq<char>| !(#[trigger] contract.holds_balance(account)),
            contract.recorded_sum() == 0,
            contract.balances_sum() == 0,
    {
        TippingContract {
            governance: Governance::new(),
            mover,
            article_tips: Table::new(),
            article_totals: Table::new(),
            highlight_tips: Table::new(),
            balances: Table::new(),
            tip_counter: 0,
            total_volume: 0,
            recorded_total: 0,
            credited_total: 0,
        }
    }

    /// Creates the configuration: the administrator, the platform account and
    /// the platform fee, which is 250 basis points where none is given.
    ///
    /// Fails with `AlreadyInitialized` when there is a configuration already,
    /// with `Unauthorized` when `admin` did not authorize the call, and with
    /// `FeeTooHigh` when the fee is above the highest fee.
    pub fn initialize(
        &mut self,
        auth: &Authorization,
        admin: &Address,
        platform_address: &Address,
        fee_bps: Option<u32>,
    ) -> (outcome: Result<(), Error>)
        requires
            old(self).wf(),
        ensures
            final(self).wf(),
            outcome == old(self).governance().initialize_outcome(auth@, admin@, fee_bps, None),
            outcome is Ok ==> final(self).governance().config() == Some(
                (GovernanceConfig {
                    admin: *admin,
                    platform_address: *platform_address,
                    platform_fee_bps: fee_or_default(fee_bps),
                    paused: false,
                    tip_threshold: DEFAULT_TIP_THRESHOLD,
                }),
            ),
            outcome is Ok ==> final(self).same_books(old(self)),
            outcome is Err ==> *final(self) == *old(self),
    {
        let outcome = self.governance.initialize(
            auth,
            admin.clone(),
            platform_address.clone(),
            fee_bps,
            None,
        );
        proof {
            old(self).lemma_books_carry_wf(final(self));
        }
        outcome
    }

    /// Checks a tip before any value is moved and says what is to be moved:
    /// the platform's fee and the creator's share, in this order. With an
    /// external ledger the caller moves the two, and then records the tip with
    /// the ledger's answer.
    ///
    /// Fails with `ContractPaused` when the pause is to be looked at and the
    /// contract is paused, with `Unauthorized` when `tipper` did not authorize
    /// the call, and with `BelowMinimum` when the amount is under the minimum
    /// tip.
    pub fn quote_tip(
        &self,
        pause_aware: bool,
        auth: &Authorization,
        tipper: &Address,
        amount: i128,
    ) -> (outcome: Result<(i128, i128), Error>)
        requires
            self.wf(),
        ensures
            self.tip_outcome(pause_aware, auth@, tipper@, amount, true) == match outcome {
                Ok(_) => Ok::<(), Error>(()),
                Err(error) => Err(error),
            },
            outcome matches Ok(split) ==> {
                &&& split.0 == platform_fee_of(amount as int, self.governance().fee_bps() as int)
                &&& split.0 + split.1 == amount
                &&& 0 <= split.0 <= amount
            },
    {
        if pause_aware && self.governance.is_paused() {
            return Err(Error::ContractPaused);
        }
        if !auth.has_authorized(tipper) {
            return Err(Error::Unauthorized);
        }
        if amount < MINIMUM_TIP_STROOPS {
            return Err(Error::BelowMinimum);
        }
        Ok(split_tip(amount, self.governance.platform_fee_bps()))
    }

    /// Records a tip in the sequence of an item or of a highlight.
    fn record(
        &mut self,
        pause_aware: bool,
        highlight: bool,
        auth: &Authorization,
        tipper: &Address,
        stream: &Symbol,
        author: &Address,
        amount: i128,
        now: u64,
        moved: bool,
    ) -> (outcome: Result<TipReceipt, Error>)
        requires
            old(self).wf(),
            old(self).governance().initialized(),
            old(self).tip_count() < u64::MAX,
            old(self).volume() + amount <= i128::MAX,
        ensures
            final(self).wf(),
            old(self).tip_outcome(pause_aware, auth@, tipper@, amount, moved) == match outcome {
                Ok(_) => Ok::<(), Error>(()),
                Err(error) => Err(error),
            },
            outcome matches Ok(receipt) ==> {
                let tip = SimpleTip { tipper: *tipper, amount, timestamp: now };
                &&& old(self).receipt_matches(receipt, amount, now)
                &&& receipt.author_received + receipt.platform_fee == receipt.amount_sent
                &&& 0 <= receipt.platform_fee <= receipt.amount_sent
                &&& highlight ==> old(self).highlight_tip_recorded(final(self), tip, stream@, author@)
                &&& !highlight ==> old(self).article_tip_recorded(final(self), tip, stream@, author@)
            },
            outcome is Err ==> *final(self) == *old(self),
    {
        let (platform_fee, author_share) = match self.quote_tip(pause_aware, auth, tipper, amount) {
            Ok(split) => split,
            Err(error) => {
                return Err(error);
            },
        };
        if !self.mover.supports_withdraw() && !moved {
            return Err(Error::TransferFailed);
        }
        let ghost before = *self;
        proof {
            assert(0 <= before.balance_of(author@) <= before.volume());
            assert(0 <= before.balance_of(before.platform_account()) <= before.volume());
            assert(0 <= before.total_of(stream@) <= before.volume());
            assert(before.total_of(stream@) == sum_amounts(before.tips_of(stream@)));
            assert(amounts_valid(before.highlight_tips_of(stream@)));
            lemma_sum_of_beginning(before.highlight_tips_of(stream@), 0);
            lemma_sum_amounts_push(
                before.highlight_tips_of(stream@),
                SimpleTip { tipper: *tipper, amount, timestamp: now },
            );
        }
        if self.mover.supports_withdraw() {
            add_amount(&mut self.balances, author.key(), author_share);
            let ghost credited = self.balances;
            proof {
                let held = before.balance_of(author@);
                assert(amount_weight()(credited@[author@]) == held + author_share);
                if before.balances@.contains_key(author@) {
                    assert(amount_weight()(before.balances@[author@]) == held);
                }
                assert(credited.total(amount_weight()) == before.balances.total(amount_weight())
                    + author_share);
            }
            if let Some(config) = self.governance.configuration() {
                let platform = &config.platform_address;
                add_amount(&mut self.balances, platform.key(), platform_fee);
                proof {
                    let held = amount_in(credited, platform@);
                    assert(amount_weight()(self.balances@[platform@]) == held + platform_fee);
                    if credited@.contains_key(platform@) {
                        assert(amount_weight()(credited@[platform@]) == held);
                    }
                    assert(self.balances.total(amount_weight()) == credited.total(
                        amount_weight(),
                    ) + platform_fee);
                }
            }
            self.credited_total = self.credited_total + amount;
        }
        self.tip_counter = self.tip_counter + 1;
        let tip = SimpleTip { tipper: tipper.clone(), amount, timestamp: now };
        if highlight {
            append_tip(&mut self.highlight_tips, stream.key(), tip);
            proof {
                let held = before.highlight_tips_of(stream@);
                assert(tips_weight()(self.highlight_tips@[stream@]) == sum_amounts(held) + amount);
                if before.highlight_tips@.contains_key(stream@) {
                    assert(tips_weight()(before.highlight_tips@[stream@]) == sum_amounts(held));
                }
                assert(sum_amounts(Seq::<SimpleTip>::empty()) == 0);
                assert(self.highlight_tips.total(tips_weight()) == before.highlight_tips.total(
                    tips_weight(),
                ) + amount);
            }
        } else {
            append_tip(&mut self.article_tips, stream.key(), tip);
            add_amount(&mut self.article_totals, stream.key(), amount);
            proof {
                lemma_sum_amounts_push(before.tips_of(stream@), tip);
                let held = before.total_of(stream@);
                assert(amount_weight()(self.article_totals@[stream@]) == held + amount);
                if before.article_totals@.contains_key(stream@) {
                    assert(amount_weight()(before.article_totals@[stream@]) == held);
                }
                assert(self.article_totals.total(amount_weight()) == before.article_totals.total(
                    amount_weight(),
                ) + amount);
            }
        }
        self.recorded_total = self.recorded_total + amount;
        self.total_volume = self.total_volume + amount;
        proof {
            let after = *self;
            assert forall|account: Seq<char>| #[trigger]
                after.balance_of(account) == before.balance_of(account) + before.credited(
                    account,
                    author@,
                    amount,
                ) by {}
            before.lemma_records_in_order(stream@);
            if highlight {
                lemma_valid_push(before.highlight_tips_of(stream@), tip);
            } else {
                lemma_valid_push(before.tips_of(stream@), tip);
            }
            before.lemma_validity_carries(
                &after,
                stream@,
                stream@,
                author@,
                before.platform_account(),
            );
        }
        Ok(
            TipReceipt {
                tip_id: self.tip_counter,
                amount_sent: amount,
                author_received: author_share,
                platform_fee,
                timestamp: now,
            },
        )
    }

    /// Records a tip of `amount` from `tipper` to the item `article_id`, whose
    /// creator is `author`, at time `now`. With an external ledger, `moved`
    /// says whether the ledger moved the two shares. This entry point does not
    /// look at the pause flag.
    ///
    /// Fails with `Unauthorized` when `tipper` did not authorize the call,
    /// with `BelowMinimum` when the amount is under the minimum tip, and with
    /// `TransferFailed` when an external ledger did not move the value.
    pub fn tip_article(
        &mut self,
        auth: &Authorization,
        tipper: &Address,
        article_id: &Symbol,
        author: &Address,
        amount: i128,
        now: u64,
        moved: bool,
    ) -> (outcome: Result<TipReceipt, Error>)
        requires
            old(self).wf(),
            old(self).governance().initialized(),
            old(self).tip_count() < u64::MAX,
            old(self).volume() + amount <= i128::MAX,
        ensures
            final(self).wf(),
            old(self).tip_outcome(false, auth@, tipper@, amount, moved) == match outcome {
                Ok(_) => Ok::<(), Error>(()),
                Err(error) => Err(error),
            },
            outcome matches Ok(receipt) ==> {
                &&& old(self).receipt_matches(receipt, amount, now)
                &&& receipt.author_received + receipt.platform_fee == receipt.amount_sent
                &&& 0 <= receipt.platform_fee <= receipt.amount_sent
                &&& old(self).article_tip_recorded(
                    final(self),
                    SimpleTip { tipper: *tipper, amount, timestamp: now },
                    article_id@,
                    author@,
                )
            },
            outcome is Err ==> *final(self) == *old(self),
    {
        self.record(false, false, auth, tipper, article_id, author, amount, now, moved)
    }

    /// Records a tip as `tip_article` does, unless the contract is paused.
    ///
    /// Fails with `ContractPaused` when the contract is paused, and else as
    /// `tip_article` does.
    pub fn record_tip(
        &mut self,
        auth: &Authorization,
        tipper: &Address,
        item_id: &Symbol,
        creator: &Address,
        amount: i128,
        now: u64,
        moved: bool,
    ) -> (outcome: Result<TipReceipt, Error>)
        requires
            old(self).wf(),
            old(self).governance().initialized(),
            old(self).tip_count() < u64::MAX,
            old(self).volume() + amount <= i128::MAX,
        ensures
            final(self).wf(),
            old(self).tip_outcome(true, auth@, tipper@, amount, moved) == match outcome {
                Ok(_) => Ok::<(), Error>(()),
                Err(error) => Err(error),
            },
            outcome matches Ok(receipt) ==> {
                &&& old(self).receipt_matches(receipt, amount, now)
                &&& receipt.author_received + receipt.platform_fee == receipt.amount_sent
                &&& 0 <= receipt.platform_fee <= receipt.amount_sent
                &&& old(self).article_tip_recorded(
                    final(self),
                    SimpleTip { tipper: *tipper, amount, timestamp: now },
                    item_id@,
                    creator@,
                )
            },
            outcome is Err ==> *final(self) == *old(self),
    {
        self.record(true, false, auth, tipper, item_id, creator, amount, now, moved)
    }

    /// Records a tip to the highlight `highlight_id` of the item `item_id`,
    /// unless the contract is paused. The tip joins the highlight's own
    /// sequence and counts for the tip sequence and the volume; the item's
    /// tips and total stay as they are.
    ///
    /// Fails as `record_tip` does.
    pub fn record_highlight_tip(
        &mut self,
        auth: &Authorization,
        tipper: &Address,
        highlight_id: &Symbol,
        item_id: &Symbol,
        creator: &Address,
        amount: i128,
        now: u64,
        moved: bool,
    ) -> (outcome: Result<TipReceipt, Error>)
        requires
            old(self).wf(),
            old(self).governance().initialized(),
            old(self).tip_count() < u64::MAX,
            old(self).volume() + amount <= i128::MAX,
        ensures
            final(self).wf(),
            old(self).tip_outcome(true, auth@, tipper@, amount, moved) == match outcome {
                Ok(_) => Ok::<(), Error>(()),
                Err(error) => Err(error),
            },
            outcome matches Ok(receipt) ==> {
                &&& old(self).receipt_matches(receipt, amount, now)
                &&& receipt.author_received + receipt.platform_fee == receipt.amount_sent
                &&& 0 <= receipt.platform_fee <= receipt.amount_sent
                &&& old(self).highlight_tip_recorded(
                    final(self),
                    SimpleTip { tipper: *tipper, amount, timestamp: now },
                    highlight_id@,
                    creator@,
                )
            },
            final(self).total_of(item_id@) == old(self).total_of(item_id@),
            final(self).tips_of(item_id@) == old(self).tips_of(item_id@),
            outcome is Err ==> *final(self) == *old(self),
    {
        self.record(true, true, auth, tipper, highlight_id, creator, amount, now, moved)
    }

    /// Whether balances are kept here, so that `withdraw_earnings` has
    /// something to pay out. Where they are not, every balance is zero because
    /// the value went to the receivers directly.
    pub fn supports_withdraw(&self) -> (supported: bool)
        ensures
            supported == self.mover().keeps_balances(),
    {
        self.mover.supports_withdraw()
    }

    /// Pays out the whole balance of `author` and returns it; the balance is
    /// zero afterwards. The balance must not be zero.
    ///
    /// Fails with `Unauthorized` when `author` did not authorize the call.
    pub fn withdraw_earnings(&mut self, auth: &Authorization, author: &Address) -> (outcome: Result<
        i128,
        Error,
    >)
        requires
            old(self).wf(),
            old(self).balance_of(author@) != 0,
        ensures
            final(self).wf(),
            outcome == (if auth@.contains(author@) {
                Ok::<i128, Error>(old(self).balance_of(author@))
            } else {
                Err(Error::Unauthorized)
            }),
            outcome is Ok ==> {
                &&& final(self).balance_of(author@) == 0
                &&& forall|other: Seq<char>|
                    other != author@ ==> #[trigger] final(self).balance_of(other) == old(
                        self,
                    ).balance_of(other)
                &&& final(self).balances_sum() == old(self).balances_sum() - old(self).balance_of(
                    author@,
                )
                &&& final(self).governance() == old(self).governance()
                &&& final(self).mover() == old(self).mover()
                &&& final(self).tip_count() == old(self).tip_count()
                &&& final(self).volume() == old(self).volume()
                &&& final(self).recorded_sum() == old(self).recorded_sum()
                &&& forall|item: Seq<char>| #[trigger]
                    final(self).tips_of(item) == old(self).tips_of(item)
                &&& forall|item: Seq<char>| #[trigger]
                    final(self).total_of(item) == old(self).total_of(item)
                &&& forall|highlight: Seq<char>| #[trigger]
                    final(self).highlight_tips_of(highlight) == old(self).highlight_tips_of(
                        highlight,
                    )
                &&& forall|account: Seq<char>| #[trigger]
                    final(self).holds_balance(account) == old(self).holds_balance(account)
                &&& forall|item: Seq<char>| #[trigger]
                    final(self).holds_article(item) == old(self).holds_article(item)
                &&& forall|highlight: Seq<char>| #[trigger]
                    final(self).holds_highlight(highlight) == old(self).holds_highlight(highlight)
            },
            outcome is Err ==> *final(self) == *old(self),
    {
        if !auth.has_authorized(author) {
            return Err(Error::Unauthorized);
        }
        let ghost before = *self;
        let balance = self.get_balance(author);
        proof {
            assert(0 <= before.balance_of(author@) <= before.total_volume);
        }
        self.balances.set(author.key().clone(), 0);
        proof {
            assert(amount_weight()(before.balances@[author@]) == balance);
            assert(amount_weight()(0i128) == 0);
            assert(self.balances.total(amount_weight()) + balance == before.balances.total(
                amount_weight(),
            ));
        }
        self.credited_total = self.credited_total - balance;
        proof {
            let after = *self;
            before.lemma_records_in_order(author@);
            before.lemma_validity_carries(&after, author@, author@, author@, author@);
        }
        Ok(balance)
    }

    /// Sets the platform fee.
    ///
    /// Fails with `Unauthorized` unless the administrator makes the call, and
    /// with `FeeTooHigh` when the fee is above 1000 basis points.
    pub fn update_fee(&mut self, auth: &Authorization, admin: &Address, new_fee_bps: u32) -> (outcome:
        Result<(), Error>)
        requires
            old(self).wf(),
        ensures
            final(self).wf(),
            outcome == old(self).governance().set_fee_outcome(auth@, admin@, new_fee_bps),
            outcome is Ok ==> final(self).governance().config() == Some(
                (GovernanceConfig {
                    platform_fee_bps: new_fee_bps,
                    ..old(self).governance().config()->Some_0
                }),
            ),
            outcome is Ok ==> final(self).same_books(old(self)),
            outcome is Err ==> *final(self) == *old(self),
    {
        let outcome = self.governance.set_fee(auth, admin, new_fee_bps);
        proof {
            old(self).lemma_books_carry_wf(final(self));
        }
        outcome
    }

    /// Pauses the contract: the pause-aware entry points refuse tips until the
    /// pause ends.
    ///
    /// Fails with `Unauthorized` unless the administrator makes the call.
    pub fn pause(&mut self, auth: &Authorization, admin: &Address) -> (outcome: Result<(), Error>)
        requires
            old(self).wf(),
        ensures
            final(self).wf(),
            outcome == old(self).governance().admin_outcome(auth@, admin@),
            outcome is Ok ==> final(self).governance().config() == Some(
                (GovernanceConfig { paused: true, ..old(self).governance().config()->Some_0 }),
            ),
            outcome is Ok ==> final(self).same_books(old(self)),
            outcome is Err ==> *final(self) == *old(self),
    {
        let outcome = self.governance.pause(auth, admin);
        proof {
            old(self).lemma_books_carry_wf(final(self));
        }
        outcome
    }

    /// Ends the pause.
    ///
    /// Fails with `Unauthorized` unless the administrator makes the call.
    pub fn unpause(&mut self, auth: &Authorization, admin: &Address) -> (outcome: Result<(), Error>)
        requires
            old(self).wf(),
        ensures
            final(self).wf(),
            outcome == old(self).governance().admin_outcome(auth@, admin@),
            outcome is Ok ==> final(self).governance().config() == Some(
                (GovernanceConfig { paused: false, ..old(self).governance().config()->Some_0 }),
            ),
            outcome is Ok ==> final(self).same_books(old(self)),
            outcome is Err ==> *final(self) == *old(self),
    {
        let outcome = self.governance.unpause(auth, admin);
        proof {
            old(self).lemma_books_carry_wf(final(self));
        }
        outcome
    }

    /// Whether the contract is paused.
    pub fn is_paused(&self) -> (paused: bool)
        ensures
            paused == self.governance().paused(),
    {
        self.governance.is_paused()
    }

    /// Whether the configuration was created.
    pub fn is_initialized(&self) -> (initialized: bool)
        ensures
            initialized == self.governance().initialized(),
    {
        self.governance.is_initialized()
    }

    /// The platform fee in basis points.
    pub fn get_platform_fee_bps(&self) -> (fee: u32)
        ensures
            fee == self.governance().fee_bps(),
    {
        self.governance.platform_fee_bps()
    }

    /// The tips recorded for an item, oldest first; none for an item that was
    /// never tipped.
    pub fn get_article_tips(&self, article_id: &Symbol) -> (tips: Vec<SimpleTip>)
        requires
            self.wf(),
        ensures
            tips@ == self.tips_of(article_id@),
    {
        match self.article_tips.get(article_id.key()) {
            Some(tips) => copy_tips(tips),
            None => Vec::new(),
        }
    }

    /// The tips recorded for a highlight, oldest first; none for a highlight
    /// that was never tipped.
    pub fn get_highlight_tips(&self, highlight_id: &Symbol) -> (tips: Vec<SimpleTip>)
        requires
            self.wf(),
        ensures
            tips@ == self.highlight_tips_of(highlight_id@),
    {
        match self.highlight_tips.get(highlight_id.key()) {
            Some(tips) => copy_tips(tips),
            None => Vec::new(),
        }
    }

    /// The balance credited to `author` and not yet withdrawn; zero for an
    /// account that was never credited.
    pub fn get_balance(&self, author: &Address) -> (balance: i128)
        requires
            self.wf(),
        ensures
            balance == self.balance_of(author@),
    {
        match self.balances.get(author.key()) {
            Some(balance) => *balance,
            None => 0,
        }
    }

    /// The total tipped to an item; zero for an item that was never tipped.
    pub fn get_article_total_tips(&self, article_id: &Symbol) -> (total: i128)
        requires
            self.wf(),
        ensures
            total == self.total_of(article_id@),
            total == sum_amounts(self.tips_of(article_id@)),
    {
        assert(self.total_of(article_id@) == sum_amounts(self.tips_of(article_id@)));
        match self.article_totals.get(article_id.key()) {
            Some(total) => *total,
            None => 0,
        }
    }

    /// Whether the total tipped to an item has reached `threshold`.
    pub fn is_nft_eligible(&self, article_id: &Symbol, threshold: i128) -> (eligible: bool)
        requires
            self.wf(),
        ensures
            eligible == (self.total_of(article_id@) >= threshold),
    {
        self.get_article_total_tips(article_id) >= threshold
    }

    /// The total of all tips accepted so far.
    pub fn get_total_volume(&self) -> (volume: i128)
        ensures
            volume == self.volume(),
    {
        self.total_volume
    }

    /// The number of tips accepted so far, which is the id of the latest.
    pub fn get_tip_count(&self) -> (count: u64)
        ensures
            count == self.tip_count(),
    {
        self.tip_counter
    }

    /// The contract as it is kept in storage, before any record of an item, a
    /// highlight or an account is brought in. A negative volume is refused.
    pub fn restore(
        mover: ValueMover,
        governance: Governance,
        tip_counter: u64,
        total_volume: i128,
    ) -> (contract: Option<TippingContract>)
        requires
            governance.wf(),
        ensures
            contract is Some == (total_volume >= 0),
            contract matches Some(restored) ==> {
                &&& restored.wf()
                &&& restored.mover() == mover
                &&& restored.governance() == governance
                &&& restored.tip_count() == tip_counter
                &&& restored.volume() == total_volume
                &&& forall|item: Seq<char>|
                    !(#[trigger] restored.holds_article(item)) && restored.tips_of(item)
                        == Seq::<SimpleTip>::empty() && restored.total_of(item) == 0
                &&& forall|highlight: Seq<char>|
                    !(#[trigger] restored.holds_highlight(highlight))
                        && restored.highlight_tips_of(highlight) == Seq::<SimpleTip>::empty()
                &&& forall|account: Seq<char>|
                    !(#[trigger] restored.holds_balance(account)) && restored.balance_of(account)
                        == 0
            },
    {
        if total_volume < 0 {
            return None;
        }
        Some(
            TippingContract {
                governance,
                mover,
                article_tips: Table::new(),
                article_totals: Table::new(),
                highlight_tips: Table::new(),
                balances: Table::new(),
                tip_counter,
                total_volume,
                recorded_total: 0,
                credited_total: 0,
            },
        )
    }

    /// Brings in the stored tips and total of an item and says whether they
    /// were accepted. They are when no record of the item is held yet, every
    /// tip is of the minimum tip at least, the total is the sum of the tips,
    /// and what is recorded does not add up to more than the volume with it.
    /// Refused records change nothing.
    pub fn restore_article(&mut self, article_id: &Symbol, tips: Vec<SimpleTip>, total: i128) -> (accepted:
        bool)
        requires
            old(self).wf(),
        ensures
            final(self).wf(),
            accepted == (!old(self).holds_article(article_id@) && amounts_valid(tips@) && total
                == sum_amounts(tips@) && total <= old(self).volume() - old(self).recorded_sum()),
            accepted ==> {
                &&& final(self).recorded_sum() == old(self).recorded_sum() + total
                &&& final(self).holds_article(article_id@)
                &&& final(self).tips_of(article_id@) == tips@
                &&& final(self).total_of(article_id@) == total
                &&& forall|other: Seq<char>|
                    other != article_id@ ==> #[trigger] final(self).tips_of(other) == old(
                        self,
                    ).tips_of(other)
                &&& forall|other: Seq<char>|
                    other != article_id@ ==> #[trigger] final(self).total_of(other) == old(
                        self,
                    ).total_of(other)
                &&& forall|other: Seq<char>|
                    other != article_id@ ==> #[trigger] final(self).holds_article(other) == old(
                        self,
                    ).holds_article(other)
                &&& final(self).same_ledger(old(self))
                &&& forall|highlight: Seq<char>| #[trigger]
                    final(self).highlight_tips_of(highlight) == old(self).highlight_tips_of(
                        highlight,
                    )
                &&& forall|highlight: Seq<char>| #[trigger]
                    final(self).holds_highlight(highlight) == old(self).holds_highlight(highlight)
            },
            !accepted ==> *final(self) == *old(self),
    {
        if self.article_tips.has(article_id.key()) || self.article_totals.has(article_id.key()) {
            return false;
        }
        if total > self.total_volume - self.recorded_total {
            return false;
        }
        let mut sum: i128 = 0;
        let mut i: usize = 0;
        while i < tips.len()
            invariant
                *self == *old(self),
                self.wf(),
                !self.holds_article(article_id@),
                total <= self.volume() - self.recorded_sum(),
                i <= tips@.len(),
                amounts_valid(tips@.take(i as int)),
                sum == sum_amounts(tips@.take(i as int)),
                0 <= sum,
                sum <= total || i == 0,
            decreases tips@.len() - i,
        {
            let amount = tips[i].amount;
            proof {
                assert(tips@.take(i + 1) =~= tips@.take(i as int).push(tips@[i as int]));
                lemma_sum_amounts_push(tips@.take(i as int), tips@[i as int]);
                if amounts_valid(tips@) {
                    lemma_sum_of_beginning(tips@, i + 1);
                }
            }
            if amount < MINIMUM_TIP_STROOPS {
                return false;
            }
            if total < 0 || amount > total - sum {
                return false;
            }
            proof {
                lemma_valid_push(tips@.take(i as int), tips@[i as int]);
            }
            sum = sum + amount;
            i += 1;
        }
        proof {
            assert(tips@.take(tips@.len() as int) =~= tips@);
        }
        if sum != total {
            return false;
        }
        let ghost before = *self;
        let ghost held = tips@;
        self.article_tips.set(article_id.key().clone(), tips);
        self.article_totals.set(article_id.key().clone(), total);
        self.recorded_total = self.recorded_total + total;
        proof {
            let after = *self;
            assert(amount_weight()(total) == total);
            assert(after.article_totals.total(amount_weight()) == before.article_totals.total(
                amount_weight(),
            ) + total);
            assert forall|account: Seq<char>| #[trigger]
                after.balance_of(account) == before.balance_of(account) by {}
            before.lemma_records_in_order(article_id@);
            before.lemma_validity_carries(
                &after,
                article_id@,
                article_id@,
                article_id@,
                article_id@,
            );
        }
        true
    }

    /// Brings in the stored tips of a highlight and says whether they were
    /// accepted. They are when no tips of the highlight are held yet, every
    /// tip is of the minimum tip at least, and what is recorded does not add
    /// up to more than the volume with them. Refused records change nothing.
    pub fn restore_highlight(&mut self, highlight_id: &Symbol, tips: Vec<SimpleTip>) -> (accepted:
        bool)
        requires
            old(self).wf(),
        ensures
            final(self).wf(),
            accepted == (!old(self).holds_highlight(highlight_id@) && amounts_valid(tips@)
                && sum_amounts(tips@) <= old(self).volume() - old(self).recorded_sum()),
            accepted ==> {
                &&& final(self).recorded_sum() == old(self).recorded_sum() + sum_amounts(tips@)
                &&& final(self).holds_highlight(highlight_id@)
                &&& final(self).highlight_tips_of(highlight_id@) == tips@
                &&& forall|other: Seq<char>|
                    other != highlight_id@ ==> #[trigger] final(self).highlight_tips_of(other)
                        == old(self).highlight_tips_of(other)
                &&& forall|other: Seq<char>|
                    other != highlight_id@ ==> #[trigger] final(self).holds_highlight(other)
                        == old(self).holds_highlight(other)
                &&& final(self).same_ledger(old(self))
                &&& forall|item: Seq<char>| #[trigger]
                    final(self).tips_of(item) == old(self).tips_of(item)
                &&& forall|item: Seq<char>| #[trigger]
                    final(self).total_of(item) == old(self).total_of(item)
                &&& forall|item: Seq<char>| #[trigger]
                    final(self).holds_article(item) == old(self).holds_article(item)
            },
            !accepted ==> *final(self) == *old(self),
    {
        if self.highlight_tips.has(highlight_id.key()) {
            return false;
        }
        let room = self.total_volume - self.recorded_total;
        let mut sum: i128 = 0;
        let mut i: usize = 0;
        while i < tips.len()
            invariant
                *self == *old(self),
                self.wf(),
                !self.holds_highlight(highlight_id@),
                room == self.volume() - self.recorded_sum(),
                i <= tips@.len(),
                amounts_valid(tips@.take(i as int)),
                sum == sum_amounts(tips@.take(i as int)),
                0 <= sum <= room,
            decreases tips@.len() - i,
        {
            let amount = tips[i].amount;
            proof {
                assert(tips@.take(i + 1) =~= tips@.take(i as int).push(tips@[i as int]));
                lemma_sum_amounts_push(tips@.take(i as int), tips@[i as int]);
                if amounts_valid(tips@) {
                    lemma_sum_of_beginning(tips@, i + 1);
                }
            }
            if amount < MINIMUM_TIP_STROOPS {
                return false;
            }
            if amount > room - sum {
                return false;
            }
            proof {
                lemma_valid_push(tips@.take(i as int), tips@[i as int]);
            }
            sum = sum + amount;
            i += 1;
        }
        proof {
            assert(tips@.take(tips@.len() as int) =~= tips@);
        }
        let ghost before = *self;
        let ghost held = tips;
        self.highlight_tips.set(highlight_id.key().clone(), tips);
        self.recorded_total = self.recorded_total + sum;
        proof {
            let after = *self;
            assert(tips_weight()(held) == sum);
            assert(after.highlight_tips.total(tips_weight()) == before.highlight_tips.total(
                tips_weight(),
            ) + sum);
            assert forall|account: Seq<char>| #[trigger]
                after.balance_of(account) == before.balance_of(account) by {}
            before.lemma_records_in_order(highlight_id@);
            before.lemma_validity_carries(
                &after,
                highlight_id@,
                highlight_id@,
                highlight_id@,
                highlight_id@,
            );
        }
        true
    }

    /// Brings in the stored balance of an account and says whether it was
    /// accepted. It is when no balance of the account is held yet, the balance
    /// is not negative, the balances held do not add up to more than the
    /// volume with it, and, where balances are not kept, it is zero. A refused
    /// balance changes nothing.
    pub fn restore_balance(&mut self, account: &Address, balance: i128) -> (accepted: bool)
        requires
            old(self).wf(),
        ensures
            final(self).wf(),
            accepted == (!old(self).holds_balance(account@) && 0 <= balance <= old(self).volume()
                - old(self).balances_sum() && (old(self).mover().keeps_balances() || balance
                == 0)),
            accepted ==> {
                &&& final(self).holds_balance(account@)
                &&& final(self).balance_of(account@) == balance
                &&& final(self).balances_sum() == old(self).balances_sum() + balance
                &&& final(self).recorded_sum() == old(self).recorded_sum()
                &&& forall|other: Seq<char>|
                    other != account@ ==> #[trigger] final(self).balance_of(other) == old(
                        self,
                    ).balance_of(other)
                &&& forall|other: Seq<char>|
                    other != account@ ==> #[trigger] final(self).holds_balance(other) == old(
                        self,
                    ).holds_balance(other)
                &&& final(self).governance() == old(self).governance()
                &&& final(self).mover() == old(self).mover()
                &&& final(self).tip_count() == old(self).tip_count()
                &&& final(self).volume() == old(self).volume()
                &&& forall|item: Seq<char>| #[trigger]
                    final(self).tips_of(item) == old(self).tips_of(item)
                &&& forall|item: Seq<char>| #[trigger]
                    final(self).total_of(item) == old(self).total_of(item)
                &&& forall|item: Seq<char>| #[trigger]
                    final(self).holds_article(item) == old(self).holds_article(item)
                &&& forall|highlight: Seq<char>| #[trigger]
                    final(self).highlight_tips_of(highlight) == old(self).highlight_tips_of(
                        highlight,
                    )
                &&& forall|highlight: Seq<char>| #[trigger]
                    final(self).holds_highlight(highlight) == old(self).holds_highlight(highlight)
            },
            !accepted ==> *final(self) == *old(self),
    {
        if self.balances.has(account.key()) {
            return false;
        }
        if balance < 0 || balance > self.total_volume - self.credited_total {
            return false;
        }
        if !self.mover.supports_withdraw() && balance != 0 {
            return false;
        }
        let ghost before = *self;
        self.balances.set(account.key().clone(), balance);
        self.credited_total = self.credited_total + balance;
        proof {
            let after = *self;
            assert(amount_weight()(balance) == balance);
            assert(after.balances.total(amount_weight()) == before.balances.total(amount_weight())
                + balance);
            before.lemma_records_in_order(account@);
            before.lemma_validity_carries(&after, account@, account@, account@, account@);
        }
        true
    }

    /// An item's total is the sum of the amounts of the tips recorded for it.
    pub proof fn lemma_total_is_sum_of_tips(&self, item: Seq<char>)
        requires
            self.wf(),
        ensures
            self.total_of(item) == sum_amounts(self.tips_of(item)),
            0 <= self.total_of(item) <= self.volume(),
    {
    }

    /// No balance is negative, the balances held add up to no more than the
    /// volume, and where balances are not kept every balance is zero.
    pub proof fn lemma_balances_within_volume(&self, account: Seq<char>)
        requires
            self.wf(),
        ensures
            0 <= self.balance_of(account) <= self.volume(),
            self.balances_sum() <= self.volume(),
            !self.mover().keeps_balances() ==> self.balance_of(account) == 0,
    {
        assert(0 <= self.balance_of(account) <= self.total_volume);
    }

    /// The totals of the items held and the tips of the highlights held add
    /// up to no more than the volume.
    pub proof fn lemma_recorded_within_volume(&self)
        requires
            self.wf(),
        ensures
            self.recorded_sum() <= self.volume(),
    {
    }

    /// The receipt of an accepted tip shares out the whole amount: the fee is
    /// the amount times the fee in basis points, divided by ten thousand and
    /// rounded down, and the creator receives the rest.
    pub proof fn lemma_receipt_shares_amount(&self, receipt: TipReceipt, amount: i128, now: u64)
        requires
            self.receipt_matches(receipt, amount, now),
        ensures
            receipt.author_received + receipt.platform_fee == receipt.amount_sent,
            receipt.platform_fee == amount * self.governance().fee_bps() / 10_000,
    {
    }

    /// The first tip that a contract accepts has the id 1.
    pub proof fn lemma_first_tip_has_id_one(&self, receipt: TipReceipt, amount: i128, now: u64)
        requires
            self.tip_count() == 0,
            self.receipt_matches(receipt, amount, now),
        ensures
            receipt.tip_id == 1,
    {
    }

    /// The tip after a tip has the next id, whatever the two tips went to: an
    /// item or a highlight, the same or another.
    pub proof fn lemma_tip_ids_follow(
        &self,
        next: &TippingContract,
        first: TipReceipt,
        second: TipReceipt,
        author: Seq<char>,
        first_amount: i128,
        second_amount: i128,
        first_time: u64,
        second_time: u64,
    )
        requires
            self.receipt_matches(first, first_amount, first_time),
            self.value_moved(next, author, first_amount),
            next.receipt_matches(second, second_amount, second_time),
        ensures
            second.tip_id == first.tip_id + 1,
    {
    }

    /// Two tips give every item the same total in whichever order they are
    /// recorded.
    pub proof fn lemma_totals_ignore_order(
        &self,
        one_then: &TippingContract,
        one_then_other: &TippingContract,
        other_then: &TippingContract,
        other_then_one: &TippingContract,
        one: SimpleTip,
        one_item: Seq<char>,
        one_author: Seq<char>,
        other: SimpleTip,
        other_item: Seq<char>,
        other_author: Seq<char>,
    )
        requires
            self.article_tip_recorded(one_then, one, one_item, one_author),
            one_then.article_tip_recorded(one_then_other, other, other_item, other_author),
            self.article_tip_recorded(other_then, other, other_item, other_author),
            other_then.article_tip_recorded(other_then_one, one, one_item, one_author),
        ensures
            forall|item: Seq<char>|
                one_then_other.total_of(item) == other_then_one.total_of(item),
            one_then_other.volume() == other_then_one.volume(),
            one_then_other.tip_count() == other_then_one.tip_count(),
    {
        assert forall|item: Seq<char>|
            one_then_other.total_of(item) == other_then_one.total_of(item) by {
            if item != one_item {
                assert(one_then.total_of(item) == self.total_of(item));
                assert(other_then_one.total_of(item) == other_then.total_of(item));
            }
            if item != other_item {
                assert(one_then_other.total_of(item) == one_then.total_of(item));
                assert(other_then.total_of(item) == self.total_of(item));
            }
        }
    }
}

} // verus!

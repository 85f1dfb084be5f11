use quilltip::auth::Authorization;
use quilltip::error::Error;
use quilltip::identity::{Address, Symbol};
use quilltip::tipping::{split_tip, TipReceipt, TippingContract, ValueMover};

fn account(text: &str) -> Address {
    Address::new(text.to_string())
}

fn item(name: &str) -> Symbol {
    Symbol::new(name.to_string())
}

fn signed_by(actor: &Address) -> Authorization {
    Authorization::of(actor.clone())
}

fn ready(fee_bps: Option<u32>, mover: ValueMover) -> TippingContract {
    let admin = account("admin");
    let platform = account("platform");
    let mut contract = TippingContract::new(mover);
    assert_eq!(contract.initialize(&signed_by(&admin), &admin, &platform, fee_bps), Ok(()));
    contract
}

#[test]
fn test_initialize() {
    let admin = account("admin");
    let platform = account("platform");
    let mut contract = TippingContract::new(ValueMover::InternalAccumulatorMover);

    assert_eq!(contract.initialize(&signed_by(&admin), &admin, &platform, Some(250)), Ok(()));

    let volume = contract.get_total_volume();
    assert_eq!(volume, 0);
}

#[test]
fn test_tip_article() {
    let tipper = account("tipper");
    let author = account("author");
    let mut contract = ready(Some(250), ValueMover::InternalAccumulatorMover);

    let receipt = contract
        .tip_article(&signed_by(&tipper), &tipper, &item("article1"), &author, 1_000_000, 0, false)
        .unwrap();

    assert_eq!(receipt.amount_sent, 1_000_000);
    assert_eq!(receipt.platform_fee, 25_000);
    assert_eq!(receipt.author_received, 975_000);

    let balance = contract.get_balance(&author);
    assert_eq!(balance, 975_000);

    let tips = contract.get_article_tips(&item("article1"));
    assert_eq!(tips.len(), 1);
}

#[test]
fn test_minimum_tip_enforcement() {
    let tipper = account("tipper");
    let author = account("author");
    let mut contract = ready(Some(250), ValueMover::InternalAccumulatorMover);

    let outcome =
        contract.tip_article(&signed_by(&tipper), &tipper, &item("article1"), &author, 50_000, 0, false);

    assert_eq!(outcome, Err(Error::BelowMinimum));
    assert_eq!(contract.get_total_volume(), 0);
    assert_eq!(contract.get_tip_count(), 0);
    assert_eq!(contract.get_article_tips(&item("article1")).len(), 0);
}

#[test]
fn test_withdraw_earnings() {
    let tipper = account("tipper");
    let author = account("author");
    let mut contract = ready(Some(250), ValueMover::InternalAccumulatorMover);

    contract
        .tip_article(&signed_by(&tipper), &tipper, &item("art1"), &author, 1_000_000, 0, false)
        .unwrap();
    contract
        .tip_article(&signed_by(&tipper), &tipper, &item("art2"), &author, 2_000_000, 0, false)
        .unwrap();

    let balance = contract.get_balance(&author);
    assert_eq!(balance, 975_000 + 1_950_000);

    assert!(contract.supports_withdraw());
    let withdrawn = contract.withdraw_earnings(&signed_by(&author), &author);
    assert_eq!(withdrawn, Ok(2_925_000));

    let new_balance = contract.get_balance(&author);
    assert_eq!(new_balance, 0);
}

#[test]
fn withdraw_needs_the_authors_authorization() {
    let tipper = account("tipper");
    let author = account("author");
    let mut contract = ready(Some(250), ValueMover::InternalAccumulatorMover);
    contract
        .tip_article(&signed_by(&tipper), &tipper, &item("art1"), &author, 1_000_000, 0, false)
        .unwrap();

    assert_eq!(contract.withdraw_earnings(&signed_by(&tipper), &author), Err(Error::Unauthorized));
    assert_eq!(contract.get_balance(&author), 975_000);
}

#[test]
fn withdraw_leaves_other_balances() {
    let tipper = account("tipper");
    let author = account("author");
    let mut contract = ready(Some(250), ValueMover::InternalAccumulatorMover);
    contract
        .tip_article(&signed_by(&tipper), &tipper, &item("art1"), &author, 1_000_000, 0, false)
        .unwrap();

    assert_eq!(contract.withdraw_earnings(&signed_by(&author), &author), Ok(975_000));
    assert_eq!(contract.get_balance(&account("platform")), 25_000);
    assert_eq!(contract.get_total_volume(), 1_000_000);
    assert_eq!(contract.get_article_total_tips(&item("art1")), 1_000_000);
}

#[test]
fn split_rounds_the_fee_down() {
    assert_eq!(split_tip(1_000_000, 250), (25_000, 975_000));
    assert_eq!(split_tip(60_000_000, 250), (1_500_000, 58_500_000));
    assert_eq!(split_tip(100_001, 250), (2_500, 97_501));
    assert_eq!(split_tip(100_039, 250), (2_500, 97_539));
    assert_eq!(split_tip(100_040, 250), (2_501, 97_539));
    assert_eq!(split_tip(39, 250), (0, 39));
    assert_eq!(split_tip(0, 250), (0, 0));
}

#[test]
fn split_at_the_fee_limits() {
    assert_eq!(split_tip(1_000_000, 0), (0, 1_000_000));
    assert_eq!(split_tip(1_000_000, 1000), (100_000, 900_000));
    assert_eq!(split_tip(1_000_000, 10_000), (1_000_000, 0));
    assert_eq!(split_tip(999_999, 1), (99, 999_900));
}

#[test]
fn split_does_not_overflow_on_the_largest_amount() {
    let (fee, share) = split_tip(i128::MAX, 1000);
    assert_eq!(fee, 17014118346046923173168730371588410572);
    assert_eq!(fee + share, i128::MAX);
    let (all, nothing) = split_tip(i128::MAX, 10_000);
    assert_eq!(all, i128::MAX);
    assert_eq!(nothing, 0);
}

#[test]
fn receipt_holds_id_amounts_and_time() {
    let tipper = account("tipper");
    let author = account("author");
    let mut contract = ready(None, ValueMover::InternalAccumulatorMover);

    let receipt = contract
        .tip_article(&signed_by(&tipper), &tipper, &item("a"), &author, 60_000_000, 1_700_000_000, false)
        .unwrap();

    assert_eq!(
        receipt,
        TipReceipt {
            tip_id: 1,
            amount_sent: 60_000_000,
            author_received: 58_500_000,
            platform_fee: 1_500_000,
            timestamp: 1_700_000_000,
        }
    );
    assert_eq!(receipt.author_received + receipt.platform_fee, receipt.amount_sent);
}

#[test]
fn default_fee_is_250_bps() {
    let contract = ready(None, ValueMover::InternalAccumulatorMover);
    assert_eq!(contract.get_platform_fee_bps(), 250);
    assert!(contract.is_initialized());
}

#[test]
fn minimum_tip_is_accepted() {
    let tipper = account("tipper");
    let author = account("author");
    let mut contract = ready(Some(250), ValueMover::InternalAccumulatorMover);

    let receipt = contract
        .tip_article(&signed_by(&tipper), &tipper, &item("a"), &author, 100_000, 5, false)
        .unwrap();
    assert_eq!(receipt.platform_fee, 2_500);
    assert_eq!(receipt.author_received, 97_500);

    let under =
        contract.tip_article(&signed_by(&tipper), &tipper, &item("a"), &author, 99_999, 5, false);
    assert_eq!(under, Err(Error::BelowMinimum));
}

#[test]
fn negative_and_zero_tips_are_below_minimum() {
    let tipper = account("tipper");
    let author = account("author");
    let mut contract = ready(Some(250), ValueMover::InternalAccumulatorMover);
    let auth = signed_by(&tipper);

    assert_eq!(
        contract.tip_article(&auth, &tipper, &item("a"), &author, 0, 5, false),
        Err(Error::BelowMinimum)
    );
    assert_eq!(
        contract.tip_article(&auth, &tipper, &item("a"), &author, -1_000_000, 5, false),
        Err(Error::BelowMinimum)
    );
    assert_eq!(contract.get_total_volume(), 0);
}

#[test]
fn tip_needs_the_tippers_authorization() {
    let tipper = account("tipper");
    let author = account("author");
    let mut contract = ready(Some(250), ValueMover::InternalAccumulatorMover);

    let by_nobody =
        contract.tip_article(&Authorization::none(), &tipper, &item("a"), &author, 1_000_000, 0, false);
    assert_eq!(by_nobody, Err(Error::Unauthorized));
    let by_author =
        contract.tip_article(&signed_by(&author), &tipper, &item("a"), &author, 1_000_000, 0, false);
    assert_eq!(by_author, Err(Error::Unauthorized));
    assert_eq!(contract.get_tip_count(), 0);
    assert_eq!(contract.get_balance(&author), 0);
}

#[test]
fn authorization_is_checked_before_the_amount() {
    let tipper = account("tipper");
    let author = account("author");
    let mut contract = ready(Some(250), ValueMover::InternalAccumulatorMover);

    let outcome =
        contract.tip_article(&Authorization::none(), &tipper, &item("a"), &author, 1, 0, false);
    assert_eq!(outcome, Err(Error::Unauthorized));
}

#[test]
fn tip_ids_count_up_across_items_and_highlights() {
    let tipper = account("tipper");
    let author = account("author");
    let auth = signed_by(&tipper);
    let mut contract = ready(Some(250), ValueMover::InternalAccumulatorMover);

    let first = contract.tip_article(&auth, &tipper, &item("a"), &author, 100_000, 1, false).unwrap();
    let second = contract.record_tip(&auth, &tipper, &item("b"), &author, 100_000, 2, false).unwrap();
    let third = contract
        .record_highlight_tip(&auth, &tipper, &item("h1"), &item("a"), &author, 100_000, 3, false)
        .unwrap();
    let fourth = contract.tip_article(&auth, &tipper, &item("a"), &author, 100_000, 4, false).unwrap();

    assert_eq!(first.tip_id, 1);
    assert_eq!(second.tip_id, 2);
    assert_eq!(third.tip_id, 3);
    assert_eq!(fourth.tip_id, 4);
    assert_eq!(contract.get_tip_count(), 4);
}

#[test]
fn refused_tips_take_no_id() {
    let tipper = account("tipper");
    let author = account("author");
    let auth = signed_by(&tipper);
    let mut contract = ready(Some(250), ValueMover::InternalAccumulatorMover);

    contract.tip_article(&auth, &tipper, &item("a"), &author, 100_000, 1, false).unwrap();
    assert_eq!(
        contract.tip_article(&auth, &tipper, &item("a"), &author, 1, 1, false),
        Err(Error::BelowMinimum)
    );
    let next = contract.tip_article(&auth, &tipper, &item("a"), &author, 100_000, 1, false).unwrap();
    assert_eq!(next.tip_id, 2);
}

#[test]
fn item_total_is_the_sum_of_its_tips() {
    let tipper = account("tipper");
    let author = account("author");
    let auth = signed_by(&tipper);
    let mut contract = ready(Some(250), ValueMover::InternalAccumulatorMover);

    contract.tip_article(&auth, &tipper, &item("a"), &author, 60_000_000, 1, false).unwrap();
    contract.tip_article(&auth, &tipper, &item("b"), &author, 7_000_000, 2, false).unwrap();
    contract.tip_article(&auth, &tipper, &item("a"), &author, 50_000_000, 3, false).unwrap();
    contract.tip_article(&auth, &tipper, &item("b"), &author, 300_000, 4, false).unwrap();

    assert_eq!(contract.get_article_total_tips(&item("a")), 110_000_000);
    assert_eq!(contract.get_article_total_tips(&item("b")), 7_300_000);
    assert_eq!(contract.get_article_total_tips(&item("c")), 0);
    assert_eq!(contract.get_total_volume(), 117_300_000);

    let tips = contract.get_article_tips(&item("a"));
    assert_eq!(tips.len(), 2);
    assert_eq!(tips[0].amount, 60_000_000);
    assert_eq!(tips[0].timestamp, 1);
    assert_eq!(tips[0].tipper, tipper);
    assert_eq!(tips[1].amount, 50_000_000);
    assert_eq!(tips[1].timestamp, 3);
    assert_eq!(tips.iter().map(|tip| tip.amount).sum::<i128>(), 110_000_000);
}

#[test]
fn item_totals_do_not_depend_on_the_order_of_tips() {
    let tipper = account("tipper");
    let author = account("author");
    let auth = signed_by(&tipper);
    let mut one = ready(Some(250), ValueMover::InternalAccumulatorMover);
    let mut other = ready(Some(250), ValueMover::InternalAccumulatorMover);

    one.tip_article(&auth, &tipper, &item("a"), &author, 1_000_000, 1, false).unwrap();
    one.tip_article(&auth, &tipper, &item("b"), &author, 2_000_000, 2, false).unwrap();
    one.tip_article(&auth, &tipper, &item("a"), &author, 3_000_000, 3, false).unwrap();

    other.tip_article(&auth, &tipper, &item("a"), &author, 3_000_000, 1, false).unwrap();
    other.tip_article(&auth, &tipper, &item("a"), &author, 1_000_000, 2, false).unwrap();
    other.tip_article(&auth, &tipper, &item("b"), &author, 2_000_000, 3, false).unwrap();

    assert_eq!(one.get_article_total_tips(&item("a")), 4_000_000);
    assert_eq!(other.get_article_total_tips(&item("a")), 4_000_000);
    assert_eq!(one.get_article_total_tips(&item("b")), other.get_article_total_tips(&item("b")));
}

#[test]
fn eligibility_compares_the_total_with_the_threshold() {
    let tipper = account("tipper");
    let author = account("author");
    let auth = signed_by(&tipper);
    let mut contract = ready(Some(250), ValueMover::InternalAccumulatorMover);
    contract.tip_article(&auth, &tipper, &item("a"), &author, 100_000_000, 1, false).unwrap();

    assert!(contract.is_nft_eligible(&item("a"), 100_000_000));
    assert!(contract.is_nft_eligible(&item("a"), 99_999_999));
    assert!(!contract.is_nft_eligible(&item("a"), 100_000_001));
    assert!(!contract.is_nft_eligible(&item("b"), 1));
    assert!(contract.is_nft_eligible(&item("b"), 0));
}

#[test]
fn highlight_tip_leaves_the_items_total() {
    let tipper = account("tipper");
    let author = account("author");
    let auth = signed_by(&tipper);
    let mut contract = ready(Some(250), ValueMover::InternalAccumulatorMover);

    contract.tip_article(&auth, &tipper, &item("a"), &author, 1_000_000, 1, false).unwrap();
    let receipt = contract
        .record_highlight_tip(&auth, &tipper, &item("h1"), &item("a"), &author, 2_000_000, 2, false)
        .unwrap();

    assert_eq!(receipt.platform_fee, 50_000);
    assert_eq!(receipt.author_received, 1_950_000);
    assert_eq!(contract.get_article_total_tips(&item("a")), 1_000_000);
    assert_eq!(contract.get_article_tips(&item("a")).len(), 1);
    assert_eq!(contract.get_article_total_tips(&item("h1")), 0);
    assert_eq!(contract.get_article_tips(&item("h1")).len(), 0);
    let highlight_tips = contract.get_highlight_tips(&item("h1"));
    assert_eq!(highlight_tips.len(), 1);
    assert_eq!(highlight_tips[0].amount, 2_000_000);
    assert_eq!(contract.get_highlight_tips(&item("a")).len(), 0);
    assert_eq!(contract.get_total_volume(), 3_000_000);
    assert_eq!(contract.get_balance(&author), 975_000 + 1_950_000);
}

#[test]
fn platform_is_credited_its_fee() {
    let tipper = account("tipper");
    let author = account("author");
    let auth = signed_by(&tipper);
    let mut contract = ready(Some(1000), ValueMover::InternalAccumulatorMover);

    contract.tip_article(&auth, &tipper, &item("a"), &author, 1_000_000, 1, false).unwrap();

    assert_eq!(contract.get_balance(&account("platform")), 100_000);
    assert_eq!(contract.get_balance(&author), 900_000);
    assert_eq!(contract.get_balance(&tipper), 0);
}

#[test]
fn platform_tipped_as_creator_gets_the_whole_amount() {
    let tipper = account("tipper");
    let platform = account("platform");
    let auth = signed_by(&tipper);
    let mut contract = ready(Some(250), ValueMover::InternalAccumulatorMover);

    contract.tip_article(&auth, &tipper, &item("a"), &platform, 1_000_000, 1, false).unwrap();

    assert_eq!(contract.get_balance(&platform), 1_000_000);
}

#[test]
fn external_ledger_keeps_no_balances() {
    let tipper = account("tipper");
    let author = account("author");
    let auth = signed_by(&tipper);
    let mut contract = ready(Some(250), ValueMover::ExternalLedgerMover);

    assert!(!contract.supports_withdraw());
    let receipt = contract.tip_article(&auth, &tipper, &item("a"), &author, 1_000_000, 1, true).unwrap();

    assert_eq!(receipt.platform_fee, 25_000);
    assert_eq!(receipt.author_received, 975_000);
    assert_eq!(contract.get_balance(&author), 0);
    assert_eq!(contract.get_balance(&account("platform")), 0);
    assert_eq!(contract.get_article_total_tips(&item("a")), 1_000_000);
    assert_eq!(contract.get_total_volume(), 1_000_000);
}

#[test]
fn failed_external_transfer_records_nothing() {
    let tipper = account("tipper");
    let author = account("author");
    let auth = signed_by(&tipper);
    let mut contract = ready(Some(250), ValueMover::ExternalLedgerMover);

    let outcome = contract.tip_article(&auth, &tipper, &item("a"), &author, 1_000_000, 1, false);

    assert_eq!(outcome, Err(Error::TransferFailed));
    assert_eq!(contract.get_tip_count(), 0);
    assert_eq!(contract.get_total_volume(), 0);
    assert_eq!(contract.get_article_total_tips(&item("a")), 0);
    assert_eq!(contract.get_article_tips(&item("a")).len(), 0);

    let highlight =
        contract.record_highlight_tip(&auth, &tipper, &item("h"), &item("a"), &author, 1_000_000, 1, false);
    assert_eq!(highlight, Err(Error::TransferFailed));
    assert_eq!(contract.get_highlight_tips(&item("h")).len(), 0);
}

#[test]
fn local_checks_come_before_the_transfer() {
    let tipper = account("tipper");
    let author = account("author");
    let mut contract = ready(Some(250), ValueMover::ExternalLedgerMover);

    assert_eq!(
        contract.tip_article(&signed_by(&tipper), &tipper, &item("a"), &author, 5, 1, false),
        Err(Error::BelowMinimum)
    );
    assert_eq!(
        contract.tip_article(&Authorization::none(), &tipper, &item("a"), &author, 1_000_000, 1, false),
        Err(Error::Unauthorized)
    );
}

#[test]
fn internal_accumulator_ignores_the_ledger_answer() {
    let tipper = account("tipper");
    let author = account("author");
    let auth = signed_by(&tipper);
    let mut contract = ready(Some(250), ValueMover::InternalAccumulatorMover);

    assert!(contract.tip_article(&auth, &tipper, &item("a"), &author, 1_000_000, 1, false).is_ok());
    assert!(contract.tip_article(&auth, &tipper, &item("a"), &author, 1_000_000, 1, true).is_ok());
    assert_eq!(contract.get_balance(&author), 1_950_000);
}

#[test]
fn mover_says_whether_it_supports_withdraw() {
    assert!(ValueMover::InternalAccumulatorMover.supports_withdraw());
    assert!(!ValueMover::ExternalLedgerMover.supports_withdraw());
}

#[test]
fn paused_contract_refuses_pause_aware_tips_only() {
    let admin = account("admin");
    let tipper = account("tipper");
    let author = account("author");
    let auth = signed_by(&tipper);
    let mut contract = ready(Some(250), ValueMover::InternalAccumulatorMover);

    assert!(!contract.is_paused());
    assert_eq!(contract.pause(&signed_by(&admin), &admin), Ok(()));
    assert!(contract.is_paused());

    assert_eq!(
        contract.record_tip(&auth, &tipper, &item("a"), &author, 1_000_000, 1, false),
        Err(Error::ContractPaused)
    );
    assert_eq!(
        contract.record_highlight_tip(&auth, &tipper, &item("h"), &item("a"), &author, 1_000_000, 1, false),
        Err(Error::ContractPaused)
    );
    assert_eq!(contract.get_tip_count(), 0);

    // The entry point that does not look at the pause flag goes on.
    let legacy = contract.tip_article(&auth, &tipper, &item("a"), &author, 1_000_000, 1, false);
    assert_eq!(legacy.map(|receipt| receipt.tip_id), Ok(1));

    assert_eq!(contract.unpause(&signed_by(&admin), &admin), Ok(()));
    assert!(!contract.is_paused());
    let resumed = contract.record_tip(&auth, &tipper, &item("a"), &author, 1_000_000, 2, false);
    assert_eq!(resumed.map(|receipt| receipt.tip_id), Ok(2));
}

#[test]
fn pause_is_checked_before_authorization() {
    let admin = account("admin");
    let tipper = account("tipper");
    let author = account("author");
    let mut contract = ready(Some(250), ValueMover::InternalAccumulatorMover);
    contract.pause(&signed_by(&admin), &admin).unwrap();

    assert_eq!(
        contract.record_tip(&Authorization::none(), &tipper, &item("a"), &author, 1, 1, false),
        Err(Error::ContractPaused)
    );
}

#[test]
fn only_the_admin_pauses() {
    let admin = account("admin");
    let other = account("other");
    let mut contract = ready(Some(250), ValueMover::InternalAccumulatorMover);

    assert_eq!(contract.pause(&signed_by(&other), &other), Err(Error::Unauthorized));
    assert_eq!(contract.pause(&signed_by(&other), &admin), Err(Error::Unauthorized));
    assert_eq!(contract.pause(&Authorization::none(), &admin), Err(Error::Unauthorized));
    assert!(!contract.is_paused());

    contract.pause(&signed_by(&admin), &admin).unwrap();
    assert_eq!(contract.unpause(&signed_by(&other), &other), Err(Error::Unauthorized));
    assert!(contract.is_paused());
}

#[test]
fn pause_before_initialize_is_unauthorized() {
    let admin = account("admin");
    let mut contract = TippingContract::new(ValueMover::InternalAccumulatorMover);

    assert_eq!(contract.pause(&signed_by(&admin), &admin), Err(Error::Unauthorized));
    assert!(!contract.is_paused());
    assert!(!contract.is_initialized());
}

#[test]
fn initialize_twice_is_refused() {
    let admin = account("admin");
    let other = account("other");
    let mut contract = ready(Some(300), ValueMover::InternalAccumulatorMover);

    assert_eq!(
        contract.initialize(&signed_by(&other), &other, &other, Some(10)),
        Err(Error::AlreadyInitialized)
    );
    assert_eq!(
        contract.initialize(&Authorization::none(), &admin, &other, Some(5000)),
        Err(Error::AlreadyInitialized)
    );
    assert_eq!(contract.get_platform_fee_bps(), 300);
}

#[test]
fn initialize_needs_the_admins_authorization() {
    let admin = account("admin");
    let other = account("other");
    let mut contract = TippingContract::new(ValueMover::InternalAccumulatorMover);

    assert_eq!(
        contract.initialize(&signed_by(&other), &admin, &other, Some(250)),
        Err(Error::Unauthorized)
    );
    assert!(!contract.is_initialized());
    assert_eq!(contract.initialize(&signed_by(&admin), &admin, &other, Some(250)), Ok(()));
}

#[test]
fn initialize_refuses_a_fee_above_the_limit() {
    let admin = account("admin");
    let mut contract = TippingContract::new(ValueMover::InternalAccumulatorMover);

    assert_eq!(
        contract.initialize(&signed_by(&admin), &admin, &admin, Some(1001)),
        Err(Error::FeeTooHigh)
    );
    assert!(!contract.is_initialized());
    assert_eq!(contract.initialize(&signed_by(&admin), &admin, &admin, Some(1000)), Ok(()));
    assert_eq!(contract.get_platform_fee_bps(), 1000);
}

#[test]
fn update_fee_changes_later_tips() {
    let admin = account("admin");
    let tipper = account("tipper");
    let author = account("author");
    let auth = signed_by(&tipper);
    let mut contract = ready(Some(250), ValueMover::InternalAccumulatorMover);

    assert_eq!(contract.update_fee(&signed_by(&admin), &admin, 500), Ok(()));
    assert_eq!(contract.get_platform_fee_bps(), 500);
    let receipt = contract.tip_article(&auth, &tipper, &item("a"), &author, 1_000_000, 1, false).unwrap();
    assert_eq!(receipt.platform_fee, 50_000);
    assert_eq!(receipt.author_received, 950_000);

    assert_eq!(contract.update_fee(&signed_by(&admin), &admin, 0), Ok(()));
    let free = contract.tip_article(&auth, &tipper, &item("a"), &author, 1_000_000, 1, false).unwrap();
    assert_eq!(free.platform_fee, 0);
    assert_eq!(free.author_received, 1_000_000);
}

#[test]
fn update_fee_errors() {
    let admin = account("admin");
    let other = account("other");
    let mut contract = ready(Some(250), ValueMover::InternalAccumulatorMover);

    assert_eq!(contract.update_fee(&signed_by(&admin), &admin, 1001), Err(Error::FeeTooHigh));
    assert_eq!(contract.update_fee(&signed_by(&other), &other, 100), Err(Error::Unauthorized));
    assert_eq!(contract.update_fee(&signed_by(&other), &admin, 100), Err(Error::Unauthorized));
    assert_eq!(contract.update_fee(&signed_by(&other), &other, 5000), Err(Error::Unauthorized));
    assert_eq!(contract.get_platform_fee_bps(), 250);
    assert_eq!(contract.update_fee(&signed_by(&admin), &admin, 1000), Ok(()));
    assert_eq!(contract.get_platform_fee_bps(), 1000);
}

#[test]
fn unseen_keys_read_as_empty() {
    let contract = TippingContract::new(ValueMover::InternalAccumulatorMover);

    assert_eq!(contract.get_article_tips(&item("nothing")).len(), 0);
    assert_eq!(contract.get_highlight_tips(&item("nothing")).len(), 0);
    assert_eq!(contract.get_article_total_tips(&item("nothing")), 0);
    assert_eq!(contract.get_balance(&account("nobody")), 0);
    assert_eq!(contract.get_total_volume(), 0);
    assert_eq!(contract.get_tip_count(), 0);
    assert_eq!(contract.get_platform_fee_bps(), 250);
}

#[test]
fn quote_says_what_is_to_be_moved() {
    let tipper = account("tipper");
    let contract = ready(Some(250), ValueMover::ExternalLedgerMover);

    assert_eq!(contract.quote_tip(false, &signed_by(&tipper), &tipper, 1_000_000), Ok((25_000, 975_000)));
    assert_eq!(contract.quote_tip(true, &signed_by(&tipper), &tipper, 100_000), Ok((2_500, 97_500)));
    assert_eq!(
        contract.quote_tip(false, &signed_by(&tipper), &tipper, 99_999),
        Err(Error::BelowMinimum)
    );
    assert_eq!(
        contract.quote_tip(false, &Authorization::none(), &tipper, 1_000_000),
        Err(Error::Unauthorized)
    );
    assert_eq!(contract.get_tip_count(), 0);
}

#[test]
fn quote_looks_at_the_pause_when_asked() {
    let admin = account("admin");
    let tipper = account("tipper");
    let mut contract = ready(Some(250), ValueMover::ExternalLedgerMover);
    contract.pause(&signed_by(&admin), &admin).unwrap();

    assert_eq!(
        contract.quote_tip(true, &signed_by(&tipper), &tipper, 1_000_000),
        Err(Error::ContractPaused)
    );
    assert_eq!(contract.quote_tip(false, &signed_by(&tipper), &tipper, 1_000_000), Ok((25_000, 975_000)));
}

#[test]
fn quoted_shares_are_the_receipts_shares() {
    let tipper = account("tipper");
    let author = account("author");
    let auth = signed_by(&tipper);
    let mut contract = ready(Some(333), ValueMover::ExternalLedgerMover);

    let (fee, share) = contract.quote_tip(true, &auth, &tipper, 123_456_789).unwrap();
    let receipt = contract.record_tip(&auth, &tipper, &item("a"), &author, 123_456_789, 1, true).unwrap();

    assert_eq!(fee, 4_111_111);
    assert_eq!(share, 119_345_678);
    assert_eq!(receipt.platform_fee, fee);
    assert_eq!(receipt.author_received, share);
}

use token_vesting::claim::claim;
use token_vesting::denom::{compare_denom, compare_str, denom_to_key, same_denom, Denom};
use token_vesting::deregistration::{deregister_vesting_account, is_authorized};
use token_vesting::error::VestingError;
use token_vesting::ledger::{Ledger, VestingAccount};
use token_vesting::query::vesting_account;
use token_vesting::registration::{register_vesting_account, validate_schedule};
use token_vesting::schedule::VestingSchedule;
use token_vesting::token::{is_valid_name, is_valid_symbol};
use token_vesting::transfer::{build_transfer_instruction, TransferMsg};

fn linear(start: u64, end: u64, amount: u128) -> VestingSchedule {
    VestingSchedule::LinearVesting { start_time: start, end_time: end, vesting_amount: amount }
}

fn periodic(start: u64, end: u64, interval: u64, amount: u128) -> VestingSchedule {
    VestingSchedule::PeriodicVesting {
        start_time: start,
        end_time: end,
        vesting_interval: interval,
        amount,
    }
}

fn native(name: &str) -> Denom {
    Denom::Native(name.to_string())
}

fn cw20(addr: &str) -> Denom {
    Denom::Cw20(addr.to_string())
}

fn registered(master: Option<&str>) -> Ledger {
    let mut ledger = Ledger::new();
    register_vesting_account(
        &mut ledger,
        100,
        master.map(|m| m.to_string()),
        "addr0001".to_string(),
        native("uusd"),
        1000000,
        linear(100, 110, 1000000),
    )
    .unwrap();
    ledger
}

#[test]
fn linear_vesting_is_monotone_and_bounded() {
    let schedule = linear(100, 110, 1000000);
    let mut previous = 0;
    for t in 90..130u64 {
        let v = schedule.vested_amount(t).unwrap();
        assert!(v >= previous);
        assert!(v <= 1000000);
        previous = v;
    }
    assert_eq!(schedule.vested_amount(100).unwrap(), 0);
    assert_eq!(schedule.vested_amount(103).unwrap(), 300000);
    assert_eq!(schedule.vested_amount(u64::MAX).unwrap(), 1000000);
}

#[test]
fn linear_vesting_truncates() {
    let schedule = linear(0, 3, 100);
    assert_eq!(schedule.vested_amount(1).unwrap(), 33);
    assert_eq!(schedule.vested_amount(2).unwrap(), 66);
    assert_eq!(schedule.vested_amount(3).unwrap(), 100);
}

#[test]
fn linear_vesting_overflow_is_reported() {
    let schedule = linear(0, 10, u128::MAX);
    assert_eq!(schedule.vested_amount(5), None);
    assert_eq!(schedule.vested_amount(10), Some(u128::MAX));
}

#[test]
fn periodic_vesting_steps() {
    let schedule = periodic(100, 130, 10, 7);
    assert_eq!(schedule.vested_amount(99).unwrap(), 0);
    assert_eq!(schedule.vested_amount(100).unwrap(), 7);
    assert_eq!(schedule.vested_amount(109).unwrap(), 7);
    assert_eq!(schedule.vested_amount(110).unwrap(), 14);
    assert_eq!(schedule.vested_amount(119).unwrap(), 14);
    assert_eq!(schedule.vested_amount(120).unwrap(), 21);
    assert_eq!(schedule.vested_amount(129).unwrap(), 21);
    assert_eq!(schedule.vested_amount(130).unwrap(), 28);
    assert_eq!(schedule.vested_amount(1000).unwrap(), 28);
}

#[test]
fn periodic_vesting_overflow_is_reported() {
    let schedule = periodic(0, 10, 1, u128::MAX / 2);
    assert_eq!(schedule.vested_amount(0), Some(u128::MAX / 2));
    assert_eq!(schedule.vested_amount(5), None);
}

#[test]
fn schedule_validation_errors() {
    assert_eq!(validate_schedule(&linear(100, 110, 0), 100, 0), Err(VestingError::ZeroAmount));
    assert_eq!(validate_schedule(&linear(99, 110, 5), 100, 5), Err(VestingError::InvalidStartTime));
    assert_eq!(validate_schedule(&linear(110, 110, 5), 100, 5), Err(VestingError::InvalidEndTime));
    assert_eq!(validate_schedule(&linear(100, 110, 5), 100, 5), Ok(()));
    assert_eq!(validate_schedule(&periodic(100, 110, 5, 0), 100, 0), Err(VestingError::ZeroAmount));
    assert_eq!(
        validate_schedule(&periodic(90, 110, 5, 1), 100, 5),
        Err(VestingError::InvalidStartTime)
    );
    assert_eq!(
        validate_schedule(&periodic(110, 100, 5, 1), 100, 3),
        Err(VestingError::InvalidEndTime)
    );
    assert_eq!(validate_schedule(&periodic(100, 110, 0, 1), 99, 3), Err(VestingError::ZeroInterval));
    assert_eq!(
        validate_schedule(&periodic(100, 110, 3, 1), 99, 3),
        Err(VestingError::IntervalNotDivisible)
    );
    assert_eq!(
        validate_schedule(&periodic(1, 11, 1, u128::MAX), 0, 1),
        Err(VestingError::Overflow)
    );
    assert_eq!(
        validate_schedule(&periodic(100, 110, 5, 500000), 99, 1000000),
        Err(VestingError::DepositMismatch)
    );
    assert_eq!(validate_schedule(&periodic(100, 110, 5, 500000), 99, 1500000), Ok(()));
    assert_eq!(
        validate_schedule(&periodic(100, 110, 5, 500000), 100, 1500000),
        Err(VestingError::InvalidStartTime)
    );
}

#[test]
fn registration_rejects_short_deposit_without_change() {
    let mut ledger = Ledger::new();
    let res = register_vesting_account(
        &mut ledger,
        100,
        None,
        "addr0001".to_string(),
        native("uusd"),
        999000,
        linear(100, 110, 1000000),
    );
    assert_eq!(res.unwrap_err(), VestingError::DepositMismatch);
    assert!(!ledger.has(&"addr0001".to_string(), &native("uusd")));
    let page = vesting_account(&ledger, 100, "addr0001".to_string(), None, None).unwrap();
    assert!(page.vestings.is_empty());
}

#[test]
fn registration_is_not_additive() {
    let mut ledger = registered(None);
    let res = register_vesting_account(
        &mut ledger,
        100,
        None,
        "addr0001".to_string(),
        native("uusd"),
        1000000,
        linear(100, 110, 1000000),
    );
    assert_eq!(res.unwrap_err(), VestingError::AlreadyExists);
    let entry = ledger.get(&"addr0001".to_string(), &native("uusd")).unwrap();
    assert_eq!(entry.claimed_amount, 0);
    assert_eq!(entry.vesting_amount, 1000000);
}

#[test]
fn claim_of_missing_asset_fails_without_transfer() {
    let mut ledger = Ledger::new();
    let res = claim(&mut ledger, 105, &"addr0001".to_string(), &vec![native("uusd")], None);
    assert_eq!(res, Err(VestingError::NotFound(native("uusd"))));
}

#[test]
fn failed_batch_claim_changes_nothing() {
    let mut ledger = registered(None);
    let sender = "addr0001".to_string();
    let res = claim(&mut ledger, 105, &sender, &vec![native("uusd"), native("ukrw")], None);
    assert_eq!(res, Err(VestingError::NotFound(native("ukrw"))));
    assert_eq!(ledger.get(&sender, &native("uusd")).unwrap().claimed_amount, 0);
}

#[test]
fn batch_claim_of_fully_vested_asset_twice_fails() {
    let mut ledger = registered(None);
    let sender = "addr0001".to_string();
    let res = claim(&mut ledger, 120, &sender, &vec![native("uusd"), native("uusd")], None);
    assert_eq!(res, Err(VestingError::NotFound(native("uusd"))));
    assert!(ledger.has(&sender, &native("uusd")));
    let res = claim(&mut ledger, 120, &sender, &vec![native("uusd")], None).unwrap();
    assert_eq!(res.records[0].claim_amount, 1000000);
    assert!(!ledger.has(&sender, &native("uusd")));
}

#[test]
fn claim_twice_at_same_time_is_noop() {
    let mut ledger = registered(None);
    let sender = "addr0001".to_string();
    let first = claim(&mut ledger, 105, &sender, &vec![native("uusd")], None).unwrap();
    assert_eq!(first.messages.len(), 1);
    let before = ledger.get(&sender, &native("uusd")).unwrap();
    let second = claim(&mut ledger, 105, &sender, &vec![native("uusd")], None).unwrap();
    assert!(second.messages.is_empty());
    assert!(second.records.is_empty());
    assert_eq!(ledger.get(&sender, &native("uusd")).unwrap(), before);
}

#[test]
fn claim_bound_holds_over_time() {
    let mut ledger = registered(None);
    let sender = "addr0001".to_string();
    let mut paid = 0u128;
    for t in [100u64, 101, 104, 104, 107, 109] {
        let res = claim(&mut ledger, t, &sender, &vec![native("uusd")], None).unwrap();
        paid += res.records.iter().map(|r| r.claim_amount).sum::<u128>();
        let entry = ledger.get(&sender, &native("uusd")).unwrap();
        let vested = entry.vesting_schedule.vested_amount(t).unwrap();
        assert!(entry.claimed_amount <= vested);
        assert!(vested <= entry.vesting_amount);
        assert_eq!(entry.claimed_amount, paid);
    }
    claim(&mut ledger, 110, &sender, &vec![native("uusd")], None).unwrap();
    assert!(ledger.get(&sender, &native("uusd")).is_none());
}

#[test]
fn claim_to_other_recipient() {
    let mut ledger = registered(None);
    let res = claim(
        &mut ledger,
        102,
        &"addr0001".to_string(),
        &vec![native("uusd")],
        Some("friend".to_string()),
    )
    .unwrap();
    assert_eq!(
        res.messages,
        vec![TransferMsg::BankSend {
            to_address: "friend".to_string(),
            denom: "uusd".to_string(),
            amount: 200000,
        }]
    );
}

#[test]
fn claim_with_time_going_back_overflows() {
    let mut ledger = registered(None);
    let sender = "addr0001".to_string();
    claim(&mut ledger, 105, &sender, &vec![native("uusd")], None).unwrap();
    let res = claim(&mut ledger, 102, &sender, &vec![native("uusd")], None);
    assert_eq!(res, Err(VestingError::Overflow));
}

#[test]
fn deregister_conserves_value() {
    let mut ledger = registered(Some("master"));
    let sender = "addr0001".to_string();
    claim(&mut ledger, 102, &sender, &vec![native("uusd")], None).unwrap();
    let res = deregister_vesting_account(
        &mut ledger,
        106,
        &"master".to_string(),
        &sender,
        &native("uusd"),
        None,
        None,
    )
    .unwrap();
    assert_eq!(res.vested_amount, 600000);
    assert_eq!(res.left_vesting_amount, 400000);
    assert_eq!(
        res.messages,
        vec![
            TransferMsg::BankSend {
                to_address: "addr0001".to_string(),
                denom: "uusd".to_string(),
                amount: 400000,
            },
            TransferMsg::BankSend {
                to_address: "master".to_string(),
                denom: "uusd".to_string(),
                amount: 400000,
            },
        ]
    );
    assert!(!ledger.has(&sender, &native("uusd")));
}

#[test]
fn deregister_with_overrides_and_nothing_vested() {
    let mut ledger = Ledger::new();
    register_vesting_account(
        &mut ledger,
        100,
        Some("master".to_string()),
        "addr0001".to_string(),
        cw20("token0001"),
        1000,
        linear(200, 300, 1000),
    )
    .unwrap();
    let res = deregister_vesting_account(
        &mut ledger,
        150,
        &"master".to_string(),
        &"addr0001".to_string(),
        &cw20("token0001"),
        Some("a".to_string()),
        Some("b".to_string()),
    )
    .unwrap();
    assert_eq!(
        res.messages,
        vec![TransferMsg::Cw20Transfer {
            contract_addr: "token0001".to_string(),
            recipient: "b".to_string(),
            amount: 1000,
        }]
    );
}

#[test]
fn deregister_errors() {
    let mut ledger = registered(None);
    let sender = "addr0001".to_string();
    let res = deregister_vesting_account(&mut ledger, 105, &sender, &sender, &native("uusd"), None, None);
    assert_eq!(res.unwrap_err(), VestingError::Unauthorized);
    assert!(ledger.has(&sender, &native("uusd")));

    let mut ledger = registered(Some("master"));
    let res = deregister_vesting_account(&mut ledger, 105, &sender, &sender, &native("uusd"), None, None);
    assert_eq!(res.unwrap_err(), VestingError::Unauthorized);
    let res = deregister_vesting_account(
        &mut ledger,
        105,
        &"master".to_string(),
        &sender,
        &native("ukrw"),
        None,
        None,
    );
    assert_eq!(res.unwrap_err(), VestingError::NotFound(native("ukrw")));
}

#[test]
fn authorization_predicate() {
    let entry = VestingAccount {
        master_address: Some("master".to_string()),
        address: "addr0001".to_string(),
        vesting_denom: native("uusd"),
        vesting_amount: 10,
        vesting_schedule: linear(1, 2, 10),
        claimed_amount: 0,
    };
    assert!(is_authorized(&"master".to_string(), &entry));
    assert!(!is_authorized(&"addr0001".to_string(), &entry));
    let open = VestingAccount { master_address: None, ..entry };
    assert!(!is_authorized(&"master".to_string(), &open));
}

#[test]
fn query_pages_in_key_order() {
    let mut ledger = Ledger::new();
    for name in ["uusd", "ukrw", "uluna"] {
        register_vesting_account(
            &mut ledger,
            100,
            None,
            "addr0001".to_string(),
            native(name),
            10,
            linear(100, 110, 10),
        )
        .unwrap();
    }
    register_vesting_account(&mut ledger, 100, None, "addr0002".to_string(), native("uatom"), 10, linear(100, 110, 10))
        .unwrap();
    register_vesting_account(&mut ledger, 100, None, "addr0001".to_string(), cw20("zz"), 10, linear(100, 110, 10))
        .unwrap();

    let page = vesting_account(&ledger, 100, "addr0001".to_string(), None, None).unwrap();
    let denoms: Vec<Denom> = page.vestings.iter().map(|v| v.vesting_denom.clone()).collect();
    assert_eq!(denoms, vec![cw20("zz"), native("ukrw"), native("uluna"), native("uusd")]);

    let page = vesting_account(&ledger, 100, "addr0001".to_string(), Some(native("ukrw")), Some(1)).unwrap();
    assert_eq!(page.vestings.len(), 1);
    assert_eq!(page.vestings[0].vesting_denom, native("uluna"));

    let page = vesting_account(&ledger, 100, "addr0001".to_string(), Some(native("uusd")), None).unwrap();
    assert!(page.vestings.is_empty());

    let page = vesting_account(&ledger, 100, "addr0001".to_string(), None, Some(0)).unwrap();
    assert!(page.vestings.is_empty());
}

#[test]
fn query_page_size_is_clamped() {
    let mut ledger = Ledger::new();
    for i in 0..35u32 {
        register_vesting_account(
            &mut ledger,
            100,
            None,
            "addr0001".to_string(),
            native(&format!("d{:02}", i)),
            10,
            linear(100, 110, 10),
        )
        .unwrap();
    }
    let page = vesting_account(&ledger, 100, "addr0001".to_string(), None, None).unwrap();
    assert_eq!(page.vestings.len(), 10);
    assert_eq!(page.vestings[9].vesting_denom, native("d09"));
    let page = vesting_account(&ledger, 100, "addr0001".to_string(), None, Some(100)).unwrap();
    assert_eq!(page.vestings.len(), 30);
    assert_eq!(page.vestings[29].vesting_denom, native("d29"));
}

#[test]
fn ledger_put_get_remove() {
    let mut ledger = registered(None);
    let address = "addr0001".to_string();
    let mut entry = ledger.get(&address, &native("uusd")).unwrap();
    entry.claimed_amount = 5;
    ledger.put(entry.clone());
    assert_eq!(ledger.get(&address, &native("uusd")).unwrap(), entry);
    ledger.remove(&address, &native("uusd"));
    assert!(!ledger.has(&address, &native("uusd")));
    let page = ledger.scan(&address, &None, 10);
    assert!(page.is_empty());
}

#[test]
fn denom_keys_and_order() {
    assert_eq!(denom_to_key(&native("uusd")), "native-uusd");
    assert_eq!(denom_to_key(&cw20("token0001")), "cw20-token0001");
    assert!(compare_denom(&cw20("zz"), &native("aa")) < 0);
    assert!(compare_denom(&native("ukrw"), &native("uusd")) < 0);
    assert_eq!(compare_denom(&native("uusd"), &native("uusd")), 0);
    assert!(!same_denom(&native("x"), &cw20("x")));
    assert!(compare_str("ab", "a") > 0);
    assert!(compare_str("", "a") < 0);
}

#[test]
fn transfer_instruction_follows_rail() {
    let to = "addr0001".to_string();
    assert_eq!(
        build_transfer_instruction(&native("uusd"), 5, &to),
        TransferMsg::BankSend { to_address: to.clone(), denom: "uusd".to_string(), amount: 5 }
    );
    assert_eq!(
        build_transfer_instruction(&cw20("token"), 7, &to),
        TransferMsg::Cw20Transfer {
            contract_addr: "token".to_string(),
            recipient: to.clone(),
            amount: 7
        }
    );
}

#[test]
fn token_name_and_symbol_rules() {
    assert!(!is_valid_name("ab"));
    assert!(is_valid_name("abc"));
    assert!(is_valid_name(&"x".repeat(30)));
    assert!(!is_valid_name(&"x".repeat(31)));
    assert!(is_valid_symbol("ASH"));
    assert!(is_valid_symbol("abcDEF"));
    assert!(!is_valid_symbol("AB"));
    assert!(!is_valid_symbol("ABCDEFG"));
    assert!(!is_valid_symbol("AB1"));
    assert!(!is_valid_symbol("A-B"));
}

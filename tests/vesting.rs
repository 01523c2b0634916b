use token_vesting::claim::{claim, ClaimRecord};
use token_vesting::denom::Denom;
use token_vesting::error::VestingError;
use token_vesting::ledger::Ledger;
use token_vesting::query::{vesting_account, VestingAccountResponse, VestingData};
use token_vesting::registration::{register_vesting_account, register_with_funds, Coin};
use token_vesting::schedule::VestingSchedule;
use token_vesting::transfer::TransferMsg;

fn linear(start: u64, end: u64, amount: u128) -> VestingSchedule {
    VestingSchedule::LinearVesting {
        start_time: start,
        end_time: end,
        vesting_amount: amount,
    }
}

fn native(name: &str) -> Denom {
    Denom::Native(name.to_string())
}

fn cw20(addr: &str) -> Denom {
    Denom::Cw20(addr.to_string())
}

fn query_all(ledger: &Ledger, now: u64, address: &str) -> VestingAccountResponse {
    vesting_account(ledger, now, address.to_string(), None, None).unwrap()
}

fn data(denom: Denom, vested: u128, claimable: u128) -> VestingData {
    VestingData {
        master_address: None,
        vesting_denom: denom,
        vesting_amount: 1000000,
        vested_amount: vested,
        vesting_schedule: linear(100, 110, 1000000),
        claimable_amount: claimable,
    }
}

#[test]
fn linear_vesting_vested_amount() {
    let schedule = linear(100, 110, 1000000);
    assert_eq!(schedule.vested_amount(100).unwrap(), 0);
    assert_eq!(schedule.vested_amount(105).unwrap(), 500000);
    assert_eq!(schedule.vested_amount(110).unwrap(), 1000000);
    assert_eq!(schedule.vested_amount(115).unwrap(), 1000000);
}

#[test]
fn periodic_vesting_vested_amount() {
    let schedule = VestingSchedule::PeriodicVesting {
        start_time: 105,
        end_time: 110,
        vesting_interval: 5,
        amount: 500000,
    };
    assert_eq!(schedule.vested_amount(100).unwrap(), 0);
    assert_eq!(schedule.vested_amount(105).unwrap(), 500000);
    assert_eq!(schedule.vested_amount(110).unwrap(), 1000000);
    assert_eq!(schedule.vested_amount(115).unwrap(), 1000000);
}

#[test]
fn ledger_starts_empty() {
    let ledger = Ledger::new();
    assert_eq!(query_all(&ledger, 100, "addr0000").vestings, vec![]);
}

#[test]
fn register_vesting_account_with_native_token() {
    let mut ledger = Ledger::new();
    let now = 100;

    // invalid zero amount
    let res = register_with_funds(
        &mut ledger,
        now,
        None,
        "addr0001".to_string(),
        &vec![Coin { denom: "uusd".to_string(), amount: 0 }],
        linear(100, 110, 0),
    );
    assert_eq!(res.unwrap_err(), VestingError::ZeroAmount);

    let schedule = linear(100, 110, 1000000);

    // no funds
    let res = register_with_funds(&mut ledger, now, None, "addr0001".to_string(), &vec![], schedule);
    assert_eq!(res.unwrap_err(), VestingError::InvalidDeposit);

    // two kinds of funds
    let res = register_with_funds(
        &mut ledger,
        now,
        None,
        "addr0001".to_string(),
        &vec![
            Coin { denom: "uusd".to_string(), amount: 100 },
            Coin { denom: "ukrw".to_string(), amount: 10 },
        ],
        schedule,
    );
    assert_eq!(res.unwrap_err(), VestingError::InvalidDeposit);

    // deposit differs from the schedule
    let res = register_with_funds(
        &mut ledger,
        now,
        None,
        "addr0001".to_string(),
        &vec![Coin { denom: "uusd".to_string(), amount: 10 }],
        schedule,
    );
    assert_eq!(res.unwrap_err(), VestingError::DepositMismatch);

    // valid amount
    let res = register_with_funds(
        &mut ledger,
        now,
        None,
        "addr0001".to_string(),
        &vec![Coin { denom: "uusd".to_string(), amount: 1000000 }],
        schedule,
    )
    .unwrap();
    assert_eq!(res.master_address, None);
    assert_eq!(res.address, "addr0001");
    assert_eq!(res.vesting_denom, native("uusd"));
    assert_eq!(res.vesting_amount, 1000000);

    assert_eq!(
        query_all(&ledger, now, "addr0001"),
        VestingAccountResponse {
            address: "addr0001".to_string(),
            vestings: vec![data(native("uusd"), 0, 0)],
        }
    );
}

#[test]
fn register_vesting_account_with_cw20_token() {
    let mut ledger = Ledger::new();
    let now = 100;

    // invalid zero amount
    let res = register_vesting_account(
        &mut ledger,
        now,
        None,
        "addr0001".to_string(),
        cw20("token0000"),
        1000000,
        linear(100, 110, 0),
    );
    assert_eq!(res.unwrap_err(), VestingError::ZeroAmount);

    // deposit differs from the schedule
    let res = register_vesting_account(
        &mut ledger,
        now,
        None,
        "addr0001".to_string(),
        cw20("token0000"),
        1000000,
        linear(100, 110, 999000),
    );
    assert_eq!(res.unwrap_err(), VestingError::DepositMismatch);

    // valid amount
    let res = register_vesting_account(
        &mut ledger,
        now,
        None,
        "addr0001".to_string(),
        cw20("token0000"),
        1000000,
        linear(100, 110, 1000000),
    )
    .unwrap();
    assert_eq!(res.address, "addr0001");
    assert_eq!(res.vesting_denom, cw20("token0000"));
    assert_eq!(res.vesting_amount, 1000000);

    assert_eq!(
        query_all(&ledger, now, "addr0001"),
        VestingAccountResponse {
            address: "addr0001".to_string(),
            vestings: vec![data(cw20("token0000"), 0, 0)],
        }
    );
}

#[test]
fn testing_claim_native() {
    let mut ledger = Ledger::new();
    register_with_funds(
        &mut ledger,
        100,
        None,
        "addr0001".to_string(),
        &vec![Coin { denom: "uusd".to_string(), amount: 1000000 }],
        linear(100, 110, 1000000),
    )
    .unwrap();
    let sender = "addr0001".to_string();

    // claim not found denom
    let res = claim(&mut ledger, 105, &sender, &vec![native("ukrw"), native("uusd")], None);
    assert_eq!(res.unwrap_err(), VestingError::NotFound(native("ukrw")));

    assert_eq!(ledger.get(&sender, &native("uusd")).unwrap().claimed_amount, 0);

    // valid claim
    let res = claim(&mut ledger, 105, &sender, &vec![native("uusd")], None).unwrap();
    assert_eq!(
        res.messages,
        vec![TransferMsg::BankSend {
            to_address: "addr0001".to_string(),
            denom: "uusd".to_string(),
            amount: 500000,
        }]
    );
    assert_eq!(res.address, "addr0001");
    assert_eq!(
        res.records,
        vec![ClaimRecord {
            vesting_denom: native("uusd"),
            vesting_amount: 1000000,
            vested_amount: 500000,
            claim_amount: 500000,
        }]
    );
    assert_eq!(
        query_all(&ledger, 105, "addr0001").vestings,
        vec![data(native("uusd"), 500000, 0)]
    );

    let res = claim(&mut ledger, 110, &sender, &vec![native("uusd")], None).unwrap();
    assert_eq!(
        res.messages,
        vec![TransferMsg::BankSend {
            to_address: "addr0001".to_string(),
            denom: "uusd".to_string(),
            amount: 500000,
        }]
    );
    assert_eq!(
        res.records,
        vec![ClaimRecord {
            vesting_denom: native("uusd"),
            vesting_amount: 1000000,
            vested_amount: 1000000,
            claim_amount: 500000,
        }]
    );
    assert_eq!(query_all(&ledger, 110, "addr0001").vestings, vec![]);
}

#[test]
fn testing_claim_cw20() {
    let mut ledger = Ledger::new();
    register_vesting_account(
        &mut ledger,
        100,
        None,
        "addr0001".to_string(),
        cw20("token0001"),
        1000000,
        linear(100, 110, 1000000),
    )
    .unwrap();
    let sender = "addr0001".to_string();

    // claim not found denom
    let res = claim(&mut ledger, 105, &sender, &vec![cw20("token0002"), cw20("token0001")], None);
    assert_eq!(res.unwrap_err(), VestingError::NotFound(cw20("token0002")));

    assert_eq!(ledger.get(&sender, &cw20("token0001")).unwrap().claimed_amount, 0);

    // valid claim
    let res = claim(&mut ledger, 105, &sender, &vec![cw20("token0001")], None).unwrap();
    assert_eq!(
        res.messages,
        vec![TransferMsg::Cw20Transfer {
            contract_addr: "token0001".to_string(),
            recipient: "addr0001".to_string(),
            amount: 500000,
        }]
    );
    assert_eq!(
        res.records,
        vec![ClaimRecord {
            vesting_denom: cw20("token0001"),
            vesting_amount: 1000000,
            vested_amount: 500000,
            claim_amount: 500000,
        }]
    );
    assert_eq!(
        query_all(&ledger, 105, "addr0001").vestings,
        vec![data(cw20("token0001"), 500000, 0)]
    );

    let res = claim(&mut ledger, 110, &sender, &vec![cw20("token0001")], None).unwrap();
    assert_eq!(
        res.messages,
        vec![TransferMsg::Cw20Transfer {
            contract_addr: "token0001".to_string(),
            recipient: "addr0001".to_string(),
            amount: 500000,
        }]
    );
    assert_eq!(
        res.records,
        vec![ClaimRecord {
            vesting_denom: cw20("token0001"),
            vesting_amount: 1000000,
            vested_amount: 1000000,
            claim_amount: 500000,
        }]
    );
    assert_eq!(query_all(&ledger, 110, "addr0001").vestings, vec![]);
}

#[test]
fn query_vesting_account() {
    let mut ledger = Ledger::new();
    register_with_funds(
        &mut ledger,
        100,
        None,
        "addr0001".to_string(),
        &vec![Coin { denom: "uusd".to_string(), amount: 1000000 }],
        linear(100, 110, 1000000),
    )
    .unwrap();
    register_vesting_account(
        &mut ledger,
        100,
        None,
        "addr0001".to_string(),
        cw20("token0001"),
        1000000,
        linear(100, 110, 1000000),
    )
    .unwrap();

    // query all entries
    assert_eq!(
        query_all(&ledger, 105, "addr0001"),
        VestingAccountResponse {
            address: "addr0001".to_string(),
            vestings: vec![
                data(cw20("token0001"), 500000, 500000),
                data(native("uusd"), 500000, 500000),
            ],
        }
    );

    // query one entry
    assert_eq!(
        vesting_account(&ledger, 105, "addr0001".to_string(), None, Some(1)).unwrap(),
        VestingAccountResponse {
            address: "addr0001".to_string(),
            vestings: vec![data(cw20("token0001"), 500000, 500000)],
        }
    );

    // query one entry after the first one
    assert_eq!(
        vesting_account(&ledger, 105, "addr0001".to_string(), Some(cw20("token0001")), Some(1))
            .unwrap(),
        VestingAccountResponse {
            address: "addr0001".to_string(),
            vestings: vec![data(native("uusd"), 500000, 500000)],
        }
    );
}

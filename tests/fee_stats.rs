use fee_stats::ledger::{
    invocations_well_formed, on_close, Envelope, Mean, Stats, TxRecord, TxResultCode,
};
use fee_stats::ops::{count_ops_and_fees, invocation_is_sole_op, OpClass, Tally};
use fee_stats::window::{get_last, LastLedgerRequest};

fn tx(ops: Vec<OpClass>, fee: i64) -> TxRecord {
    TxRecord { envelope: Envelope::Tx(ops), fee_charged: fee, result: TxResultCode::TxSuccess }
}

fn failed(ops: Vec<OpClass>, fee: i64) -> TxRecord {
    TxRecord { envelope: Envelope::Tx(ops), fee_charged: fee, result: TxResultCode::Unsuccessful }
}

fn stats_at(time_st: u64) -> Stats {
    Stats {
        time_st,
        classic: time_st as i128,
        contracts: 0,
        other: 0,
        avg_s: Mean::Zero,
        avg_c: Mean::Quotient { total: 10 * time_st as i128, divisor: 1 },
    }
}

#[test]
fn single_classic_payment() {
    let s = on_close(42, &vec![tx(vec![OpClass::Classic], 100)]);
    assert_eq!(s.time_st, 42);
    assert_eq!(s.classic, 1);
    assert_eq!(s.contracts, 0);
    assert_eq!(s.other, 0);
    assert_eq!(s.avg_s, Mean::Zero);
    assert_eq!(s.avg_c, Mean::Quotient { total: 100, divisor: 1 });
}

#[test]
fn single_invocation() {
    let s = on_close(7, &vec![tx(vec![OpClass::InvokeHostFunction], 500)]);
    assert_eq!(s.classic, 0);
    assert_eq!(s.contracts, 1);
    assert_eq!(s.other, 0);
    assert_eq!(s.avg_s, Mean::Quotient { total: 500, divisor: 1 });
    assert_eq!(s.avg_c, Mean::Zero);
}

#[test]
fn last_three_of_seven() {
    let store: Vec<Stats> = (1..=7).map(stats_at).collect();
    let r = get_last(store, &LastLedgerRequest { lastnl: 3 });
    assert_eq!(r, vec![stats_at(5), stats_at(6), stats_at(7)]);
}

#[test]
fn window_larger_than_store() {
    let store: Vec<Stats> = (1..=4).map(stats_at).collect();
    let r = get_last(store.clone(), &LastLedgerRequest { lastnl: 10 });
    assert_eq!(r, store);
}

#[test]
fn window_edges() {
    let store: Vec<u64> = vec![1, 2, 3];
    assert!(get_last(store.clone(), &LastLedgerRequest { lastnl: 0 }).is_empty());
    assert!(get_last(Vec::<u64>::new(), &LastLedgerRequest { lastnl: 5 }).is_empty());
    assert_eq!(get_last(store.clone(), &LastLedgerRequest { lastnl: 3 }), vec![1, 2, 3]);
    assert_eq!(get_last(store, &LastLedgerRequest { lastnl: u32::MAX }), vec![1, 2, 3]);
}

#[test]
fn counts_cover_every_operation() {
    let txs = vec![
        tx(vec![OpClass::Classic, OpClass::Classic, OpClass::ExtendFootprintTtl], 300),
        tx(vec![OpClass::RestoreFootprint], 200),
        tx(vec![OpClass::InvokeHostFunction], 1000),
        failed(vec![OpClass::Classic, OpClass::Classic], 50),
    ];
    let s = on_close(1, &txs);
    assert_eq!(s.classic, 2);
    assert_eq!(s.contracts, 1);
    assert_eq!(s.other, 2);
    assert_eq!(s.classic + s.contracts + s.other, 5);
    assert_eq!(s.avg_s, Mean::Quotient { total: 1000, divisor: 1 });
    assert_eq!(s.avg_c, Mean::Quotient { total: 500, divisor: 2 });
}

#[test]
fn unsuccessful_transactions_count_nothing() {
    let ok = vec![tx(vec![OpClass::Classic], 100), tx(vec![OpClass::InvokeHostFunction], 400)];
    let mut mixed = vec![failed(vec![OpClass::InvokeHostFunction], 900)];
    mixed.push(tx(vec![OpClass::Classic], 100));
    mixed.push(tx(vec![OpClass::InvokeHostFunction], 400));
    mixed.insert(2, failed(vec![OpClass::Classic, OpClass::RestoreFootprint], 70));
    assert_eq!(on_close(3, &ok), on_close(3, &mixed));
    let none = on_close(3, &vec![failed(vec![OpClass::Classic], 100)]);
    assert_eq!(
        none,
        Stats { time_st: 3, classic: 0, contracts: 0, other: 0, avg_s: Mean::Zero, avg_c: Mean::Zero }
    );
}

#[test]
fn fee_bump_inner_success_counts() {
    let t = TxRecord {
        envelope: Envelope::TxFeeBump(vec![OpClass::InvokeHostFunction]),
        fee_charged: 250,
        result: TxResultCode::TxFeeBumpInnerSuccess,
    };
    let v0 = TxRecord {
        envelope: Envelope::TxV0(vec![OpClass::Classic, OpClass::Classic]),
        fee_charged: 60,
        result: TxResultCode::TxSuccess,
    };
    let s = on_close(9, &vec![t, v0]);
    assert_eq!(s.contracts, 1);
    assert_eq!(s.classic, 2);
    assert_eq!(s.avg_s, Mean::Quotient { total: 250, divisor: 1 });
    assert_eq!(s.avg_c, Mean::Quotient { total: 60, divisor: 1 });
}

#[test]
fn empty_ledger_is_all_zero() {
    let s = on_close(5, &Vec::new());
    assert_eq!(
        s,
        Stats { time_st: 5, classic: 0, contracts: 0, other: 0, avg_s: Mean::Zero, avg_c: Mean::Zero }
    );
}

#[test]
fn no_invocations_zero_contract_average() {
    let s = on_close(2, &vec![tx(vec![OpClass::Classic], 10), tx(vec![OpClass::Classic], 30)]);
    assert_eq!(s.contracts, 0);
    assert_eq!(s.avg_s, Mean::Zero);
    assert_eq!(s.avg_c, Mean::Quotient { total: 40, divisor: 2 });
}

#[test]
fn lifecycle_only_keeps_classic_average_zero() {
    // The classic average is guarded by the classic count, not by its divisor.
    let s = on_close(2, &vec![tx(vec![OpClass::ExtendFootprintTtl], 80)]);
    assert_eq!(s.classic, 0);
    assert_eq!(s.other, 1);
    assert_eq!(s.avg_c, Mean::Zero);
}

#[test]
fn invocation_beside_other_operations_is_flagged() {
    let bad = vec![tx(vec![OpClass::InvokeHostFunction, OpClass::Classic], 100)];
    assert!(!invocations_well_formed(&bad));
    let s = on_close(4, &bad);
    assert_eq!(s.contracts, 1);
    assert_eq!(s.classic, 1);
    assert_eq!(s.avg_s, Mean::Quotient { total: 100, divisor: 1 });
    assert_eq!(s.avg_c, Mean::Quotient { total: 0, divisor: 0 });
    let good = vec![tx(vec![OpClass::InvokeHostFunction], 100), tx(vec![OpClass::Classic], 5)];
    assert!(invocations_well_formed(&good));
}

#[test]
fn sole_invocation_shape() {
    assert!(invocation_is_sole_op(&vec![OpClass::InvokeHostFunction]));
    assert!(invocation_is_sole_op(&vec![]));
    assert!(invocation_is_sole_op(&vec![OpClass::Classic, OpClass::RestoreFootprint]));
    assert!(!invocation_is_sole_op(&vec![OpClass::Classic, OpClass::InvokeHostFunction]));
}

#[test]
fn classify_one_transaction() {
    let mut t = Tally::new();
    count_ops_and_fees(&vec![], 100, &mut t);
    assert_eq!((t.classic, t.contracts, t.other, t.soroban_fee, t.classic_fee), (0, 0, 0, 0, 0));
    count_ops_and_fees(
        &vec![OpClass::Classic, OpClass::InvokeHostFunction, OpClass::RestoreFootprint],
        70,
        &mut t,
    );
    assert_eq!((t.classic, t.contracts, t.other, t.soroban_fee, t.classic_fee), (1, 1, 1, 0, 70));
    count_ops_and_fees(&vec![OpClass::InvokeHostFunction], 30, &mut t);
    assert_eq!((t.classic, t.contracts, t.other, t.soroban_fee, t.classic_fee), (1, 2, 1, 30, 70));
    assert_eq!(t.successful, 0);
}

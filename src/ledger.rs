use vstd::prelude::*;

use crate::ops::{
    count_ops_and_fees, invocation_is_sole, invocation_is_sole_op, lemma_classes_partition,
    OpClass, Tally, TallyView,
};

verus! {

/// The outcome recorded for a transaction. Only the two success variants count;
/// every other outcome is `Unsuccessful`.
#[derive(Clone, Copy, Debug, PartialEq, Eq, Structural)]
pub enum TxResultCode {
    TxSuccess,
    TxFeeBumpInnerSuccess,
    Unsuccessful,
}

impl TxResultCode {
    pub open spec fn succeeded(self) -> bool {
        self is TxSuccess || self is TxFeeBumpInnerSuccess
    }

    pub fn is_success(&self) -> (r: bool)
        ensures
            r == self.succeeded(),
    {
        match self {
            TxResultCode::TxSuccess => true,
            TxResultCode::TxFeeBumpInnerSuccess => true,
            TxResultCode::Unsuccessful => false,
        }
    }
}

/// A transaction envelope in one of its three shapes, each carrying its
/// operations; for a fee-bump envelope they are those of the inner transaction.
#[derive(Debug)]
pub enum Envelope {
    Tx(Vec<OpClass>),
    TxFeeBump(Vec<OpClass>),
    TxV0(Vec<OpClass>),
}

impl Envelope {
    pub open spec fn op_seq(&self) -> Seq<OpClass> {
        match self {
            Envelope::Tx(ops) => ops@,
            Envelope::TxFeeBump(ops) => ops@,
            Envelope::TxV0(ops) => ops@,
        }
    }

    /// The operations of the transaction that this envelope carries.
    pub fn operations(&self) -> (r: &Vec<OpClass>)
        ensures
            r@ == self.op_seq(),
    {
        match self {
            Envelope::Tx(ops) => ops,
            Envelope::TxFeeBump(ops) => ops,
            Envelope::TxV0(ops) => ops,
        }
    }
}

/// One transaction of a ledger close: its envelope, the fee it was charged
/// and its outcome.
#[derive(Debug)]
pub struct TxRecord {
    pub envelope: Envelope,
    pub fee_charged: i64,
    pub result: TxResultCode,
}

/// A fee average kept exactly: zero where its guard failed, else the quotient
/// `total / divisor`, which the reader renders as a decimal.
#[derive(Clone, Copy, Debug, PartialEq, Eq, Structural)]
pub enum Mean {
    Zero,
    Quotient { total: i128, divisor: i128 },
}

/// `Mean::Quotient` of `total` and `divisor` where `guard` holds, `Mean::Zero` otherwise.
pub open spec fn guarded_mean(guard: bool, total: int, divisor: int) -> Mean {
    if guard {
        Mean::Quotient { total: total as i128, divisor: divisor as i128 }
    } else {
        Mean::Zero
    }
}

/// The summary of one ledger close.
#[derive(Clone, Copy, Debug, PartialEq, Eq, Structural)]
pub struct Stats {
    pub time_st: u64,
    pub classic: i128,
    pub contracts: i128,
    pub other: i128,
    /// Mean fee of contract-invocation transactions.
    pub avg_s: Mean,
    /// Mean fee of the other successful transactions.
    pub avg_c: Mean,
}

/// Totals of a ledger close after its transactions `txs`, in order. An
/// unsuccessful transaction changes nothing.
pub open spec fn ledger_tally(txs: Seq<TxRecord>) -> TallyView
    decreases txs.len(),
{
    if txs.len() == 0 {
        TallyView::zero()
    } else {
        let prev = ledger_tally(txs.drop_last());
        let t = txs.last();
        if t.result.succeeded() {
            let v = prev.with_ops(t.envelope.op_seq(), t.fee_charged as int);
            TallyView { successful: v.successful + 1, ..v }
        } else {
            prev
        }
    }
}

/// Number of operations over all transactions of `txs`.
pub open spec fn op_total(txs: Seq<TxRecord>) -> int
    decreases txs.len(),
{
    if txs.len() == 0 {
        0
    } else {
        op_total(txs.drop_last()) + txs.last().envelope.op_seq().len()
    }
}

/// Number of operations over the successful transactions of `txs`.
pub open spec fn successful_op_total(txs: Seq<TxRecord>) -> int
    decreases txs.len(),
{
    if txs.len() == 0 {
        0
    } else {
        successful_op_total(txs.drop_last()) + if txs.last().result.succeeded() {
            txs.last().envelope.op_seq().len() as int
        } else {
            0int
        }
    }
}

/// The summary that a ledger close at `time_st` with totals `t` yields.
pub open spec fn stats_of(time_st: u64, t: TallyView) -> Stats {
    Stats {
        time_st,
        classic: t.classic as i128,
        contracts: t.contracts as i128,
        other: t.other as i128,
        avg_s: guarded_mean(t.contracts > 0, t.soroban_fee, t.contracts),
        avg_c: guarded_mean(t.classic > 0, t.classic_fee, t.successful - t.contracts),
    }
}

proof fn lemma_tally_bounds(txs: Seq<TxRecord>)
    ensures
        0 <= ledger_tally(txs).classic,
        0 <= ledger_tally(txs).contracts,
        0 <= ledger_tally(txs).other,
        ledger_tally(txs).classic + ledger_tally(txs).contracts + ledger_tally(txs).other
            == successful_op_total(txs),
        0 <= successful_op_total(txs) <= op_total(txs),
        0 <= ledger_tally(txs).successful <= txs.len(),
        txs.len() * (i64::MIN as int) <= ledger_tally(txs).soroban_fee <= txs.len() * (
        i64::MAX as int),
        txs.len() * (i64::MIN as int) <= ledger_tally(txs).classic_fee <= txs.len() * (
        i64::MAX as int),
    decreases txs.len(),
{
    if txs.len() > 0 {
        lemma_tally_bounds(txs.drop_last());
        lemma_classes_partition(txs.last().envelope.op_seq());
    }
}

proof fn lemma_prefix_step(txs: Seq<TxRecord>, i: int)
    requires
        0 <= i < txs.len(),
    ensures
        txs.subrange(0, i + 1).drop_last() == txs.subrange(0, i),
        txs.subrange(0, i + 1).last() == txs[i],
{
    assert(txs.subrange(0, i + 1).drop_last() =~= txs.subrange(0, i));
}

proof fn lemma_op_total_prefix(txs: Seq<TxRecord>, i: int)
    requires
        0 <= i <= txs.len(),
    ensures
        op_total(txs.subrange(0, i)) <= op_total(txs),
    decreases txs.len() - i,
{
    if i < txs.len() {
        lemma_prefix_step(txs, i);
        lemma_op_total_prefix(txs, i + 1);
    } else {
        assert(txs.subrange(0, i) =~= txs);
    }
}

/// Summarises one ledger close at `time_st` from its transactions.
///
/// Unsuccessful transactions are skipped. Each successful one is counted and
/// classified with `count_ops_and_fees`. The contract average is the
/// contract fee sum over the number of invocations, zero without invocations;
/// the classic average is the classic fee sum over the successful transactions
/// that are not invocations, zero when no classic operation was seen. That
/// guard is not the divisor: where an invocation shares its transaction with
/// other operations, the divisor can be zero or negative (see
/// `lemma_classic_divisor` for the inputs on which it is positive).
pub fn on_close(time_st: u64, envelopes: &Vec<TxRecord>) -> (r: Stats)
    requires
        op_total(envelopes@) <= i128::MAX,
    ensures
        r == stats_of(time_st, ledger_tally(envelopes@)),
{
    let mut tally = Tally::new();
    let n = envelopes.len();
    let mut i: usize = 0;
    while i < n
        invariant
            n == envelopes@.len(),
            i <= n,
            op_total(envelopes@) <= i128::MAX,
            tally@ == ledger_tally(envelopes@.subrange(0, i as int)),
        decreases n - i,
    {
        let ghost pre = envelopes@.subrange(0, i as int);
        proof {
            lemma_prefix_step(envelopes@, i as int);
            lemma_tally_bounds(pre);
            lemma_op_total_prefix(envelopes@, i as int + 1);
            lemma_tally_bounds(envelopes@.subrange(0, i as int + 1));
        }
        let rec = &envelopes[i];
        if rec.result.is_success() {
            tally.successful = tally.successful + 1;
            let ops = rec.envelope.operations();
            proof {
                lemma_classes_partition(ops@);
            }
            count_ops_and_fees(ops, rec.fee_charged, &mut tally);
        }
        i = i + 1;
    }
    proof {
        assert(envelopes@.subrange(0, n as int) =~= envelopes@);
        lemma_tally_bounds(envelopes@);
    }
    let avg_s = if tally.contracts > 0 {
        Mean::Quotient { total: tally.soroban_fee, divisor: tally.contracts }
    } else {
        Mean::Zero
    };
    let avg_c = if tally.classic > 0 {
        Mean::Quotient { total: tally.classic_fee, divisor: tally.successful - tally.contracts }
    } else {
        Mean::Zero
    };
    Stats { time_st, classic: tally.classic, contracts: tally.contracts, other: tally.other, avg_s, avg_c }
}

/// The protocol's shape for contract calls holds of every transaction in `txs`.
pub open spec fn invocations_sole(txs: Seq<TxRecord>) -> bool {
    forall|k: int| 0 <= k < txs.len() ==> invocation_is_sole(#[trigger] txs[k].envelope.op_seq())
}

/// Tells whether every transaction of a ledger close has the protocol's shape
/// for contract calls, the shape that fee attribution by first operation takes
/// for granted.
pub fn invocations_well_formed(envelopes: &Vec<TxRecord>) -> (r: bool)
    ensures
        r == invocations_sole(envelopes@),
{
    let n = envelopes.len();
    let mut i: usize = 0;
    while i < n
        invariant
            n == envelopes@.len(),
            i <= n,
            forall|k: int| 0 <= k < i ==> invocation_is_sole(#[trigger] envelopes@[k].envelope.op_seq()),
        decreases n - i,
    {
        if !invocation_is_sole_op(envelopes[i].envelope.operations()) {
            return false;
        }
        i = i + 1;
    }
    true
}

/// Every operation of a successful transaction is counted once: as classic, as a
/// contract invocation or as a lifecycle operation.
pub proof fn lemma_counts_cover_ops(txs: Seq<TxRecord>)
    ensures
        ledger_tally(txs).classic + ledger_tally(txs).contracts + ledger_tally(txs).other
            == successful_op_total(txs),
{
    lemma_tally_bounds(txs);
}

/// An average is zero when its guard fails: the contract average when no
/// invocation was counted, the classic average when no classic operation was.
pub proof fn lemma_zero_averages(time_st: u64, txs: Seq<TxRecord>)
    ensures
        ledger_tally(txs).contracts == 0 ==> stats_of(
            time_st,
            ledger_tally(txs),
        ).avg_s == Mean::Zero,
        ledger_tally(txs).classic == 0 ==> stats_of(
            time_st,
            ledger_tally(txs),
        ).avg_c == Mean::Zero,
{
    lemma_tally_bounds(txs);
}

proof fn lemma_non_invocations(txs: Seq<TxRecord>)
    requires
        invocations_sole(txs),
    ensures
        ledger_tally(txs).successful - ledger_tally(txs).contracts >= 0,
        ledger_tally(txs).classic > 0 ==> ledger_tally(txs).successful - ledger_tally(
            txs,
        ).contracts > 0,
    decreases txs.len(),
{
    if txs.len() > 0 {
        let pre = txs.drop_last();
        assert forall|k: int| 0 <= k < pre.len() implies invocation_is_sole(
            #[trigger] pre[k].envelope.op_seq(),
        ) by {
            assert(pre[k] == txs[k]);
        }
        lemma_non_invocations(pre);
        lemma_tally_bounds(pre);
        let ops = txs.last().envelope.op_seq();
        assert(invocation_is_sole(txs[txs.len() - 1].envelope.op_seq()));
        lemma_classes_partition(ops);
    }
}

/// Where every transaction has the protocol's shape for contract calls, the
/// divisor of the classic average counts the successful transactions that are
/// not invocations: it is never negative, and it is positive whenever the
/// average is a quotient. So with no such transaction the classic average is zero.
pub proof fn lemma_classic_divisor(time_st: u64, txs: Seq<TxRecord>)
    requires
        invocations_sole(txs),
    ensures
        ledger_tally(txs).successful - ledger_tally(txs).contracts >= 0,
        ledger_tally(txs).successful - ledger_tally(txs).contracts <= 0 ==> stats_of(
            time_st,
            ledger_tally(txs),
        ).avg_c == Mean::Zero,
        stats_of(time_st, ledger_tally(txs)).avg_c is Quotient ==> ledger_tally(txs).successful
            - ledger_tally(txs).contracts > 0,
{
    lemma_non_invocations(txs);
    lemma_tally_bounds(txs);
}

/// An unsuccessful transaction, wherever it stands, changes no total.
pub proof fn lemma_unsuccessful_ignored(txs: Seq<TxRecord>, i: int, t: TxRecord)
    requires
        0 <= i <= txs.len(),
        !t.result.succeeded(),
    ensures
        ledger_tally(txs.insert(i, t)) == ledger_tally(txs),
    decreases txs.len(),
{
    if i == txs.len() {
        assert(txs.insert(i, t).drop_last() =~= txs);
    } else {
        assert(txs.insert(i, t).drop_last() =~= txs.drop_last().insert(i, t));
        assert(txs.insert(i, t).last() == txs.last());
        lemma_unsuccessful_ignored(txs.drop_last(), i, t);
    }
}

} // verus!

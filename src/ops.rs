use vstd::prelude::*;

verus! {

/// The class of a ledger operation, as far as fee statistics care.
/// Every operation kind other than the three contract-related ones is `Classic`.
#[derive(Clone, Copy, Debug, PartialEq, Eq, Structural)]
pub enum OpClass {
    InvokeHostFunction,
    ExtendFootprintTtl,
    RestoreFootprint,
    Classic,
}

/// Number of operations of class `c` in `ops`.
pub open spec fn num_of(ops: Seq<OpClass>, c: OpClass) -> int
    decreases ops.len(),
{
    if ops.len() == 0 {
        0
    } else {
        num_of(ops.drop_last(), c) + if ops.last() == c {
            1int
        } else {
            0int
        }
    }
}

/// Number of footprint-lifecycle operations (extend-TTL and restore) in `ops`.
pub open spec fn num_lifecycle(ops: Seq<OpClass>) -> int {
    num_of(ops, OpClass::ExtendFootprintTtl) + num_of(ops, OpClass::RestoreFootprint)
}

/// A transaction is a contract invocation when its first operation invokes a host function.
pub open spec fn is_invocation_tx(ops: Seq<OpClass>) -> bool {
    ops.len() > 0 && ops[0] == OpClass::InvokeHostFunction
}

/// The part of a transaction's fee attributed to contract invocations.
pub open spec fn soroban_share(ops: Seq<OpClass>, fee: int) -> int {
    if is_invocation_tx(ops) {
        fee
    } else {
        0
    }
}

/// The part of a transaction's fee attributed to classic transactions.
pub open spec fn classic_share(ops: Seq<OpClass>, fee: int) -> int {
    if ops.len() > 0 && !is_invocation_tx(ops) {
        fee
    } else {
        0
    }
}

/// The protocol's shape for contract calls: an operation list that holds a host
/// function invocation holds nothing else.
pub open spec fn invocation_is_sole(ops: Seq<OpClass>) -> bool {
    num_of(ops, OpClass::InvokeHostFunction) > 0 ==> ops.len() == 1
}

/// Running totals of one aggregation pass.
pub struct TallyView {
    pub classic: int,
    pub contracts: int,
    pub other: int,
    pub soroban_fee: int,
    pub classic_fee: int,
    pub successful: int,
}

impl TallyView {
    pub open spec fn zero() -> TallyView {
        TallyView { classic: 0, contracts: 0, other: 0, soroban_fee: 0, classic_fee: 0, successful: 0 }
    }

    /// The totals after classifying one transaction's operations and fee.
    pub open spec fn with_ops(self, ops: Seq<OpClass>, fee: int) -> TallyView {
        TallyView {
            classic: self.classic + num_of(ops, OpClass::Classic),
            contracts: self.contracts + num_of(ops, OpClass::InvokeHostFunction),
            other: self.other + num_lifecycle(ops),
            soroban_fee: self.soroban_fee + soroban_share(ops, fee),
            classic_fee: self.classic_fee + classic_share(ops, fee),
            successful: self.successful,
        }
    }
}

/// The accumulators of one aggregation pass.
#[derive(Clone, Copy, Debug)]
pub struct Tally {
    pub classic: i128,
    pub contracts: i128,
    pub other: i128,
    pub soroban_fee: i128,
    pub classic_fee: i128,
    pub successful: i128,
}

impl View for Tally {
    type V = TallyView;

    open spec fn view(&self) -> TallyView {
        TallyView {
            classic: self.classic as int,
            contracts: self.contracts as int,
            other: self.other as int,
            soroban_fee: self.soroban_fee as int,
            classic_fee: self.classic_fee as int,
            successful: self.successful as int,
        }
    }
}

impl Tally {
    /// All accumulators at zero.
    pub fn new() -> (r: Tally)
        ensures
            r@ == TallyView::zero(),
    {
        Tally { classic: 0, contracts: 0, other: 0, soroban_fee: 0, classic_fee: 0, successful: 0 }
    }
}

/// Every operation falls in exactly one of the four classes.
pub proof fn lemma_classes_partition(ops: Seq<OpClass>)
    ensures
        num_of(ops, OpClass::Classic) + num_of(ops, OpClass::InvokeHostFunction) + num_lifecycle(ops)
            == ops.len(),
        0 <= num_of(ops, OpClass::Classic),
        0 <= num_of(ops, OpClass::InvokeHostFunction),
        0 <= num_of(ops, OpClass::ExtendFootprintTtl),
        0 <= num_of(ops, OpClass::RestoreFootprint),
    decreases ops.len(),
{
    if ops.len() > 0 {
        lemma_classes_partition(ops.drop_last());
    }
}

proof fn lemma_num_of_step(ops: Seq<OpClass>, i: int, c: OpClass)
    requires
        0 <= i < ops.len(),
    ensures
        num_of(ops.subrange(0, i + 1), c) == num_of(ops.subrange(0, i), c) + if ops[i] == c {
            1int
        } else {
            0int
        },
{
    assert(ops.subrange(0, i + 1).drop_last() =~= ops.subrange(0, i));
}

/// Where a host function invocation is the sole operation, looking at the first
/// operation tells an invocation transaction apart exactly as scanning the whole
/// list would.
pub proof fn lemma_first_op_decides(ops: Seq<OpClass>)
    requires
        invocation_is_sole(ops),
    ensures
        is_invocation_tx(ops) <==> num_of(ops, OpClass::InvokeHostFunction) > 0,
{
    lemma_classes_partition(ops);
    if ops.len() == 1 {
        assert(ops.drop_last() =~= Seq::<OpClass>::empty());
        assert(num_of(ops.drop_last(), OpClass::InvokeHostFunction) == 0);
        assert(ops.last() == ops[0]);
    } else if ops.len() > 1 && ops[0] == OpClass::InvokeHostFunction {
        lemma_num_of_positive(ops, 0, OpClass::InvokeHostFunction);
    }
}

proof fn lemma_num_of_positive(ops: Seq<OpClass>, i: int, c: OpClass)
    requires
        0 <= i < ops.len(),
        ops[i] == c,
    ensures
        num_of(ops, c) > 0,
    decreases ops.len(),
{
    lemma_classes_partition(ops.drop_last());
    lemma_nonneg(ops.drop_last(), c);
    if i < ops.len() - 1 {
        lemma_num_of_positive(ops.drop_last(), i, c);
    }
}

proof fn lemma_nonneg(ops: Seq<OpClass>, c: OpClass)
    ensures
        num_of(ops, c) >= 0,
    decreases ops.len(),
{
    if ops.len() > 0 {
        lemma_nonneg(ops.drop_last(), c);
    }
}

/// Tells whether an operation list has the protocol's shape for contract calls.
pub fn invocation_is_sole_op(ops: &Vec<OpClass>) -> (r: bool)
    ensures
        r == invocation_is_sole(ops@),
{
    let n = ops.len();
    let mut i: usize = 0;
    let mut found = false;
    while i < n
        invariant
            n == ops@.len(),
            i <= n,
            found == (num_of(ops@.subrange(0, i as int), OpClass::InvokeHostFunction) > 0),
        decreases n - i,
    {
        proof {
            lemma_num_of_step(ops@, i as int, OpClass::InvokeHostFunction);
            lemma_nonneg(ops@.subrange(0, i as int), OpClass::InvokeHostFunction);
        }
        if ops[i] == OpClass::InvokeHostFunction {
            found = true;
        }
        i = i + 1;
    }
    assert(ops@.subrange(0, n as int) =~= ops@);
    !found || n == 1
}

/// Classifies one transaction's operations and attributes its fee.
///
/// The whole fee goes to the contract-invocation sum when the first operation
/// invokes a host function, and to the classic sum otherwise; an empty list
/// attributes nothing. Each operation then adds one to the count of its class,
/// extend-TTL and restore counting together as lifecycle operations.
pub fn count_ops_and_fees(ops: &Vec<OpClass>, txfee: i64, tally: &mut Tally)
    requires
        old(tally).classic + ops@.len() <= i128::MAX,
        old(tally).contracts + ops@.len() <= i128::MAX,
        old(tally).other + ops@.len() <= i128::MAX,
        i128::MIN <= old(tally).soroban_fee + txfee <= i128::MAX,
        i128::MIN <= old(tally).classic_fee + txfee <= i128::MAX,
    ensures
        final(tally)@ == old(tally)@.with_ops(ops@, txfee as int),
{
    if ops.len() > 0 {
        match ops[0] {
            OpClass::InvokeHostFunction => {
                tally.soroban_fee = tally.soroban_fee + txfee as i128;
            },
            _ => {
                tally.classic_fee = tally.classic_fee + txfee as i128;
            },
        }
    }
    let ghost start = *tally;
    let n = ops.len();
    let mut i: usize = 0;
    while i < n
        invariant
            n == ops@.len(),
            i <= n,
            start.classic + n <= i128::MAX,
            start.contracts + n <= i128::MAX,
            start.other + n <= i128::MAX,
            tally.soroban_fee == start.soroban_fee,
            tally.classic_fee == start.classic_fee,
            tally.successful == start.successful,
            tally.classic == start.classic + num_of(ops@.subrange(0, i as int), OpClass::Classic),
            tally.contracts == start.contracts + num_of(
                ops@.subrange(0, i as int),
                OpClass::InvokeHostFunction,
            ),
            tally.other == start.other + num_lifecycle(ops@.subrange(0, i as int)),
        decreases n - i,
    {
        proof {
            lemma_num_of_step(ops@, i as int, OpClass::Classic);
            lemma_num_of_step(ops@, i as int, OpClass::InvokeHostFunction);
            lemma_num_of_step(ops@, i as int, OpClass::ExtendFootprintTtl);
            lemma_num_of_step(ops@, i as int, OpClass::RestoreFootprint);
            lemma_classes_partition(ops@.subrange(0, i as int));
        }
        match ops[i] {
            OpClass::InvokeHostFunction => {
                tally.contracts = tally.contracts + 1;
            },
            OpClass::ExtendFootprintTtl => {
                tally.other = tally.other + 1;
            },
            OpClass::RestoreFootprint => {
                tally.other = tally.other + 1;
            },
            OpClass::Classic => {
                tally.classic = tally.classic + 1;
            },
        }
        i = i + 1;
    }
    assert(ops@.subrange(0, n as int) =~= ops@);
}

} // verus!

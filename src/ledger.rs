//! The ledger: account balances moved by the operations of final blocks, with
//! an undo log that takes a block's effects back exactly.
use vstd::prelude::*;

verus! {

/// What an operation of a block does. Accounts are numbered from zero.
#[derive(Clone, Copy, Debug, PartialEq, Eq, Structural)]
pub enum Operation {
    /// Moves `amount` from `from` to `to`; `fee` goes from `from` to the block's creator.
    Transfer { from: usize, to: usize, amount: u64, fee: u64 },
    /// Destroys `amount` held by `from`.
    Burn { from: usize, amount: u64 },
}

/// Why a block could not be applied. Each means that the block was not
/// validated as it should have been.
#[derive(Clone, Copy, Debug, PartialEq, Eq, Structural)]
pub enum LedgerError {
    UnknownAccount,
    InsufficientBalance,
    Overflow,
}

/// The sum of the balances.
pub open spec fn spec_sum(s: Seq<u64>) -> int
    decreases s.len(),
{
    if s.len() == 0 {
        0
    } else {
        spec_sum(s.drop_last()) + s.last()
    }
}

pub proof fn lemma_sum_update(s: Seq<u64>, i: int, v: u64)
    requires
        0 <= i < s.len(),
    ensures
        spec_sum(s.update(i, v)) == spec_sum(s) - s[i] + v,
    decreases s.len(),
{
    let t = s.update(i, v);
    if i == s.len() - 1 {
        assert(t.drop_last() =~= s.drop_last());
    } else {
        lemma_sum_update(s.drop_last(), i, v);
        assert(t.drop_last() =~= s.drop_last().update(i, v));
    }
}

pub proof fn lemma_sum_nonneg(s: Seq<u64>)
    ensures
        spec_sum(s) >= 0,
    decreases s.len(),
{
    if s.len() > 0 {
        lemma_sum_nonneg(s.drop_last());
    }
}

/// Writing back the balance an entry of the log recorded undoes that write.
pub proof fn lemma_restore_write(s: Seq<u64>, log: Seq<(usize, u64)>, i: usize, v: u64)
    requires
        i < s.len(),
    ensures
        spec_restore(s.update(i as int, v), log.push((i, s[i as int]))) == spec_restore(s, log),
{
    let l = log.push((i, s[i as int]));
    assert(l.drop_last() =~= log);
    assert(s.update(i as int, v).update(i as int, s[i as int]) =~= s);
}

/// `s` with `amount` added to account `i`.
pub open spec fn spec_credit(s: Seq<u64>, i: int, amount: u64) -> Result<Seq<u64>, LedgerError> {
    if !(0 <= i < s.len()) {
        Err(LedgerError::UnknownAccount)
    } else if s[i] + amount > u64::MAX {
        Err(LedgerError::Overflow)
    } else {
        Ok(s.update(i, (s[i] + amount) as u64))
    }
}

/// `s` with `amount` taken from account `i`.
pub open spec fn spec_debit(s: Seq<u64>, i: int, amount: u64) -> Result<Seq<u64>, LedgerError> {
    if !(0 <= i < s.len()) {
        Err(LedgerError::UnknownAccount)
    } else if s[i] < amount {
        Err(LedgerError::InsufficientBalance)
    } else {
        Ok(s.update(i, (s[i] - amount) as u64))
    }
}

/// The balances after one operation of a block made by `creator`: a transfer
/// takes amount and fee from the sender, then credits the amount to the
/// receiver and the fee to the creator.
pub open spec fn spec_apply_op(s: Seq<u64>, creator: usize, op: Operation) -> Result<Seq<u64>, LedgerError> {
    match op {
        Operation::Transfer { from, to, amount, fee } => {
            if amount + fee > u64::MAX {
                Err(LedgerError::Overflow)
            } else {
                match spec_debit(s, from as int, (amount + fee) as u64) {
                    Err(e) => Err(e),
                    Ok(s1) => match spec_credit(s1, to as int, amount) {
                        Err(e) => Err(e),
                        Ok(s2) => spec_credit(s2, creator as int, fee),
                    },
                }
            }
        },
        Operation::Burn { from, amount } => spec_debit(s, from as int, amount),
    }
}

/// The amount an operation destroys.
pub open spec fn spec_burnt(op: Operation) -> int {
    match op {
        Operation::Transfer { .. } => 0,
        Operation::Burn { amount, .. } => amount as int,
    }
}

/// The balances after the operations of `ops`, in order; the first failure
/// stops the block.
pub open spec fn spec_apply_ops(s: Seq<u64>, creator: usize, ops: Seq<Operation>) -> Result<Seq<u64>, LedgerError>
    decreases ops.len(),
{
    if ops.len() == 0 {
        Ok(s)
    } else {
        match spec_apply_ops(s, creator, ops.drop_last()) {
            Err(e) => Err(e),
            Ok(s1) => spec_apply_op(s1, creator, ops.last()),
        }
    }
}

/// The total that the operations of `ops` destroy.
pub open spec fn spec_burnt_total(ops: Seq<Operation>) -> int
    decreases ops.len(),
{
    if ops.len() == 0 {
        0
    } else {
        spec_burnt_total(ops.drop_last()) + spec_burnt(ops.last())
    }
}

/// The balances after a block: the creator's reward first, then the operations.
pub open spec fn spec_apply_block(s: Seq<u64>, creator: usize, reward: u64, ops: Seq<Operation>) -> Result<Seq<u64>, LedgerError> {
    match spec_credit(s, creator as int, reward) {
        Err(e) => Err(e),
        Ok(s1) => spec_apply_ops(s1, creator, ops),
    }
}

/// Takes the writes of `log` back, the last first: each entry holds an
/// account and the balance it had before the write.
pub open spec fn spec_restore(s: Seq<u64>, log: Seq<(usize, u64)>) -> Seq<u64>
    decreases log.len(),
{
    if log.len() == 0 {
        s
    } else {
        spec_restore(s.update(log.last().0 as int, log.last().1), log.drop_last())
    }
}

/// Whether every account written in `log` is below `n`.
pub open spec fn spec_log_fits(log: Seq<(usize, u64)>, n: nat) -> bool {
    forall|k: int| 0 <= k < log.len() ==> (#[trigger] log[k]).0 < n
}

/// What a block changed, to take it back.
pub struct Undo {
    pub log: Vec<(usize, u64)>,
    pub issued: u128,
    pub burned: u128,
}

/// Account balances and the supply accounting: what was issued as rewards
/// and what was burned.
pub struct Ledger {
    balances: Vec<u64>,
    issued: u128,
    burned: u128,
}

impl View for Ledger {
    type V = Seq<u64>;

    closed spec fn view(&self) -> Seq<u64> {
        self.balances@
    }
}

impl Ledger {
    pub closed spec fn spec_issued(&self) -> u128 {
        self.issued
    }

    pub closed spec fn spec_burned(&self) -> u128 {
        self.burned
    }

    /// Conservation: the balances add up to what was issued minus what was burned.
    pub open spec fn wf(&self) -> bool {
        spec_sum(self@) == self.spec_issued() - self.spec_burned()
    }

    /// A ledger of `n` empty accounts.
    pub fn new(n: usize) -> (r: Ledger)
        ensures
            r.wf(),
            r@ == Seq::new(n as nat, |i: int| 0u64),
            r.spec_issued() == 0,
            r.spec_burned() == 0,
    {
        let mut balances: Vec<u64> = Vec::new();
        let mut i: usize = 0;
        while i < n
            invariant
                i <= n,
                balances@ == Seq::new(i as nat, |k: int| 0u64),
                spec_sum(balances@) == 0,
            decreases n - i,
        {
            balances.push(0);
            assert(balances@.drop_last() =~= Seq::new(i as nat, |k: int| 0u64));
            assert(balances@ =~= Seq::new((i + 1) as nat, |k: int| 0u64));
            i = i + 1;
        }
        Ledger { balances, issued: 0, burned: 0 }
    }

    /// The balance of account `i`.
    pub fn balance(&self, i: usize) -> (r: Option<u64>)
        ensures
            r == (if i < self@.len() { Some(self@[i as int]) } else { None::<u64> }),
    {
        if i < self.balances.len() {
            Some(self.balances[i])
        } else {
            None
        }
    }

    /// What was issued as rewards.
    pub fn issued(&self) -> (r: u128)
        ensures
            r == self.spec_issued(),
    {
        self.issued
    }

    /// What was burned.
    pub fn burned(&self) -> (r: u128)
        ensures
            r == self.spec_burned(),
    {
        self.burned
    }

    /// Adds `amount` to account `i`, recording the old balance in `log`.
    fn credit(&mut self, i: usize, amount: u64, log: &mut Vec<(usize, u64)>) -> (r: Result<(), LedgerError>)
        requires
            spec_log_fits(old(log)@, old(self)@.len()),
        ensures
            final(self)@.len() == old(self)@.len(),
            final(self).spec_issued() == old(self).spec_issued(),
            final(self).spec_burned() == old(self).spec_burned(),
            spec_log_fits(final(log)@, final(self)@.len()),
            spec_restore(final(self)@, final(log)@) == spec_restore(old(self)@, old(log)@),
            match spec_credit(old(self)@, i as int, amount) {
                Ok(t) => r is Ok && final(self)@ == t && spec_sum(t) == spec_sum(old(self)@) + amount,
                Err(e) => r == Err::<(), LedgerError>(e),
            },
    {
        if i >= self.balances.len() {
            return Err(LedgerError::UnknownAccount);
        }
        let before = self.balances[i];
        match before.checked_add(amount) {
            None => Err(LedgerError::Overflow),
            Some(after) => {
                proof {
                    lemma_sum_update(self@, i as int, after);
                    lemma_restore_write(self@, log@, i, after);
                }
                log.push((i, before));
                self.balances.set(i, after);
                Ok(())
            },
        }
    }

    /// Takes `amount` from account `i`, recording the old balance in `log`.
    fn debit(&mut self, i: usize, amount: u64, log: &mut Vec<(usize, u64)>) -> (r: Result<(), LedgerError>)
        requires
            spec_log_fits(old(log)@, old(self)@.len()),
        ensures
            final(self)@.len() == old(self)@.len(),
            final(self).spec_issued() == old(self).spec_issued(),
            final(self).spec_burned() == old(self).spec_burned(),
            spec_log_fits(final(log)@, final(self)@.len()),
            spec_restore(final(self)@, final(log)@) == spec_restore(old(self)@, old(log)@),
            match spec_debit(old(self)@, i as int, amount) {
                Ok(t) => r is Ok && final(self)@ == t && spec_sum(t) == spec_sum(old(self)@) - amount,
                Err(e) => r == Err::<(), LedgerError>(e),
            },
    {
        if i >= self.balances.len() {
            return Err(LedgerError::UnknownAccount);
        }
        let before = self.balances[i];
        if before < amount {
            return Err(LedgerError::InsufficientBalance);
        }
        let after = before - amount;
        proof {
            lemma_sum_update(self@, i as int, after);
            lemma_restore_write(self@, log@, i, after);
        }
        log.push((i, before));
        self.balances.set(i, after);
        Ok(())
    }

    /// Applies one operation of a block made by `creator`.
    fn apply_op(&mut self, creator: usize, op: Operation, log: &mut Vec<(usize, u64)>) -> (r: Result<(), LedgerError>)
        requires
            spec_log_fits(old(log)@, old(self)@.len()),
        ensures
            final(self)@.len() == old(self)@.len(),
            final(self).spec_issued() == old(self).spec_issued(),
            final(self).spec_burned() == old(self).spec_burned(),
            spec_log_fits(final(log)@, final(self)@.len()),
            spec_restore(final(self)@, final(log)@) == spec_restore(old(self)@, old(log)@),
            match spec_apply_op(old(self)@, creator, op) {
                Ok(t) => r is Ok && final(self)@ == t && spec_sum(t) == spec_sum(old(self)@) - spec_burnt(op),
                Err(e) => r == Err::<(), LedgerError>(e),
            },
    {
        match op {
            Operation::Transfer { from, to, amount, fee } => {
                let total = match amount.checked_add(fee) {
                    None => return Err(LedgerError::Overflow),
                    Some(t) => t,
                };
                match self.debit(from, total, log) {
                    Err(e) => return Err(e),
                    Ok(()) => {},
                }
                match self.credit(to, amount, log) {
                    Err(e) => return Err(e),
                    Ok(()) => {},
                }
                self.credit(creator, fee, log)
            },
            Operation::Burn { from, amount } => self.debit(from, amount, log),
        }
    }

    /// Writes back, the last first, the balances that `log` recorded.
    fn restore(&mut self, log: &Vec<(usize, u64)>)
        requires
            spec_log_fits(log@, old(self)@.len()),
        ensures
            final(self)@ == spec_restore(old(self)@, log@),
            final(self).spec_issued() == old(self).spec_issued(),
            final(self).spec_burned() == old(self).spec_burned(),
    {
        let mut k: usize = log.len();
        assert(log@.take(log@.len() as int) =~= log@);
        while k > 0
            invariant
                k <= log.len(),
                self@.len() == old(self)@.len(),
                spec_log_fits(log@, old(self)@.len()),
                spec_restore(self@, log@.take(k as int)) == spec_restore(old(self)@, log@),
                self.issued == old(self).issued,
                self.burned == old(self).burned,
            decreases k,
        {
            let (i, v) = log[k - 1];
            assert(log@.take(k as int).drop_last() =~= log@.take(k - 1));
            assert(log@[k - 1].0 < old(self)@.len());
            self.balances.set(i, v);
            k = k - 1;
        }
        assert(log@.take(0) =~= Seq::<(usize, u64)>::empty());
    }

    /// Applies a final block made by `creator`: its reward is issued to the
    /// creator, then its operations run in order. On success the ledger holds
    /// the new balances and the returned undo takes them back exactly; on
    /// failure nothing changes.
    pub fn apply_block(&mut self, creator: usize, reward: u64, ops: &Vec<Operation>) -> (r: Result<Undo, LedgerError>)
        requires
            old(self).wf(),
        ensures
            final(self).wf(),
            old(self).spec_issued() + reward > u128::MAX ==> r == Err::<Undo, LedgerError>(LedgerError::Overflow),
            old(self).spec_issued() + reward <= u128::MAX ==> match spec_apply_block(old(self)@, creator, reward, ops@) {
                Ok(t) => r is Ok && final(self)@ == t,
                Err(e) => r matches Err(e2) && e2 == e,
            },
            r is Err ==> final(self)@ == old(self)@ && final(self).spec_issued() == old(self).spec_issued()
                && final(self).spec_burned() == old(self).spec_burned(),
            r matches Ok(undo) ==> final(self).spec_issued() == old(self).spec_issued() + reward
                && final(self).spec_burned() == old(self).spec_burned() + spec_burnt_total(ops@)
                && spec_log_fits(undo.log@, final(self)@.len())
                && spec_restore(final(self)@, undo.log@) == old(self)@
                && undo.issued == old(self).spec_issued()
                && undo.burned == old(self).spec_burned(),
    {
        let issued = match self.issued.checked_add(reward as u128) {
            None => return Err(LedgerError::Overflow),
            Some(v) => v,
        };
        let ghost start = self@;
        let mut log: Vec<(usize, u64)> = Vec::new();
        match self.credit(creator, reward, &mut log) {
            Err(e) => {
                self.restore(&log);
                return Err(e);
            },
            Ok(()) => {},
        }
        let ghost rewarded = self@;
        let mut burnt: u128 = 0;
        let mut i: usize = 0;
        assert(ops@.take(0) =~= Seq::<Operation>::empty());
        while i < ops.len()
            invariant
                i <= ops.len(),
                self@.len() == start.len(),
                self.issued == old(self).issued,
                self.burned == old(self).burned,
                old(self)@ == start,
                old(self).wf(),
                issued == old(self).issued + reward,
                spec_credit(start, creator as int, reward) == Ok::<Seq<u64>, LedgerError>(rewarded),
                spec_log_fits(log@, start.len()),
                spec_restore(self@, log@) == start,
                spec_apply_ops(rewarded, creator, ops@.take(i as int)) == Ok::<Seq<u64>, LedgerError>(self@),
                burnt == spec_burnt_total(ops@.take(i as int)),
                spec_sum(self@) == spec_sum(start) + reward - burnt,
            decreases ops.len() - i,
        {
            let op = ops[i];
            assert(ops@.take(i + 1).drop_last() =~= ops@.take(i as int));
            assert(ops@.take(i + 1).last() == op);
            match self.apply_op(creator, op, &mut log) {
                Err(e) => {
                    self.restore(&log);
                    proof {
                        lemma_apply_ops_fails_from(rewarded, creator, ops@, (i + 1) as int);
                        assert(ops@.take(ops@.len() as int) =~= ops@);
                    }
                    return Err(e);
                },
                Ok(()) => {},
            }
            proof {
                lemma_sum_nonneg(self@);
                lemma_sum_nonneg(start);
            }
            match op {
                Operation::Burn { amount, .. } => {
                    burnt = burnt + amount as u128;
                },
                Operation::Transfer { .. } => {},
            }
            i = i + 1;
        }
        assert(ops@.take(ops@.len() as int) =~= ops@);
        proof {
            lemma_sum_nonneg(self@);
        }
        let undo = Undo { log, issued: self.issued, burned: self.burned };
        self.issued = issued;
        self.burned = self.burned + burnt;
        Ok(undo)
    }

    /// Takes back the block that `undo` was returned for: the balances it
    /// changed and the supply accounting return to what they were before it.
    pub fn rollback(&mut self, undo: &Undo)
        requires
            spec_log_fits(undo.log@, old(self)@.len()),
        ensures
            final(self)@ == spec_restore(old(self)@, undo.log@),
            final(self).spec_issued() == undo.issued,
            final(self).spec_burned() == undo.burned,
    {
        self.restore(&undo.log);
        self.issued = undo.issued;
        self.burned = undo.burned;
    }
}

proof fn lemma_op_conserves(s: Seq<u64>, creator: usize, op: Operation)
    ensures
        spec_apply_op(s, creator, op) matches Ok(t) ==> spec_sum(t) == spec_sum(s) - spec_burnt(op),
{
    match op {
        Operation::Transfer { from, to, amount, fee } => {
            if amount + fee <= u64::MAX {
                if let Ok(s1) = spec_debit(s, from as int, (amount + fee) as u64) {
                    lemma_sum_update(s, from as int, (s[from as int] - (amount + fee)) as u64);
                    if let Ok(s2) = spec_credit(s1, to as int, amount) {
                        lemma_sum_update(s1, to as int, (s1[to as int] + amount) as u64);
                        if let Ok(s3) = spec_credit(s2, creator as int, fee) {
                            lemma_sum_update(s2, creator as int, (s2[creator as int] + fee) as u64);
                        }
                    }
                }
            }
        },
        Operation::Burn { from, amount } => {
            if let Ok(t) = spec_debit(s, from as int, amount) {
                lemma_sum_update(s, from as int, (s[from as int] - amount) as u64);
            }
        },
    }
}

proof fn lemma_ops_conserve(s: Seq<u64>, creator: usize, ops: Seq<Operation>)
    ensures
        spec_apply_ops(s, creator, ops) matches Ok(t) ==> spec_sum(t) == spec_sum(s) - spec_burnt_total(ops),
    decreases ops.len(),
{
    if ops.len() > 0 {
        lemma_ops_conserve(s, creator, ops.drop_last());
        if let Ok(s1) = spec_apply_ops(s, creator, ops.drop_last()) {
            lemma_op_conserves(s1, creator, ops.last());
        }
    }
}

/// Conservation: a block changes the total of the balances by exactly what it
/// issues as its creator's reward minus what it burns. Amounts and fees move
/// between accounts and change the total by nothing.
pub proof fn lemma_block_conserves(s: Seq<u64>, creator: usize, reward: u64, ops: Seq<Operation>)
    ensures
        spec_apply_block(s, creator, reward, ops) matches Ok(t)
            ==> spec_sum(t) == spec_sum(s) + reward - spec_burnt_total(ops),
{
    if let Ok(s1) = spec_credit(s, creator as int, reward) {
        lemma_sum_update(s, creator as int, (s[creator as int] + reward) as u64);
        lemma_ops_conserve(s1, creator, ops);
    }
}

/// Once an operation fails, the block fails with that error.
pub proof fn lemma_apply_ops_fails_from(s: Seq<u64>, creator: usize, ops: Seq<Operation>, n: int)
    requires
        0 <= n <= ops.len(),
        spec_apply_ops(s, creator, ops.take(n)) is Err,
    ensures
        spec_apply_ops(s, creator, ops) == spec_apply_ops(s, creator, ops.take(n)),
    decreases ops.len() - n,
{
    if n < ops.len() {
        assert(ops.take(n + 1).drop_last() =~= ops.take(n));
        lemma_apply_ops_fails_from(s, creator, ops, n + 1);
    } else {
        assert(ops.take(n) =~= ops);
    }
}

} // verus!

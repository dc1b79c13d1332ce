//! An account and its balance slots, at most one slot per bank.
//!
//! A slot holds shares, never amounts. It holds asset shares or liability
//! shares of its bank, never both, and it is emptied when both are zero.
use crate::error::AstrolendError;
use crate::fixed_point::I80F48;
use crate::pubkey::Pubkey;
use vstd::prelude::*;

verus! {

/// Number of balance slots of an account.
pub const MAX_LENDING_ACCOUNT_BALANCES: usize = 16;

/// One slot of an account: its position in one bank.
#[derive(Clone, Copy, Debug, PartialEq, Eq, Structural)]
pub struct Balance {
    /// Whether the slot is in use.
    pub active: bool,
    /// The bank that the shares belong to.
    pub bank_pk: Pubkey,
    pub asset_shares: I80F48,
    pub liability_shares: I80F48,
    /// When the slot was taken into use, in seconds.
    pub last_update: i64,
}

impl Balance {
    /// The slot that holds nothing.
    pub open spec fn spec_empty() -> Balance {
        Balance {
            active: false,
            bank_pk: Pubkey::spec_default(),
            asset_shares: I80F48 { bits: 0 },
            liability_shares: I80F48 { bits: 0 },
            last_update: 0,
        }
    }

    /// The slot that holds nothing.
    pub fn empty() -> (r: Balance)
        ensures
            r == Balance::spec_empty(),
    {
        Balance {
            active: false,
            bank_pk: Pubkey::default(),
            asset_shares: I80F48::zero(),
            liability_shares: I80F48::zero(),
            last_update: 0,
        }
    }

    /// No share count is negative, the slot does not hold asset shares and
    /// liability shares at once, and a slot that is not in use holds nothing.
    pub open spec fn wf(&self) -> bool {
        &&& self.asset_shares.bits >= 0
        &&& self.liability_shares.bits >= 0
        &&& self.asset_shares.bits == 0 || self.liability_shares.bits == 0
        &&& !self.active ==> *self == Balance::spec_empty()
    }

    /// Whether the slot is well formed.
    pub fn is_valid(&self) -> (r: bool)
        ensures
            r == self.wf(),
    {
        self.asset_shares.bits >= 0 && self.liability_shares.bits >= 0 && (self.asset_shares.bits
            == 0 || self.liability_shares.bits == 0) && (self.active || (self.bank_pk.is_default()
            && self.asset_shares.bits == 0 && self.liability_shares.bits == 0 && self.last_update
            == 0))
    }

    /// Whether the slot holds neither asset nor liability shares.
    pub open spec fn spec_is_empty(&self) -> bool {
        self.asset_shares.bits == 0 && self.liability_shares.bits == 0
    }

    /// The slot itself, or the empty slot where it holds no shares.
    pub open spec fn spec_settled(&self) -> Balance {
        if self.spec_is_empty() {
            Balance::spec_empty()
        } else {
            *self
        }
    }

    /// The slot itself, or the empty slot where it holds no shares.
    pub fn settled(&self) -> (r: Balance)
        ensures
            r == self.spec_settled(),
            self.wf() ==> r.wf(),
    {
        if self.asset_shares.bits == 0 && self.liability_shares.bits == 0 {
            Balance::empty()
        } else {
            *self
        }
    }
}

/// Whether a slot is the one looked for: the slot in use for the bank
/// `target`, or, where `target` is `None`, a slot that is not in use.
pub open spec fn slot_matches(balance: Balance, target: Option<Pubkey>) -> bool {
    match target {
        Some(bank_pk) => balance.active && balance.bank_pk == bank_pk,
        None => !balance.active,
    }
}

/// The first slot at or after `from` that is the one looked for.
pub open spec fn spec_first_slot(
    balances: Seq<Balance>,
    target: Option<Pubkey>,
    from: int,
) -> Option<int>
    decreases balances.len() - from,
{
    if from < 0 || from >= balances.len() {
        None
    } else if slot_matches(balances[from], target) {
        Some(from)
    } else {
        spec_first_slot(balances, target, from + 1)
    }
}

/// What the first matching slot is: it matches, nothing before it does, and
/// where there is none, nothing matches.
pub proof fn lemma_first_slot(balances: Seq<Balance>, target: Option<Pubkey>, from: int)
    requires
        0 <= from,
    ensures
        match spec_first_slot(balances, target, from) {
            Some(i) => from <= i < balances.len() && slot_matches(balances[i], target)
                && forall|j: int| from <= j < i ==> !slot_matches(#[trigger] balances[j], target),
            None => forall|j: int|
                from <= j < balances.len() ==> !slot_matches(#[trigger] balances[j], target),
        },
    decreases balances.len() - from,
{
    if from < balances.len() && !slot_matches(balances[from], target) {
        lemma_first_slot(balances, target, from + 1);
    }
}

/// The balance slots of an account.
#[derive(Clone, Copy, Debug, PartialEq, Eq)]
pub struct LendingAccount {
    pub balances: [Balance; 16],
}

impl LendingAccount {
    /// Every slot is well formed and no two slots in use are for one bank.
    pub open spec fn wf(&self) -> bool {
        &&& forall|i: int| 0 <= i < 16 ==> (#[trigger] self.balances[i]).wf()
        &&& forall|i: int, j: int|
            0 <= i < 16 && 0 <= j < 16 && (#[trigger] self.balances[i]).active && (
            #[trigger] self.balances[j]).active && self.balances[i].bank_pk
                == self.balances[j].bank_pk ==> i == j
    }

    /// Whether the slots are well formed.
    pub fn is_valid(&self) -> (r: bool)
        ensures
            r == self.wf(),
    {
        let mut i: usize = 0;
        while i < 16
            invariant
                i <= 16,
                forall|k: int| 0 <= k < i ==> (#[trigger] self.balances[k]).wf(),
                forall|k: int, j: int|
                    0 <= k < i && 0 <= j < 16 && (#[trigger] self.balances[k]).active && (
                    #[trigger] self.balances[j]).active && self.balances[k].bank_pk
                        == self.balances[j].bank_pk ==> k == j,
            decreases 16 - i,
        {
            let slot = self.balances[i];
            if !slot.is_valid() {
                return false;
            }
            if slot.active {
                let mut j: usize = 0;
                while j < 16
                    invariant
                        j <= 16,
                        i < 16,
                        slot == self.balances[i as int],
                        slot.active,
                        forall|m: int|
                            0 <= m < j && (#[trigger] self.balances[m]).active
                                && self.balances[m].bank_pk == slot.bank_pk ==> m == i,
                    decreases 16 - j,
                {
                    let other = self.balances[j];
                    if j != i && other.active && other.bank_pk == slot.bank_pk {
                        return false;
                    }
                    j = j + 1;
                }
            }
            i = i + 1;
        }
        true
    }

    /// Sixteen slots that hold nothing.
    pub fn new() -> (r: LendingAccount)
        ensures
            r.wf(),
            forall|i: int| 0 <= i < 16 ==> #[trigger] r.balances[i] == Balance::spec_empty(),
    {
        let e = Balance::empty();
        LendingAccount { balances: [e, e, e, e, e, e, e, e, e, e, e, e, e, e, e, e] }
    }

    /// The slot in use for the bank, if there is one.
    pub open spec fn spec_find(&self, bank_pk: Pubkey) -> Option<int> {
        spec_first_slot(self.balances@, Some(bank_pk), 0)
    }

    /// The first slot that is not in use, if there is one.
    pub open spec fn spec_first_empty(&self) -> Option<int> {
        spec_first_slot(self.balances@, None, 0)
    }

    /// The first slot that is the one looked for.
    fn first_slot(&self, target: Option<Pubkey>) -> (r: Option<usize>)
        ensures
            match spec_first_slot(self.balances@, target, 0) {
                Some(i) => r == Some(i as usize) && 0 <= i < 16,
                None => r is None,
            },
    {
        let mut i: usize = 0;
        while i < 16
            invariant
                i <= 16,
                spec_first_slot(self.balances@, target, 0) == spec_first_slot(
                    self.balances@,
                    target,
                    i as int,
                ),
            decreases 16 - i,
        {
            let slot = self.balances[i];
            let found = match target {
                Some(bank_pk) => slot.active && slot.bank_pk == bank_pk,
                None => !slot.active,
            };
            if found {
                return Some(i);
            }
            i = i + 1;
        }
        None
    }

    /// The index of the slot in use for the bank, if there is one.
    pub fn find(&self, bank_pk: Pubkey) -> (r: Option<usize>)
        ensures
            match self.spec_find(bank_pk) {
                Some(i) => r == Some(i as usize) && 0 <= i < 16,
                None => r is None,
            },
    {
        self.first_slot(Some(bank_pk))
    }

    /// The index of the first slot that is not in use, if there is one.
    pub fn get_first_empty_balance(&self) -> (r: Option<usize>)
        ensures
            match self.spec_first_empty() {
                Some(i) => r == Some(i as usize) && 0 <= i < 16,
                None => r is None,
            },
    {
        self.first_slot(None)
    }

    /// The slot that a bank's position is kept in, with the slots as they
    /// are once it is in use: the slot already in use for the bank, else the
    /// first slot not in use, taken into use at `now` with no shares.
    pub open spec fn spec_find_or_create(&self, bank_pk: Pubkey, now: i64) -> Option<
        (int, LendingAccount),
    > {
        match self.spec_find(bank_pk) {
            Some(i) => Some((i, *self)),
            None => match self.spec_first_empty() {
                Some(i) => Some(
                    (
                        i,
                        LendingAccount {
                            balances: vstd::array::spec_array_update(
                                self.balances,
                                i,
                                Balance {
                                    active: true,
                                    bank_pk,
                                    asset_shares: I80F48 { bits: 0 },
                                    liability_shares: I80F48 { bits: 0 },
                                    last_update: now,
                                },
                            ),
                        },
                    ),
                ),
                None => None,
            },
        }
    }

    /// Finds the slot of a bank's position, taking the first free slot into
    /// use where the bank has none. Where the bank has no slot and no slot is
    /// free, the call is rejected with `BalanceSlotsFull` and changes nothing.
    pub fn find_or_create(&mut self, bank_pk: Pubkey, now: i64) -> (r: Result<
        usize,
        AstrolendError,
    >)
        ensures
            match old(self).spec_find_or_create(bank_pk, now) {
                Some((i, slots)) => r == Ok::<usize, AstrolendError>(i as usize) && 0 <= i < 16
                    && *final(self) == slots,
                None => r == Err::<usize, AstrolendError>(AstrolendError::BalanceSlotsFull)
                    && *final(self) == *old(self),
            },
            r matches Ok(i) ==> final(self).balances[i as int].active
                && final(self).balances[i as int].bank_pk == bank_pk,
            old(self).wf() ==> final(self).wf(),
    {
        proof {
            lemma_first_slot(self.balances@, Some(bank_pk), 0);
            lemma_first_slot(self.balances@, None, 0);
        }
        match self.find(bank_pk) {
            Some(i) => Ok(i),
            None => match self.get_first_empty_balance() {
                Some(i) => {
                    self.balances[i] = Balance {
                        active: true,
                        bank_pk,
                        asset_shares: I80F48::zero(),
                        liability_shares: I80F48::zero(),
                        last_update: now,
                    };
                    proof {
                        let expected = old(self).spec_find_or_create(bank_pk, now).unwrap();
                        let (_, slots) = expected;
                        assert(self.balances =~= slots.balances);
                    }
                    Ok(i)
                },
                None => Err(AstrolendError::BalanceSlotsFull),
            },
        }
    }
}

/// An account: who owns it, the group it belongs to, and its positions.
#[derive(Clone, Copy, Debug, PartialEq, Eq)]
pub struct AstrolendAccount {
    pub group: Pubkey,
    pub authority: Pubkey,
    pub lending_account: LendingAccount,
    /// A disabled account may deposit and repay, not borrow or withdraw.
    pub disabled: bool,
}

impl AstrolendAccount {
    /// The positions are well formed.
    pub open spec fn wf(&self) -> bool {
        self.lending_account.wf()
    }

    /// Whether the account is well formed.
    pub fn is_valid(&self) -> (r: bool)
        ensures
            r == self.wf(),
    {
        self.lending_account.is_valid()
    }

    /// An account without positions.
    pub fn new(group: Pubkey, authority: Pubkey) -> (r: AstrolendAccount)
        ensures
            r.wf(),
            r.group == group,
            r.authority == authority,
            !r.disabled,
            forall|i: int|
                0 <= i < 16 ==> #[trigger] r.lending_account.balances[i] == Balance::spec_empty(),
    {
        AstrolendAccount {
            group,
            authority,
            lending_account: LendingAccount::new(),
            disabled: false,
        }
    }
}

} // verus!

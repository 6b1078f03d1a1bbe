//! The external ledger, modeled as a key-value store of account slots keyed
//! by address, together with the reward token's balances.  It is handed to
//! every request as a capability rather than reached as ambient state.  The
//! store is an association list whose mathematical image is a pair of `Map`s.

use vstd::prelude::*;

use crate::errors::MintError;

verus! {

/// What one ledger slot holds: its native balance (the collateral paying for
/// its storage) and its raw stored bytes.
pub struct AccountSlot {
    pub lamports: u64,
    pub data: Vec<u8>,
}

/// The mathematical image of one slot.
#[verifier::ext_equal]
pub struct SlotSnap {
    pub lamports: u64,
    pub data: Seq<u8>,
}

impl View for AccountSlot {
    type V = SlotSnap;

    open spec fn view(&self) -> SlotSnap {
        SlotSnap { lamports: self.lamports, data: self.data@ }
    }
}

/// The mathematical image of the whole ledger.
#[verifier::ext_equal]
pub struct LedgerSnap {
    /// Account slots by address.
    pub slots: Map<u64, SlotSnap>,
    /// Reward-token balance of each token account.
    pub tokens: Map<u64, u64>,
}

/// The ledger itself.
pub struct Ledger {
    slots: Vec<(u64, AccountSlot)>,
    tokens: Vec<(u64, u64)>,
}

/// First-match lookup in an association list.
pub open spec fn assoc_find<V>(s: Seq<(u64, V)>, key: u64) -> Option<V>
    decreases s.len(),
{
    if s.len() == 0 {
        None
    } else if s[0].0 == key {
        Some(s[0].1)
    } else {
        assoc_find(s.subrange(1, s.len() as int), key)
    }
}

impl View for Ledger {
    type V = LedgerSnap;

    closed spec fn view(&self) -> LedgerSnap {
        LedgerSnap {
            slots: Map::new(
                |a: u64| assoc_find(self.slots@, a) is Some,
                |a: u64| assoc_find(self.slots@, a)->Some_0@,
            ),
            tokens: Map::new(
                |a: u64| assoc_find(self.tokens@, a) is Some,
                |a: u64| assoc_find(self.tokens@, a)->Some_0,
            ),
        }
    }
}

/// Native balance at an address; an absent slot holds nothing.
pub open spec fn spec_lamports(l: LedgerSnap, addr: u64) -> u64 {
    if l.slots.contains_key(addr) {
        l.slots[addr].lamports
    } else {
        0
    }
}

/// Stored bytes at an address; an absent slot holds none.
pub open spec fn spec_data(l: LedgerSnap, addr: u64) -> Seq<u8> {
    if l.slots.contains_key(addr) {
        l.slots[addr].data
    } else {
        Seq::empty()
    }
}

/// Reward-token balance of a token account; absent means zero.
pub open spec fn spec_token_balance(l: LedgerSnap, addr: u64) -> u64 {
    if l.tokens.contains_key(addr) {
        l.tokens[addr]
    } else {
        0
    }
}

/// The ledger after the native balance at `addr` is set to `total`, keeping
/// the slot's bytes (an absent slot appears with empty bytes).
pub open spec fn spec_with_lamports(l: LedgerSnap, addr: u64, total: u64) -> LedgerSnap {
    LedgerSnap {
        slots: l.slots.insert(addr, SlotSnap { lamports: total, data: spec_data(l, addr) }),
        tokens: l.tokens,
    }
}

/// External re-funding of an address: anyone may deposit collateral into any
/// slot; only a sum that would wrap is rejected.
pub open spec fn spec_fund(l: LedgerSnap, addr: u64, amount: u64) -> Result<LedgerSnap, MintError> {
    if spec_lamports(l, addr) + amount > u64::MAX {
        Err(MintError::Overflow)
    } else {
        Ok(spec_with_lamports(l, addr, (spec_lamports(l, addr) + amount) as u64))
    }
}

proof fn lemma_find_at<V>(s: Seq<(u64, V)>, key: u64, i: int)
    requires
        0 <= i < s.len(),
        s[i].0 == key,
        forall|j: int| 0 <= j < i ==> s[j].0 != key,
    ensures
        assoc_find(s, key) == Some(s[i].1),
    decreases i,
{
    if i > 0 {
        lemma_find_at(s.subrange(1, s.len() as int), key, i - 1);
    }
}

proof fn lemma_find_none<V>(s: Seq<(u64, V)>, key: u64)
    requires
        forall|j: int| 0 <= j < s.len() ==> s[j].0 != key,
    ensures
        assoc_find(s, key) is None,
    decreases s.len(),
{
    if s.len() > 0 {
        lemma_find_none(s.subrange(1, s.len() as int), key);
    }
}

proof fn lemma_find_update<V>(s: Seq<(u64, V)>, i: int, v: V, key2: u64)
    requires
        0 <= i < s.len(),
        forall|j: int| 0 <= j < i ==> s[j].0 != s[i].0,
    ensures
        assoc_find(s.update(i, (s[i].0, v)), key2) == (if key2 == s[i].0 {
            Some(v)
        } else {
            assoc_find(s, key2)
        }),
    decreases i,
{
    let key = s[i].0;
    let t = s.update(i, (key, v));
    if i == 0 {
        if key2 != key {
            assert(t.subrange(1, t.len() as int) =~= s.subrange(1, s.len() as int));
        }
    } else {
        if key2 != s[0].0 {
            assert(t.subrange(1, t.len() as int) =~= s.subrange(1, s.len() as int).update(
                i - 1,
                (key, v),
            ));
            lemma_find_update(s.subrange(1, s.len() as int), i - 1, v, key2);
        }
    }
}

proof fn lemma_find_push<V>(s: Seq<(u64, V)>, key: u64, v: V, key2: u64)
    requires
        assoc_find(s, key) is None,
    ensures
        assoc_find(s.push((key, v)), key2) == (if key2 == key {
            Some(v)
        } else {
            assoc_find(s, key2)
        }),
    decreases s.len(),
{
    let t = s.push((key, v));
    if s.len() == 0 {
        assert(t.subrange(1, t.len() as int) =~= Seq::<(u64, V)>::empty());
    } else {
        if key2 != s[0].0 {
            assert(t.subrange(1, t.len() as int) =~= s.subrange(1, s.len() as int).push(
                (key, v),
            ));
            lemma_find_push(s.subrange(1, s.len() as int), key, v, key2);
        }
    }
}

/// Linear scan for the first entry with the given key.
fn find_index<V>(v: &Vec<(u64, V)>, key: u64) -> (r: Option<usize>)
    ensures
        match r {
            Some(i) => i < v@.len() && v@[i as int].0 == key && (forall|j: int|
                0 <= j < i ==> v@[j].0 != key) && assoc_find(v@, key) == Some(v@[i as int].1),
            None => assoc_find(v@, key) is None,
        },
{
    let mut i: usize = 0;
    while i < v.len()
        invariant
            0 <= i <= v@.len(),
            forall|j: int| 0 <= j < i ==> v@[j].0 != key,
        decreases v@.len() - i,
    {
        if v[i].0 == key {
            proof {
                lemma_find_at(v@, key, i as int);
            }
            return Some(i);
        }
        i += 1;
    }
    proof {
        lemma_find_none(v@, key);
    }
    None
}

impl Ledger {
    /// An empty ledger.
    pub fn new() -> (r: Ledger)
        ensures
            r@.slots =~= Map::<u64, SlotSnap>::empty(),
            r@.tokens =~= Map::<u64, u64>::empty(),
    {
        Ledger { slots: Vec::new(), tokens: Vec::new() }
    }

    /// Read the slot at an address.
    pub fn get_slot(&self, addr: u64) -> (r: Option<&AccountSlot>)
        ensures
            match r {
                Some(s) => self@.slots.contains_key(addr) && self@.slots[addr] == s@,
                None => !self@.slots.contains_key(addr),
            },
    {
        match find_index(&self.slots, addr) {
            Some(i) => Some(&self.slots[i].1),
            None => None,
        }
    }

    /// Native balance at an address (zero when the slot is absent).
    pub fn lamports_of(&self, addr: u64) -> (r: u64)
        ensures
            r == spec_lamports(self@, addr),
    {
        match self.get_slot(addr) {
            Some(s) => s.lamports,
            None => 0,
        }
    }

    /// Write the slot at an address, creating it if absent.
    pub fn set_slot(&mut self, addr: u64, slot: AccountSlot)
        ensures
            final(self)@.slots =~= old(self)@.slots.insert(addr, slot@),
            final(self)@.tokens =~= old(self)@.tokens,
    {
        let ghost s0 = self.slots@;
        let ghost snap = slot@;
        match find_index(&self.slots, addr) {
            Some(i) => {
                self.slots[i] = (addr, slot);
                proof {
                    assert(self.slots@ =~= s0.update(i as int, (addr, s0[i as int].1)).update(
                        i as int,
                        self.slots@[i as int],
                    ));
                    assert(self.slots@ =~= s0.update(i as int, self.slots@[i as int]));
                    assert forall|k: u64|
                        #[trigger] assoc_find(self.slots@, k) == (if k == addr {
                            Some(self.slots@[i as int].1)
                        } else {
                            assoc_find(s0, k)
                        }) by {
                        lemma_find_update(s0, i as int, self.slots@[i as int].1, k);
                    }
                    assert(self.slots@[i as int].1@ == snap);
                }
            },
            None => {
                self.slots.push((addr, slot));
                proof {
                    assert forall|k: u64|
                        #[trigger] assoc_find(self.slots@, k) == (if k == addr {
                            Some(self.slots@[s0.len() as int].1)
                        } else {
                            assoc_find(s0, k)
                        }) by {
                        lemma_find_push(s0, addr, self.slots@[s0.len() as int].1, k);
                        assert(self.slots@ == s0.push(self.slots@[s0.len() as int]));
                    }
                    assert(self.slots@[s0.len() as int].1@ == snap);
                }
            },
        }
    }

    /// Set the native balance at an address, keeping its bytes (an absent
    /// slot is created with empty bytes).
    pub fn set_lamports(&mut self, addr: u64, total: u64)
        ensures
            final(self)@ =~= spec_with_lamports(old(self)@, addr, total),
    {
        let data = match self.get_slot(addr) {
            Some(s) => s.data.clone(),
            None => Vec::new(),
        };
        proof {
            assert(data@ =~= spec_data(self@, addr));
        }
        self.set_slot(addr, AccountSlot { lamports: total, data });
    }

    /// Deposit collateral into any slot; anyone may do this to any address.
    pub fn fund(&mut self, addr: u64, amount: u64) -> (r: Result<(), MintError>)
        ensures
            match r {
                Ok(()) => spec_fund(old(self)@, addr, amount) == Ok::<LedgerSnap, MintError>(
                    final(self)@,
                ),
                Err(e) => spec_fund(old(self)@, addr, amount) == Err::<LedgerSnap, MintError>(e)
                    && final(self)@ == old(self)@,
            },
    {
        let cur = self.lamports_of(addr);
        if amount > u64::MAX - cur {
            return Err(MintError::Overflow);
        }
        self.set_lamports(addr, cur + amount);
        Ok(())
    }

    /// Install raw bytes and a balance at an address.  This models what any
    /// external party may freely do on the ledger: create an account anywhere
    /// with bytes of its choosing.
    pub fn set_account(&mut self, addr: u64, lamports: u64, data: Vec<u8>)
        ensures
            final(self)@.slots =~= old(self)@.slots.insert(
                addr,
                SlotSnap { lamports, data: data@ },
            ),
            final(self)@.tokens =~= old(self)@.tokens,
    {
        self.set_slot(addr, AccountSlot { lamports, data });
    }

    /// Reward-token balance of a token account (zero when absent).
    pub fn token_balance(&self, addr: u64) -> (r: u64)
        ensures
            r == spec_token_balance(self@, addr),
    {
        match find_index(&self.tokens, addr) {
            Some(i) => self.tokens[i].1,
            None => 0,
        }
    }

    /// Set the reward-token balance of a token account.
    pub fn set_token_balance(&mut self, addr: u64, amount: u64)
        ensures
            final(self)@.tokens =~= old(self)@.tokens.insert(addr, amount),
            final(self)@.slots =~= old(self)@.slots,
    {
        let ghost s0 = self.tokens@;
        match find_index(&self.tokens, addr) {
            Some(i) => {
                self.tokens[i] = (addr, amount);
                proof {
                    assert(self.tokens@ =~= s0.update(i as int, self.tokens@[i as int]));
                    assert forall|k: u64|
                        #[trigger] assoc_find(self.tokens@, k) == (if k == addr {
                            Some(amount)
                        } else {
                            assoc_find(s0, k)
                        }) by {
                        lemma_find_update(s0, i as int, amount, k);
                    }
                }
            },
            None => {
                self.tokens.push((addr, amount));
                proof {
                    assert forall|k: u64|
                        #[trigger] assoc_find(self.tokens@, k) == (if k == addr {
                            Some(amount)
                        } else {
                            assoc_find(s0, k)
                        }) by {
                        lemma_find_push(s0, addr, amount, k);
                        assert(self.tokens@ == s0.push((addr, amount)));
                    }
                }
            },
        }
    }
}

} // verus!

//! A test runtime: its configuration, a builder of its initial state, and a
//! message channel that accepts everything.

use vstd::prelude::*;

use crate::account::ParaId;
use crate::ledger::Ledger;
use crate::upward_messages::UpwardMessage;
use crate::{AccountId, AssetId, Balance, Module, XCMPMessage};

verus! {

/// The test runtime's configuration.
#[derive(Clone, Copy, Debug, PartialEq, Eq)]
pub struct Test;

impl Test {
    /// The least free balance of the native currency that an account keeps.
    pub fn existential_deposit() -> (r: Balance)
        ensures
            r == 100,
    {
        100
    }
}

/// The free balance that `who` gets from the list `ab`: its last entry for
/// `who`, nothing when there is none.
pub open spec fn genesis_balance(ab: Seq<(AccountId, Balance)>, who: Seq<u8>) -> nat
    decreases ab.len(),
{
    if ab.len() == 0 {
        0
    } else if ab.last().0@ == who {
        ab.last().1 as nat
    } else {
        genesis_balance(ab.drop_last(), who)
    }
}

/// The sum of the balances listed in `ab`.
pub open spec fn listed_total(ab: Seq<(AccountId, Balance)>) -> nat
    decreases ab.len(),
{
    if ab.len() == 0 {
        0
    } else {
        ab.last().1 as nat + listed_total(ab.drop_last())
    }
}

/// No account is listed twice in `ab`.
pub open spec fn accounts_distinct(ab: Seq<(AccountId, Balance)>) -> bool {
    forall|i: int, j: int| 0 <= i < j < ab.len() ==> (#[trigger] ab[i]).0@ != (#[trigger] ab[j]).0@
}

proof fn lemma_genesis_balance_unlisted(ab: Seq<(AccountId, Balance)>, who: Seq<u8>)
    requires
        forall|k: int| 0 <= k < ab.len() ==> (#[trigger] ab[k]).0@ != who,
    ensures
        genesis_balance(ab, who) == 0,
    decreases ab.len(),
{
    if ab.len() > 0 {
        let t = ab.drop_last();
        assert(ab[ab.len() - 1].0@ != who);
        assert forall|k: int| 0 <= k < t.len() implies (#[trigger] t[k]).0@ != who by {
            assert(t[k] == ab[k]);
        }
        lemma_genesis_balance_unlisted(t, who);
    }
}

/// Builds the test runtime's initial state.
pub struct ExtBuilder {
    pub account_balances: Vec<(AccountId, Balance)>,
}

impl Default for ExtBuilder {
    fn default() -> (r: Self)
        ensures
            r.account_balances@.len() == 0,
    {
        ExtBuilder { account_balances: Vec::new() }
    }
}

impl ExtBuilder {
    /// Sets the free native-currency balances that the state starts with.
    pub fn free_balance(self, ab: Vec<(AccountId, Balance)>) -> (r: Self)
        ensures
            r.account_balances@ == ab@,
    {
        ExtBuilder { account_balances: ab, ..self }
    }

    /// An engine whose ledger has the existential deposit of `Test`, the
    /// configured free balances, no assets, no events and no messages.
    pub fn build(self) -> (r: Module)
        ensures
            r.wf(),
            r.ledger.ed() == 100,
            r.ledger.next_id() == 0,
            forall|w: Seq<u8>| #[trigger]
                r.ledger.balance(None, w) == genesis_balance(self.account_balances@, w),
            forall|id: AssetId, w: Seq<u8>| #[trigger] r.ledger.balance(Some(id), w) == 0,
            accounts_distinct(self.account_balances@) ==> r.ledger.supply(None) == listed_total(
                self.account_balances@,
            ),
            r.events@.len() == 0,
            r.upward_messages@.len() == 0,
            r.xcmp_messages@.len() == 0,
    {
        let ab = &self.account_balances;
        let mut ledger = Ledger::new(Test::existential_deposit());
        let mut i: usize = 0;
        while i < ab.len()
            invariant
                0 <= i <= ab@.len(),
                ledger.wf(),
                ledger.ed() == 100,
                ledger.next_id() == 0,
                forall|w: Seq<u8>| #[trigger]
                    ledger.balance(None, w) == genesis_balance(ab@.subrange(0, i as int), w),
                forall|id: AssetId, w: Seq<u8>| #[trigger] ledger.balance(Some(id), w) == 0,
                accounts_distinct(ab@) ==> ledger.supply(None) == listed_total(
                    ab@.subrange(0, i as int),
                ),
            decreases ab@.len() - i,
        {
            let (who, amount) = ab[i];
            proof {
                let pre = ab@.subrange(0, i as int);
                if accounts_distinct(ab@) {
                    assert forall|k: int| 0 <= k < pre.len() implies (#[trigger] pre[k]).0@
                        != who@ by {
                        assert(pre[k] == ab@[k]);
                        assert(ab@[k].0@ != ab@[i as int].0@);
                    }
                    lemma_genesis_balance_unlisted(pre, who@);
                }
            }
            ledger.set_free_balance(&who, amount);
            proof {
                let pre = ab@.subrange(0, i as int);
                let post = ab@.subrange(0, i + 1);
                assert(post.drop_last() =~= pre);
                assert(listed_total(post) == amount + listed_total(pre));
                assert forall|w: Seq<u8>| #[trigger]
                    ledger.balance(None, w) == genesis_balance(post, w) by {
                    assert(genesis_balance(post, w) == if post.last().0@ == w {
                        post.last().1 as nat
                    } else {
                        genesis_balance(pre, w)
                    });
                }
            }
            i = i + 1;
        }
        assert(ab@.subrange(0, ab@.len() as int) =~= ab@);
        Module::new(ledger)
    }
}

/// A message channel that accepts every message and keeps it.
pub struct MessageBrokerMock {
    pub upward: Vec<UpwardMessage>,
    pub xcmp: Vec<(ParaId, XCMPMessage)>,
}

impl MessageBrokerMock {
    pub fn new() -> (r: MessageBrokerMock)
        ensures
            r.upward@.len() == 0,
            r.xcmp@.len() == 0,
    {
        MessageBrokerMock { upward: Vec::new(), xcmp: Vec::new() }
    }

    /// Takes every message that `m` queued, in order; nothing else of `m`
    /// changes.
    pub fn deliver(&mut self, m: &mut Module)
        ensures
            final(self).upward@ == old(self).upward@ + old(m).upward_messages@,
            final(self).xcmp@ == old(self).xcmp@ + old(m).xcmp_messages@,
            final(m).upward_messages@.len() == 0,
            final(m).xcmp_messages@.len() == 0,
            final(m).ledger == old(m).ledger,
            final(m).events == old(m).events,
    {
        self.upward.append(&mut m.upward_messages);
        self.xcmp.append(&mut m.xcmp_messages);
    }
}

} // verus!

//! Settlement of token transfers between a parachain's local ledger, its
//! relay chain and sibling parachains.
//!
//! An outbound transfer moves the amount from the sender to the custodial
//! account of the destination domain, then queues a message asking that
//! domain to pay the receiver. An inbound message pays from the custodial
//! account of the domain that sent it and always publishes its outcome as an
//! event. The ledger debit happens before the message is handed to its
//! channel, and nothing here undoes it if the channel later loses the
//! message: a queued message stays queued until it is taken.

use vstd::prelude::*;

pub mod account;
pub mod ledger;
pub mod mock;
pub mod remark;
pub mod upward_messages;

use crate::account::{ParaId, RelayAccount, para_account_bytes, relay_account_bytes};
use crate::ledger::Ledger;
use crate::remark::{decode_remark, remark_asset};
use crate::upward_messages::UpwardMessage;

verus! {

/// A ledger account: 32 opaque bytes.
pub type AccountId = [u8; 32];

/// Amounts of the native currency and of every fungible asset.
pub type Balance = u128;

/// Identifier of a fungible asset; `None` in an `Option<AssetId>` stands for
/// the native currency.
pub type AssetId = u32;

/// Why a transfer did not happen.
#[derive(Clone, Copy, Debug, PartialEq, Eq, Structural)]
pub enum TransferError {
    /// The call did not come from a signed account.
    BadOrigin,
    /// The source holds less than the amount.
    InsufficientBalance,
    /// The native-currency source would fall below the existential deposit.
    WouldKillAccount,
    /// No such fungible asset was ever issued.
    UnknownAsset,
    /// A balance or an identifier would leave its representable range.
    Overflow,
    /// A remark that encodes no optional asset identifier.
    MalformedRemark,
}

/// A transfer to the relay chain that the source covers, and that keeps a
/// native-currency source at or above the existential deposit, settles: the
/// source loses `amount`, the relay chain's custodial account gains it, and
/// the supply of every asset stays as it was.
pub proof fn lemma_covered_transfer_to_relay_settles(
    l: Ledger,
    asset: Option<AssetId>,
    from: Seq<u8>,
    amount: nat,
    settled: Ledger,
)
    requires
        l.wf(),
        l.known(asset),
        from != relay_account_bytes(),
        amount <= l.balance(asset, from),
        asset is None ==> l.balance(None, from) - amount >= l.ed(),
        asset is None ==> l.balance(None, relay_account_bytes()) + amount <= u128::MAX,
        l.transferred(settled, asset, from, relay_account_bytes(), amount),
    ensures
        l.transfer_outcome(asset, from, relay_account_bytes(), amount) == Ok::<(), TransferError>(()),
        settled.balance(asset, from) == l.balance(asset, from) - amount,
        settled.balance(asset, relay_account_bytes()) == l.balance(asset, relay_account_bytes())
            + amount,
        forall|a: Option<AssetId>| #[trigger] settled.supply(a) == l.supply(a),
{
}

/// Who makes a call.
#[derive(Clone, Copy, Debug, PartialEq, Eq)]
pub enum Origin {
    /// The chain itself.
    Root,
    /// An account whose signature was checked.
    Signed(AccountId),
    /// Nobody in particular.
    Unsigned,
}

impl Origin {
    pub fn signed(who: AccountId) -> (r: Origin)
        ensures
            r == Origin::Signed(who),
    {
        Origin::Signed(who)
    }
}

/// The account that signed a call, or `BadOrigin`.
pub fn ensure_signed(origin: &Origin) -> (r: Result<AccountId, TransferError>)
    ensures
        match *origin {
            Origin::Signed(who) => r == Ok::<AccountId, TransferError>(who),
            _ => r == Err::<AccountId, TransferError>(TransferError::BadOrigin),
        },
{
    match origin {
        Origin::Signed(who) => Ok(*who),
        _ => Err(TransferError::BadOrigin),
    }
}

/// A message between parachains.
#[derive(Clone, Copy, Debug, PartialEq, Eq)]
pub enum XCMPMessage {
    /// Pay `amount` of the asset (`None`: the native currency) from the
    /// sender's custodial account to the given account.
    TransferToken(AccountId, Balance, Option<AssetId>),
}

/// A message from the relay chain.
#[derive(Clone, Debug, PartialEq, Eq)]
pub enum DownwardMessage {
    /// Pay `amount` from the relay chain's custodial account to the given
    /// account; the remark carries the asset (all zeroes: the native currency).
    TransferInto(AccountId, Balance, [u8; 32]),
    /// Anything else; it is ignored.
    Opaque(Vec<u8>),
}

/// What a settlement published.
#[derive(Clone, Copy, Debug, PartialEq, Eq)]
pub enum Event {
    /// (sender, local asset, receiver on the relay chain, amount)
    TransferredTokensToRelayChain(AccountId, Option<AssetId>, AccountId, Balance),
    /// (sender, local asset, destination parachain, receiver there, asset
    /// there, amount)
    TransferredTokensToParachain(
        AccountId,
        Option<AssetId>,
        ParaId,
        AccountId,
        Option<AssetId>,
        Balance,
    ),
    /// (receiver, amount, asset, outcome) of a relay chain's request
    TransferredTokensFromRelayChain(AccountId, Balance, Option<AssetId>, Result<(), TransferError>),
    /// (sending parachain, receiver, amount, asset, outcome) of a
    /// parachain's request
    TransferredTokensViaXCMP(ParaId, AccountId, Balance, Option<AssetId>, Result<(), TransferError>),
}

/// The settlement engine: the ledger, the events published so far, and the
/// outbound messages that wait for their channel.
pub struct Module {
    pub ledger: Ledger,
    pub events: Vec<Event>,
    pub upward_messages: Vec<UpwardMessage>,
    pub xcmp_messages: Vec<(ParaId, XCMPMessage)>,
}

impl Module {
    pub open spec fn wf(&self) -> bool {
        self.ledger.wf()
    }

    /// An engine over `ledger`, with no events and no messages.
    pub fn new(ledger: Ledger) -> (r: Module)
        ensures
            r.ledger == ledger,
            r.events@.len() == 0,
            r.upward_messages@.len() == 0,
            r.xcmp_messages@.len() == 0,
    {
        Module {
            ledger,
            events: Vec::new(),
            upward_messages: Vec::new(),
            xcmp_messages: Vec::new(),
        }
    }

    /// Moves `amount` of `asset_id` from `from` to the relay chain's custodial
    /// account, then queues a message asking the relay chain to pay `amount`
    /// to `dest`. On an error nothing changes and nothing is queued.
    pub fn make_transfer_to_relay_chain(
        &mut self,
        asset_id: &Option<AssetId>,
        from: &AccountId,
        dest: &AccountId,
        amount: Balance,
    ) -> (r: Result<(), TransferError>)
        requires
            old(self).wf(),
        ensures
            r == old(self).ledger.transfer_outcome(
                *asset_id,
                from@,
                relay_account_bytes(),
                amount as nat,
            ),
            r is Ok ==> {
                &&& old(self).ledger.transferred(
                    final(self).ledger,
                    *asset_id,
                    from@,
                    relay_account_bytes(),
                    amount as nat,
                )
                &&& final(self).upward_messages@ == old(self).upward_messages@.push(
                    (UpwardMessage { dest: *dest, amount }),
                )
                &&& final(self).events == old(self).events
                &&& final(self).xcmp_messages == old(self).xcmp_messages
            },
            r is Err ==> *final(self) == *old(self),
    {
        let relay_account = RelayAccount::default().into_account();
        self.ledger.transfer(*asset_id, from, &relay_account, amount)?;
        let msg = UpwardMessage::transfer(*dest, amount);
        self.upward_messages.push(msg);
        Ok(())
    }

    /// Moves `amount` of `asset_id` from `from` to the custodial account of
    /// `para_id`, then queues a message asking that parachain to pay `amount`
    /// of `dest_asset_id` (an identifier of its own) to `dest`. On an error
    /// nothing changes and nothing is queued.
    pub fn make_transfer_to_parachain(
        &mut self,
        from: &AccountId,
        asset_id: &Option<AssetId>,
        para_id: ParaId,
        dest: &AccountId,
        dest_asset_id: &Option<AssetId>,
        amount: Balance,
    ) -> (r: Result<(), TransferError>)
        requires
            old(self).wf(),
        ensures
            r == old(self).ledger.transfer_outcome(
                *asset_id,
                from@,
                para_account_bytes(para_id.0),
                amount as nat,
            ),
            r is Ok ==> {
                &&& old(self).ledger.transferred(
                    final(self).ledger,
                    *asset_id,
                    from@,
                    para_account_bytes(para_id.0),
                    amount as nat,
                )
                &&& final(self).xcmp_messages@ == old(self).xcmp_messages@.push(
                    (para_id, XCMPMessage::TransferToken(*dest, amount, *dest_asset_id)),
                )
                &&& final(self).events == old(self).events
                &&& final(self).upward_messages == old(self).upward_messages
            },
            r is Err ==> *final(self) == *old(self),
    {
        let para_account = para_id.into_account();
        self.ledger.transfer(*asset_id, from, &para_account, amount)?;
        self.xcmp_messages.push((para_id, XCMPMessage::TransferToken(*dest, amount, *dest_asset_id)));
        Ok(())
    }
    /// Signed call: `make_transfer_to_relay_chain` from the signer, and on
    /// success one `TransferredTokensToRelayChain` event.
    pub fn transfer_tokens_to_relay_chain(
        &mut self,
        origin: Origin,
        dest: AccountId,
        amount: Balance,
        asset_id: Option<AssetId>,
    ) -> (r: Result<(), TransferError>)
        requires
            old(self).wf(),
        ensures
            match origin {
                Origin::Signed(who) => {
                    &&& r == old(self).ledger.transfer_outcome(
                        asset_id,
                        who@,
                        relay_account_bytes(),
                        amount as nat,
                    )
                    &&& r is Ok ==> {
                        &&& old(self).ledger.transferred(
                            final(self).ledger,
                            asset_id,
                            who@,
                            relay_account_bytes(),
                            amount as nat,
                        )
                        &&& final(self).upward_messages@ == old(self).upward_messages@.push(
                            (UpwardMessage { dest, amount }),
                        )
                        &&& final(self).events@ == old(self).events@.push(
                            Event::TransferredTokensToRelayChain(who, asset_id, dest, amount),
                        )
                        &&& final(self).xcmp_messages == old(self).xcmp_messages
                    }
                },
                _ => r == Err::<(), TransferError>(TransferError::BadOrigin),
            },
            r is Err ==> *final(self) == *old(self),
    {
        let who = ensure_signed(&origin)?;
        self.make_transfer_to_relay_chain(&asset_id, &who, &dest, amount)?;
        self.events.push(Event::TransferredTokensToRelayChain(who, asset_id, dest, amount));
        Ok(())
    }

    /// Signed call: `make_transfer_to_parachain` from the signer, with the
    /// same asset identifier on both chains, and on success one
    /// `TransferredTokensToParachain` event.
    pub fn transfer_assets_to_parachain_chain(
        &mut self,
        origin: Origin,
        para_id: u32,
        dest: AccountId,
        amount: Balance,
        asset_id: Option<AssetId>,
    ) -> (r: Result<(), TransferError>)
        requires
            old(self).wf(),
        ensures
            match origin {
                Origin::Signed(who) => {
                    &&& r == old(self).ledger.transfer_outcome(
                        asset_id,
                        who@,
                        para_account_bytes(para_id),
                        amount as nat,
                    )
                    &&& r is Ok ==> {
                        &&& old(self).ledger.transferred(
                            final(self).ledger,
                            asset_id,
                            who@,
                            para_account_bytes(para_id),
                            amount as nat,
                        )
                        &&& final(self).xcmp_messages@ == old(self).xcmp_messages@.push(
                            (ParaId(para_id), XCMPMessage::TransferToken(dest, amount, asset_id)),
                        )
                        &&& final(self).events@ == old(self).events@.push(
                            Event::TransferredTokensToParachain(
                                who,
                                asset_id,
                                ParaId(para_id),
                                dest,
                                asset_id,
                                amount,
                            ),
                        )
                        &&& final(self).upward_messages == old(self).upward_messages
                    }
                },
                _ => r == Err::<(), TransferError>(TransferError::BadOrigin),
            },
            r is Err ==> *final(self) == *old(self),
    {
        let who = ensure_signed(&origin)?;
        let para = ParaId::from(para_id);
        self.make_transfer_to_parachain(&who, &asset_id, para, &dest, &asset_id, amount)?;
        self.events.push(
            Event::TransferredTokensToParachain(who, asset_id, para, dest, asset_id, amount),
        );
        Ok(())
    }

    /// Settles a message of the relay chain. A `TransferInto` pays from the
    /// relay chain's custodial account to its receiver, in the asset that its
    /// remark carries, and always publishes one event with the outcome; a
    /// malformed remark moves nothing and is reported as `MalformedRemark`.
    /// Other messages are ignored.
    pub fn handle_downward_message(&mut self, msg: &DownwardMessage)
        requires
            old(self).wf(),
        ensures
            final(self).wf(),
            final(self).upward_messages == old(self).upward_messages,
            final(self).xcmp_messages == old(self).xcmp_messages,
            match *msg {
                DownwardMessage::TransferInto(dest, amount, remark) => match remark_asset(
                    remark@,
                ) {
                    None => {
                        &&& final(self).ledger == old(self).ledger
                        &&& final(self).events@ == old(self).events@.push(
                            Event::TransferredTokensFromRelayChain(
                                dest,
                                amount,
                                None,
                                Err(TransferError::MalformedRemark),
                            ),
                        )
                    },
                    Some(asset) => {
                        let res = old(self).ledger.transfer_outcome(
                            asset,
                            relay_account_bytes(),
                            dest@,
                            amount as nat,
                        );
                        &&& final(self).events@ == old(self).events@.push(
                            Event::TransferredTokensFromRelayChain(dest, amount, asset, res),
                        )
                        &&& res is Ok ==> old(self).ledger.transferred(
                            final(self).ledger,
                            asset,
                            relay_account_bytes(),
                            dest@,
                            amount as nat,
                        )
                        &&& res is Err ==> final(self).ledger == old(self).ledger
                    },
                },
                _ => *final(self) == *old(self),
            },
    {
        match msg {
            DownwardMessage::TransferInto(dest, amount, remark) => {
                let relay_account = RelayAccount::default().into_account();
                match decode_remark(remark) {
                    Ok(asset) => {
                        let res = self.ledger.transfer(asset, &relay_account, dest, *amount);
                        self.events.push(
                            Event::TransferredTokensFromRelayChain(*dest, *amount, asset, res),
                        );
                    },
                    Err(e) => {
                        self.events.push(
                            Event::TransferredTokensFromRelayChain(*dest, *amount, None, Err(e)),
                        );
                    },
                }
            },
            _ => {},
        }
    }

    /// Settles a message of the parachain `src`: pays from its custodial
    /// account to the receiver, and always publishes one event with the
    /// outcome.
    pub fn handle_xcmp_message(&mut self, src: ParaId, msg: &XCMPMessage)
        requires
            old(self).wf(),
        ensures
            final(self).wf(),
            final(self).upward_messages == old(self).upward_messages,
            final(self).xcmp_messages == old(self).xcmp_messages,
            match *msg {
                XCMPMessage::TransferToken(dest, amount, asset) => {
                    let res = old(self).ledger.transfer_outcome(
                        asset,
                        para_account_bytes(src.0),
                        dest@,
                        amount as nat,
                    );
                    &&& final(self).events@ == old(self).events@.push(
                        Event::TransferredTokensViaXCMP(src, dest, amount, asset, res),
                    )
                    &&& res is Ok ==> old(self).ledger.transferred(
                        final(self).ledger,
                        asset,
                        para_account_bytes(src.0),
                        dest@,
                        amount as nat,
                    )
                    &&& res is Err ==> final(self).ledger == old(self).ledger
                },
            },
    {
        match msg {
            XCMPMessage::TransferToken(dest, amount, asset) => {
                let para_account = src.into_account();
                let res = self.ledger.transfer(*asset, &para_account, dest, *amount);
                self.events.push(Event::TransferredTokensViaXCMP(src, *dest, *amount, *asset, res));
            },
        }
    }
}

} // verus!

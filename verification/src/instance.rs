//! One auction instance: its configuration and its two ledgers.

use vstd::prelude::*;
use crate::block::BlockTypeView;
use crate::block::CBCABlock;
use crate::block::CBCABlockType;
use crate::fchain::chain_after_push;
use crate::fchain::last_hash;
use crate::fchain::CBCAChain;
use crate::fchain::CBCAConfig;
use crate::manager::CBCAPersistenceError;
use crate::payload::MPayload;
use crate::payload::MPayloadView;
use crate::payload::OPayload;
use crate::payload::OPayloadView;

verus! {

/// One auction instance: a fresh identifier, an offers ledger, a messages
/// ledger, its configuration, and whether it has started.
#[derive(Debug)]
pub struct CBCAInstance {
    pub identifier: String,
    pub offers_chain: CBCAChain,
    pub messages_chain: CBCAChain,
    pub config: CBCAConfig,
    pub started: bool,
}

impl CBCAInstance {
    /// A new, not yet started instance with two empty ledgers named by the
    /// identifier.
    pub fn spawn(config: CBCAConfig, identifier: &str) -> (r: Self)
        ensures
            r.identifier@ == identifier@,
            r.offers_chain@.instance_id == identifier@,
            r.offers_chain@.chain == Seq::<crate::block::BlockView>::empty(),
            r.offers_chain@.hash is None,
            r.messages_chain@.instance_id == identifier@,
            r.messages_chain@.chain == Seq::<crate::block::BlockView>::empty(),
            r.messages_chain@.hash is None,
            r.config == config,
            !r.started,
    {
        Self {
            identifier: identifier.to_owned(),
            offers_chain: CBCAChain::spawn(identifier.to_owned()),
            messages_chain: CBCAChain::spawn(identifier.to_owned()),
            config,
            started: false,
        }
    }

    /// Appends a message to the messages ledger, stamped with the current
    /// time, and returns the new block's digest.
    pub fn add_message(&mut self, content: String, author: String) -> (r: Result<
        String,
        CBCAPersistenceError,
    >)
        ensures
            final(self).identifier == old(self).identifier,
            final(self).offers_chain == old(self).offers_chain,
            final(self).config == old(self).config,
            final(self).started == old(self).started,
            exists|ts: i64|
                final(self).messages_chain@ == #[trigger] chain_after_push(
                    old(self).messages_chain@,
                    BlockTypeView::MESSAGE(
                        MPayloadView {
                            content: content@,
                            author: author@,
                            instance_id: old(self).identifier@,
                        },
                    ),
                    ts,
                ),
            r matches Ok(h) && Some(h@) == last_hash(final(self).messages_chain@),
    {
        let block = CBCABlock::block_creator_message(content, author, self.identifier.clone());
        let ghost ts = block@.timestamp;
        let h = match self.messages_chain.push(block) {
            Ok(h) => h,
            Err(e) => {
                return Err(e);
            },
        };
        Ok(h)
    }

    /// Appends an offer to the offers ledger, stamped with the current time,
    /// and returns the new block's digest.
    pub fn add_offer(&mut self, amount: u64, author: String, message: Option<String>) -> (r:
        Result<String, CBCAPersistenceError>)
        ensures
            final(self).identifier == old(self).identifier,
            final(self).messages_chain == old(self).messages_chain,
            final(self).config == old(self).config,
            final(self).started == old(self).started,
            exists|b: crate::block::BlockView|
                {
                    &&& final(self).offers_chain@ == #[trigger] chain_after_push(
                        old(self).offers_chain@,
                        b.payload,
                        b.timestamp,
                    )
                    &&& b.payload == BlockTypeView::OFFER(
                        OPayloadView {
                            amount,
                            author: author@,
                            instance_id: old(self).identifier@,
                            message: match message {
                                Some(ref m) => Some(m@),
                                None => None,
                            },
                        },
                    )
                },
            r matches Ok(h) && Some(h@) == last_hash(final(self).offers_chain@),
    {
        let block = CBCABlock::block_creator_offer(
            amount,
            author,
            self.identifier.clone(),
            message,
        );
        let ghost ts = block@.timestamp;
        let h = match self.offers_chain.push(block) {
            Ok(h) => h,
            Err(e) => {
                return Err(e);
            },
        };
        Ok(h)
    }
}

} // verus!

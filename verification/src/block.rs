//! Ledger blocks: one payload, a timestamp, and the link to the previous
//! block's digest.

use vstd::prelude::*;
use crate::payload::MPayload;
use crate::payload::MPayloadView;
use crate::payload::OPayload;
use crate::payload::OPayloadView;
use crate::payload::IPayload;
use crate::payload::IPayloadView;

verus! {

/// The closed set of payloads a block or a queued request can carry.
#[allow(non_camel_case_types)]
#[derive(Debug)]
pub enum CBCABlockType {
    MESSAGE(MPayload),
    OFFER(OPayload),
    INSTANCE(IPayload),
}

/// The mathematical value of a block payload.
pub enum BlockTypeView {
    MESSAGE(MPayloadView),
    OFFER(OPayloadView),
    INSTANCE(IPayloadView),
}

impl View for CBCABlockType {
    type V = BlockTypeView;

    open spec fn view(&self) -> BlockTypeView {
        match self {
            CBCABlockType::MESSAGE(m) => BlockTypeView::MESSAGE(m@),
            CBCABlockType::OFFER(o) => BlockTypeView::OFFER(o@),
            CBCABlockType::INSTANCE(i) => BlockTypeView::INSTANCE(i@),
        }
    }
}

/// One ledger entry. `hash` is set when the block is sealed; from then on
/// the block is immutable. `previous_hash` links it to the block before it.
#[derive(Debug)]
pub struct CBCABlock {
    pub hash: Option<String>,
    pub payload: CBCABlockType,
    pub timestamp: i64,
    pub previous_hash: Option<String>,
}

/// The mathematical value of a block.
pub struct BlockView {
    pub hash: Option<Seq<char>>,
    pub payload: BlockTypeView,
    pub timestamp: i64,
    pub previous_hash: Option<Seq<char>>,
}

impl View for CBCABlock {
    type V = BlockView;

    open spec fn view(&self) -> BlockView {
        BlockView {
            hash: match self.hash {
                Some(h) => Some(h@),
                None => None,
            },
            payload: self.payload@,
            timestamp: self.timestamp,
            previous_hash: match self.previous_hash {
                Some(h) => Some(h@),
                None => None,
            },
        }
    }
}

/// The given block with its own digest field replaced.
pub open spec fn with_hash(b: BlockView, h: Option<Seq<char>>) -> BlockView {
    BlockView { hash: h, ..b }
}

/// The digest of a block: the digest of its written form with the `hash`
/// field empty at computation time, so that sealing a block does not change
/// what its digest covers.
pub open spec fn block_digest(b: BlockView) -> Seq<char> {
    crate::utils::spec_hash_now(crate::encoding::render_block(with_hash(b, None)))
}

/// The block `payload` stamped `timestamp`, linked to `prev`, and sealed
/// with its own digest.
pub open spec fn sealed_block(payload: BlockTypeView, timestamp: i64, prev: Option<Seq<char>>)
    -> BlockView {
    let unsealed = BlockView { hash: None, payload, timestamp, previous_hash: prev };
    with_hash(unsealed, Some(block_digest(unsealed)))
}

/// Two blocks that agree on everything but their own digest field have the
/// same digest: the digest is computed with that field empty, so it is a
/// function of the payload, the timestamp and the back link alone.
pub proof fn lemma_block_digest_deterministic(a: BlockView, b: BlockView)
    requires
        a.payload == b.payload,
        a.timestamp == b.timestamp,
        a.previous_hash == b.previous_hash,
    ensures
        block_digest(a) == block_digest(b),
{
    assert(with_hash(a, None) == with_hash(b, None));
}

/// Relies on `chrono::Utc::now` (and its `timestamp`): the current time as
/// seconds since the epoch. Nothing is promised of the value.
#[verifier::external_body]
pub fn now_timestamp() -> i64 {
    chrono::Utc::now().timestamp()
}

/// The views of a sequence of blocks, element by element.
pub open spec fn blocks_view(bs: Seq<CBCABlock>) -> Seq<BlockView> {
    Seq::new(bs.len(), |k: int| bs[k]@)
}

impl CBCABlock {
    /// A block over the given payload and timestamp, not yet sealed.
    pub fn spawn(payload: CBCABlockType, timestamp: i64, previous_hash: Option<String>) -> (r:
        Self)
        ensures
            r@.hash is None,
            r@.payload == payload@,
            r@.timestamp == timestamp,
            r@.previous_hash == (match previous_hash {
                Some(h) => Some(h@),
                None => None::<Seq<char>>,
            }),
    {
        Self { hash: None, payload, timestamp, previous_hash }
    }

    /// The block's own digest, if it has been sealed.
    pub fn get_hash(&self) -> (r: Option<String>)
        ensures
            r matches Some(h) ==> self@.hash == Some(h@),
            r is None <==> self@.hash is None,
    {
        match &self.hash {
            Some(h) => Some(h.clone()),
            None => None,
        }
    }

    /// The written form of this block with the `hash` field empty: the exact
    /// text the block's digest is computed over.
    pub fn render_unsealed(&self) -> (r: String)
        ensures
            r@ == crate::encoding::render_block(with_hash(self@, None)),
    {
        proof {
            reveal(crate::encoding::render_block);
        }
        let mut out: Vec<char> = Vec::new();
        crate::encoding::append_str(&mut out, "{\"hash\":");
        crate::encoding::append_str(&mut out, "null");
        crate::encoding::append_str(&mut out, ",\"payload\":");
        crate::encoding::append_blocktype(&mut out, &self.payload);
        crate::encoding::append_str(&mut out, ",\"timestamp\":");
        crate::text::append_i64(&mut out, self.timestamp);
        crate::encoding::append_str(&mut out, ",\"previous_hash\":");
        crate::encoding::append_opt_string(&mut out, &self.previous_hash);
        crate::encoding::append_str(&mut out, "}");
        proof {
            reveal_strlit("null");
            assert(crate::encoding::render_opt_string(None) == "null"@);
            assert(out@ =~= crate::encoding::render_block(with_hash(self@, None)));
        }
        crate::text::chars_to_string(&out)
    }

    /// Seals the block: computes its digest over its written form with the
    /// `hash` field empty, stores it, and returns it. Nothing can fail here;
    /// the `Result` stands for the integrity violation the store treats as
    /// fatal.
    pub fn hash_block(&mut self) -> (r: Result<String, crate::manager::CBCAPersistenceError>)
        ensures
            r matches Ok(h) && h@ == block_digest(old(self)@),
            final(self)@ == with_hash(old(self)@, Some(block_digest(old(self)@))),
    {
        let text = self.render_unsealed();
        let h = crate::utils::hash_now(text);
        self.hash = Some(h.clone());
        Ok(h)
    }

    /// A fresh, unsealed message block stamped with the current time.
    pub fn block_creator_message(content: String, author: String, instance_id: String) -> (r:
        CBCABlock)
        ensures
            r@.hash is None,
            r@.previous_hash is None,
            r@.payload matches BlockTypeView::MESSAGE(m) && m == (crate::payload::MPayloadView {
                content: content@,
                author: author@,
                instance_id: instance_id@,
            }),
    {
        CBCABlock::spawn(
            CBCABlockType::MESSAGE(MPayload { content, author, instance_id }),
            now_timestamp(),
            None,
        )
    }

    /// A fresh, unsealed offer block stamped with the current time.
    pub fn block_creator_offer(
        amount: u64,
        author: String,
        instance_id: String,
        message: Option<String>,
    ) -> (r: CBCABlock)
        ensures
            r@.hash is None,
            r@.previous_hash is None,
            r@.payload matches BlockTypeView::OFFER(o) && o == (crate::payload::OPayloadView {
                amount,
                author: author@,
                instance_id: instance_id@,
                message: match message {
                    Some(ref m) => Some(m@),
                    None => None,
                },
            }),
    {
        CBCABlock::spawn(
            CBCABlockType::OFFER(OPayload { amount, author, instance_id, message }),
            now_timestamp(),
            None,
        )
    }

    /// The instance a message or offer block belongs to; an
    /// instance-creation payload is carried by the queue, not by a ledger,
    /// so it names no owning instance here.
    pub fn get_instance_id(&self) -> (r: Option<String>)
        ensures
            match self@.payload {
                BlockTypeView::MESSAGE(m) => r matches Some(s) && s@ == m.instance_id,
                BlockTypeView::OFFER(o) => r matches Some(s) && s@ == o.instance_id,
                BlockTypeView::INSTANCE(_) => r is None,
            },
    {
        match &self.payload {
            CBCABlockType::MESSAGE(m) => Some(m.instance_id.clone()),
            CBCABlockType::OFFER(o) => Some(o.instance_id.clone()),
            CBCABlockType::INSTANCE(_) => None,
        }
    }
}

} // verus!

//! Auction configurations and the hash-linked ledger ("chain") that records
//! an instance's messages or offers.

use vstd::prelude::*;
use crate::block::CBCABlock;
use crate::block::BlockView;

verus! {

/// The parameters of one auction instance, with an integrity tag computed
/// once at creation. Prices are counted in minor units of `currency`.
#[derive(Debug)]
pub struct CBCAConfig {
    pub limit_members: Option<u16>,
    pub private: bool,
    pub start_price: Option<u64>,
    pub duration: u32,
    pub description: String,
    pub name: String,
    pub hash: Option<String>,
    pub currency: String,
}

/// The mathematical value of a configuration.
pub struct ConfigView {
    pub limit_members: Option<u16>,
    pub private: bool,
    pub start_price: Option<u64>,
    pub duration: u32,
    pub description: Seq<char>,
    pub name: Seq<char>,
    pub hash: Option<Seq<char>>,
    pub currency: Seq<char>,
}

impl View for CBCAConfig {
    type V = ConfigView;

    open spec fn view(&self) -> ConfigView {
        ConfigView {
            limit_members: self.limit_members,
            private: self.private,
            start_price: self.start_price,
            duration: self.duration,
            description: self.description@,
            name: self.name@,
            hash: match self.hash {
                Some(h) => Some(h@),
                None => None,
            },
            currency: self.currency@,
        }
    }
}

/// An append-only ledger of blocks for one instance, with a rolling digest
/// of its own contents.
#[derive(Debug)]
pub struct CBCAChain {
    pub instance_id: String,
    pub chain: Vec<CBCABlock>,
    pub hash: Option<String>,
}

/// The mathematical value of a chain.
pub struct ChainView {
    pub instance_id: Seq<char>,
    pub chain: Seq<BlockView>,
    pub hash: Option<Seq<char>>,
}

impl View for CBCAChain {
    type V = ChainView;

    open spec fn view(&self) -> ChainView {
        ChainView {
            instance_id: self.instance_id@,
            chain: Seq::new(self.chain@.len(), |i: int| self.chain@[i]@),
            hash: match self.hash {
                Some(h) => Some(h@),
                None => None,
            },
        }
    }
}

/// The digest of a configuration: the digest of its written form with the
/// `hash` field empty, computed once at creation as an integrity tag.
pub open spec fn config_digest(c: ConfigView) -> Seq<char> {
    crate::utils::spec_hash_now(
        crate::encoding::render_config(ConfigView { hash: None, ..c }),
    )
}

impl CBCAConfig {
    /// Builds a configuration and seals it with its integrity tag. Nothing
    /// can fail here; the `Result` stands for the integrity violation the
    /// store treats as fatal.
    pub fn spawn(
        limit_members: Option<u16>,
        private: bool,
        start_price: Option<u64>,
        duration: u32,
        description: String,
        name: String,
        currency: String,
    ) -> (r: Result<Self, crate::manager::CBCAPersistenceError>)
        ensures
            r matches Ok(c) && c@ == (ConfigView {
                limit_members,
                private,
                start_price,
                duration,
                description: description@,
                name: name@,
                hash: Some(
                    config_digest(
                        ConfigView {
                            limit_members,
                            private,
                            start_price,
                            duration,
                            description: description@,
                            name: name@,
                            hash: None,
                            currency: currency@,
                        },
                    ),
                ),
                currency: currency@,
            }),
    {
        let mut config = CBCAConfig {
            limit_members,
            private,
            start_price,
            duration,
            description,
            name,
            hash: None,
            currency,
        };
        let text = crate::encoding::config_to_text(&config);
        let h = crate::utils::hash_now(text);
        proof {
            assert(ConfigView { hash: None, ..config@ } == config@);
        }
        config.hash = Some(h);
        Ok(config)
    }
}

/// The digest of the last block of a chain, or nothing where the chain is
/// empty or its last block is unsealed.
pub open spec fn last_hash(c: ChainView) -> Option<Seq<char>> {
    if c.chain.len() == 0 {
        None
    } else {
        c.chain.last().hash
    }
}

/// The digest of a whole chain: the digest of its written form with the
/// chain's own `hash` field empty, covering the instance identifier and
/// every block.
pub open spec fn chain_digest(c: ChainView) -> Seq<char> {
    crate::utils::spec_hash_now(
        crate::encoding::render_chain(ChainView { hash: None, ..c }),
    )
}

/// The hash-linkage invariant: every block after the first links to the
/// digest of the block before it, and the first block links to nothing.
pub open spec fn chain_linked(c: ChainView) -> bool {
    &&& forall|k: int|
        1 <= k < c.chain.len() ==> (#[trigger] c.chain[k]).previous_hash == c.chain[k - 1].hash
    &&& c.chain.len() > 0 ==> c.chain[0].previous_hash is None
}

/// What `verify` checks: the linkage invariant holds and the stored rolling
/// digest matches a fresh recomputation over the chain's contents.
pub open spec fn chain_valid(c: ChainView) -> bool {
    chain_linked(c) && c.hash == Some(chain_digest(c))
}

/// The chain after one push: the payload is stamped, linked to the previous
/// last block, sealed with its own digest, appended, and the rolling digest
/// recomputed over the whole new contents.
pub open spec fn chain_after_push(
    c: ChainView,
    payload: crate::block::BlockTypeView,
    timestamp: i64,
) -> ChainView {
    let nb = crate::block::sealed_block(payload, timestamp, last_hash(c));
    let mid = ChainView { instance_id: c.instance_id, chain: c.chain.push(nb), hash: c.hash };
    ChainView { hash: Some(chain_digest(mid)), ..mid }
}

/// The rolling digest is a function of the identifier and the blocks alone:
/// what the `hash` field holds never enters its own recomputation.
pub proof fn lemma_chain_digest_ignores_hash(a: ChainView, b: ChainView)
    requires
        a.instance_id == b.instance_id,
        a.chain == b.chain,
    ensures
        chain_digest(a) == chain_digest(b),
{
    assert(ChainView { hash: None, ..a } == ChainView { hash: None, ..b });
}

/// Pushing preserves the linkage invariant: the new block links to the old
/// last block's digest, the old pairs are untouched, and a chain built by
/// pushes alone therefore satisfies it from the empty chain up.
pub proof fn lemma_chain_after_push_linked(
    c: ChainView,
    payload: crate::block::BlockTypeView,
    timestamp: i64,
)
    requires
        chain_linked(c),
    ensures
        chain_linked(chain_after_push(c, payload, timestamp)),
        chain_valid(chain_after_push(c, payload, timestamp)),
{
    let after = chain_after_push(c, payload, timestamp);
    let nb = crate::block::sealed_block(payload, timestamp, last_hash(c));
    assert(after.chain == c.chain.push(nb));
    assert forall|k: int|
        1 <= k < after.chain.len() implies (#[trigger] after.chain[k]).previous_hash
        == after.chain[k - 1].hash by {
        if k < after.chain.len() - 1 {
            assert(after.chain[k] == c.chain[k]);
            assert(after.chain[k - 1] == c.chain[k - 1]);
        } else {
            assert(after.chain[k] == nb);
            assert(after.chain[k - 1] == c.chain[k - 1]);
            assert(nb.previous_hash == last_hash(c));
        }
    }
    let mid = ChainView { instance_id: c.instance_id, chain: c.chain.push(nb), hash: c.hash };
    lemma_chain_digest_ignores_hash(after, mid);
}

/// Compares two optional strings by their text.
fn opt_string_eq(a: &Option<String>, b: &Option<String>) -> (r: bool)
    ensures
        r == ((match *a {
            Some(ref x) => Some(x@),
            None => None::<Seq<char>>,
        }) == (match *b {
            Some(ref y) => Some(y@),
            None => None::<Seq<char>>,
        })),
{
    match (a, b) {
        (Some(x), Some(y)) => x.eq(y),
        (None, None) => true,
        _ => false,
    }
}

impl CBCAChain {
    /// A fresh, empty ledger for one instance, with no rolling digest yet.
    pub fn spawn(instance_id: String) -> (r: Self)
        ensures
            r@.instance_id == instance_id@,
            r@.chain == Seq::<crate::block::BlockView>::empty(),
            r@.hash is None,
            chain_linked(r@),
    {
        let r = Self { instance_id, chain: Vec::new(), hash: None };
        assert(r@.chain =~= Seq::<crate::block::BlockView>::empty());
        r
    }

    /// How many blocks the ledger holds.
    pub fn len(&self) -> (r: usize)
        ensures
            r == self@.chain.len(),
    {
        self.chain.len()
    }

    /// The digest of the last block, as `push` links it: nothing where the
    /// chain is empty or the last block was never sealed.
    pub fn get_last_hash(&self) -> (r: Option<String>)
        ensures
            (match r {
                Some(ref h) => Some(h@),
                None => None::<Seq<char>>,
            }) == last_hash(self@),
    {
        if self.chain.len() == 0 {
            None
        } else {
            let last = &self.chain[self.chain.len() - 1];
            assert(self@.chain.last() == self.chain@[self.chain@.len() - 1]@);
            match &last.hash {
                Some(h) => Some(h.clone()),
                None => None,
            }
        }
    }

    /// The written form of this ledger with the `hash` field empty: the
    /// exact text the rolling digest is computed over.
    pub fn render_unsealed(&self) -> (r: String)
        ensures
            r@ == crate::encoding::render_chain(ChainView { hash: None, ..self@ }),
    {
        let mut out: Vec<char> = Vec::new();
        crate::encoding::append_str(&mut out, "{\"instance_id\":");
        crate::encoding::append_json_string(&mut out, self.instance_id.as_str());
        crate::encoding::append_str(&mut out, ",\"chain\":");
        crate::encoding::append_blocks(&mut out, &self.chain);
        crate::encoding::append_str(&mut out, ",\"hash\":");
        crate::encoding::append_str(&mut out, "null");
        crate::encoding::append_str(&mut out, "}");
        proof {
            reveal_strlit("null");
            assert(crate::encoding::render_opt_string(None) == "null"@);
            assert(crate::block::blocks_view(self.chain@) =~= self@.chain);
            assert(out@ =~= crate::encoding::render_chain(ChainView { hash: None, ..self@ }));
        }
        crate::text::chars_to_string(&out)
    }

    /// Recomputes the rolling digest over the ledger's contents, stores it,
    /// and returns it. Nothing can fail here; the `Result` stands for the
    /// integrity violation the store treats as fatal.
    pub fn hash_chain(&mut self) -> (r: Result<String, crate::manager::CBCAPersistenceError>)
        ensures
            r matches Ok(h) && h@ == chain_digest(old(self)@),
            final(self)@ == (ChainView { hash: Some(chain_digest(old(self)@)), ..old(self)@ }),
    {
        let text = self.render_unsealed();
        let h = crate::utils::hash_now(text);
        self.hash = Some(h.clone());
        proof {
            assert(self@.chain =~= old(self)@.chain);
            lemma_chain_digest_ignores_hash(self@, old(self)@);
        }
        Ok(h)
    }

    /// Appends one block: links it to the current last block, seals it,
    /// recomputes the rolling digest, and returns the new block's digest.
    /// Any digest the handed block already carried is ignored, since a
    /// block's digest is computed with that field empty.
    pub fn push(&mut self, block: crate::block::CBCABlock) -> (r: Result<
        String,
        crate::manager::CBCAPersistenceError,
    >)
        ensures
            final(self)@ == chain_after_push(old(self)@, block@.payload, block@.timestamp),
            r matches Ok(h) && Some(h@) == chain_after_push(
                old(self)@,
                block@.payload,
                block@.timestamp,
            ).chain.last().hash,
    {
        let ghost nb = crate::block::sealed_block(
            block@.payload,
            block@.timestamp,
            last_hash(old(self)@),
        );
        let mut b = block;
        b.previous_hash = self.get_last_hash();
        proof {
            crate::block::lemma_block_digest_deterministic(b@, crate::block::BlockView {
                hash: None,
                payload: block@.payload,
                timestamp: block@.timestamp,
                previous_hash: last_hash(old(self)@),
            });
        }
        let h = match b.hash_block() {
            Ok(h) => h,
            Err(e) => {
                return Err(e);
            },
        };
        assert(b@ == nb);
        self.chain.push(b);
        assert(self@.chain =~= old(self)@.chain.push(nb));
        let ghost mid = ChainView {
            instance_id: old(self)@.instance_id,
            chain: old(self)@.chain.push(nb),
            hash: old(self)@.hash,
        };
        proof {
            lemma_chain_digest_ignores_hash(self@, mid);
        }
        match self.hash_chain() {
            Ok(_) => {},
            Err(e) => {
                return Err(e);
            },
        }
        assert(final(self)@ == chain_after_push(old(self)@, block@.payload, block@.timestamp));
        Ok(h)
    }

    /// Checks the ledger against its own records: every adjacent pair obeys
    /// the linkage invariant, the first block links to nothing, and the
    /// stored rolling digest matches a fresh recomputation. A ledger that
    /// fails this check is corrupt and must be surfaced.
    pub fn verify(&self) -> (r: bool)
        ensures
            r == chain_valid(self@),
    {
        if self.chain.len() > 0 {
            let first = &self.chain[0];
            assert(self@.chain[0] == self.chain@[0]@);
            match &first.previous_hash {
                Some(_) => {
                    assert(!chain_linked(self@));
                    return false;
                },
                None => {},
            }
        }
        let mut k: usize = 1;
        while k < self.chain.len()
            invariant
                1 <= k,
                k <= self.chain@.len() || self.chain@.len() == 0,
                forall|m: int|
                    1 <= m < k && m < self@.chain.len() ==> (#[trigger] self@.chain[m]).previous_hash
                        == self@.chain[m - 1].hash,
            decreases self.chain@.len() - k,
        {
            assert(self@.chain[k as int] == self.chain@[k as int]@);
            assert(self@.chain[k as int - 1] == self.chain@[k as int - 1]@);
            let ok = opt_string_eq(&self.chain[k].previous_hash, &self.chain[k - 1].hash);
            if !ok {
                assert(!chain_linked(self@));
                return false;
            }
            k = k + 1;
        }
        assert(chain_linked(self@));
        let text = self.render_unsealed();
        let fresh = crate::utils::hash_now(text);
        proof {
            lemma_chain_digest_ignores_hash(
                self@,
                ChainView { hash: None, ..self@ },
            );
            assert(fresh@ == chain_digest(self@));
        }
        match &self.hash {
            None => false,
            Some(stored) => {
                let same = stored.eq(&fresh);
                same
            },
        }
    }
}

} // verus!

//! The pure core of the persistence manager: the read-modify-write step that
//! turns one stored ledger text and one accepted request into the next text
//! to store. The file system itself, and the lock that serializes these
//! steps, live with the caller; every step here is a total function of its
//! inputs.

use vstd::prelude::*;

verus! {

/// A failure while creating or rewriting an instance's stored artifacts.
#[derive(Clone, Copy, Debug, PartialEq, Eq, Structural)]
pub enum CBCAPersistenceError {
    /// The instance's directory already exists, so `create` refuses it.
    DirectoryExists,
    /// The underlying storage failed.
    IoFailure,
    /// A ledger file was missing or empty when an append was attempted.
    EmptyLedger,
    /// A stored artifact could not be read back as a ledger, or a value
    /// could not be laid out; an integrity violation, never retried.
    SerializationError,
}

/// The directory name an instance's artifacts live under: its identifier
/// with every hyphen replaced by a dot.
pub open spec fn dot_name(s: Seq<char>) -> Seq<char> {
    Seq::new(
        s.len(),
        |k: int|
            if s[k] == '-' {
                '.'
            } else {
                s[k]
            },
    )
}

/// Renders an instance identifier as its directory name.
pub fn instance_dir_name(identifier: &str) -> (r: String)
    ensures
        r@ == dot_name(identifier@),
{
    let cs = crate::text::str_to_chars(identifier);
    let mut out: Vec<char> = Vec::new();
    let mut k: usize = 0;
    while k < cs.len()
        invariant
            k <= cs@.len(),
            cs@.len() == identifier@.len(),
            out@ == dot_name(identifier@).subrange(0, k as int),
            cs@ == identifier@,
        decreases cs@.len() - k,
    {
        let c = cs[k];
        if c == '-' {
            out.push('.');
        } else {
            out.push(c);
        }
        k = k + 1;
        assert(out@ =~= dot_name(identifier@).subrange(0, k as int));
    }
    assert(out@ =~= dot_name(identifier@));
    crate::text::chars_to_string(&out)
}

/// What one read-modify-write step does to a stored ledger text: an empty
/// text fails at once as `EmptyLedger`; a text that does not read back as
/// exactly one ledger fails as `SerializationError`; otherwise the payload
/// is pushed and the new text and the new block's digest come back.
pub open spec fn spec_apply(
    text: Seq<char>,
    payload: crate::block::BlockTypeView,
    timestamp: i64,
) -> Result<(Seq<char>, Seq<char>), CBCAPersistenceError> {
    if text.len() == 0 {
        Err(CBCAPersistenceError::EmptyLedger)
    } else {
        match crate::encoding::spec_parse_chain(text, 0) {
            Some((c, j)) => if j == text.len() {
                let after = crate::fchain::chain_after_push(c, payload, timestamp);
                let nb_digest = crate::block::block_digest(
                    crate::block::BlockView {
                        hash: None,
                        payload,
                        timestamp,
                        previous_hash: crate::fchain::last_hash(c),
                    },
                );
                Ok((crate::encoding::render_chain(after), nb_digest))
            } else {
                Err(CBCAPersistenceError::SerializationError)
            },
            None => Err(CBCAPersistenceError::SerializationError),
        }
    }
}

/// One read-modify-write step over a stored ledger text: parse, push, and
/// render the text to store back; exactly what `spec_apply` says, the new
/// block's digest included.
pub(crate) fn push_ledger_text(
    ledger_text: &str,
    payload: crate::block::CBCABlockType,
    timestamp: i64,
) -> (r: Result<(String, String), CBCAPersistenceError>)
    ensures
        match r {
            Ok(p) => spec_apply(ledger_text@, payload@, timestamp) == Ok::<
                (Seq<char>, Seq<char>),
                CBCAPersistenceError,
            >((p.0@, p.1@)),
            Err(e) => spec_apply(ledger_text@, payload@, timestamp) == Err::<
                (Seq<char>, Seq<char>),
                CBCAPersistenceError,
            >(e),
        },
{
    if ledger_text.is_empty() {
        return Err(CBCAPersistenceError::EmptyLedger);
    }
    let mut chain = match crate::encoding::chain_from_text(ledger_text) {
        Some(c) => c,
        None => {
            return Err(CBCAPersistenceError::SerializationError);
        },
    };
    let block = crate::block::CBCABlock::spawn(payload, timestamp, None);
    let h = match chain.push(block) {
        Ok(h) => h,
        Err(_) => {
            return Err(CBCAPersistenceError::SerializationError);
        },
    };
    let new_text = crate::encoding::chain_to_text(&chain);
    Ok((new_text, h))
}

/// The compute step of appending a message: what the stored message-ledger
/// text becomes, and the digest of the block recording the message.
pub fn append_message(
    ledger_text: &str,
    instance_id: String,
    content: String,
    author: String,
    timestamp: i64,
) -> (r: Result<(String, String), CBCAPersistenceError>)
    ensures
        match r {
            Ok(p) => spec_apply(
                ledger_text@,
                crate::block::BlockTypeView::MESSAGE(
                    crate::payload::MPayloadView {
                        content: content@,
                        author: author@,
                        instance_id: instance_id@,
                    },
                ),
                timestamp,
            ) == Ok::<(Seq<char>, Seq<char>), CBCAPersistenceError>((p.0@, p.1@)),
            Err(e) => spec_apply(
                ledger_text@,
                crate::block::BlockTypeView::MESSAGE(
                    crate::payload::MPayloadView {
                        content: content@,
                        author: author@,
                        instance_id: instance_id@,
                    },
                ),
                timestamp,
            ) == Err::<(Seq<char>, Seq<char>), CBCAPersistenceError>(e),
        },
{
    push_ledger_text(
        ledger_text,
        crate::block::CBCABlockType::MESSAGE(
            crate::payload::MPayload { content, author, instance_id },
        ),
        timestamp,
    )
}

/// The compute step of appending an offer: what the stored offer-ledger
/// text becomes, and the digest of the block recording the offer.
pub fn append_offer(
    ledger_text: &str,
    instance_id: String,
    amount: u64,
    author: String,
    message: Option<String>,
    timestamp: i64,
) -> (r: Result<(String, String), CBCAPersistenceError>)
    ensures
        match r {
            Ok(p) => spec_apply(
                ledger_text@,
                crate::block::BlockTypeView::OFFER(
                    crate::payload::OPayloadView {
                        amount,
                        author: author@,
                        instance_id: instance_id@,
                        message: match message {
                            Some(ref m) => Some(m@),
                            None => None,
                        },
                    },
                ),
                timestamp,
            ) == Ok::<(Seq<char>, Seq<char>), CBCAPersistenceError>((p.0@, p.1@)),
            Err(e) => spec_apply(
                ledger_text@,
                crate::block::BlockTypeView::OFFER(
                    crate::payload::OPayloadView {
                        amount,
                        author: author@,
                        instance_id: instance_id@,
                        message: match message {
                            Some(ref m) => Some(m@),
                            None => None,
                        },
                    },
                ),
                timestamp,
            ) == Err::<(Seq<char>, Seq<char>), CBCAPersistenceError>(e),
        },
{
    push_ledger_text(
        ledger_text,
        crate::block::CBCABlockType::OFFER(
            crate::payload::OPayload { amount, author, instance_id, message },
        ),
        timestamp,
    )
}

/// The compute step of creating an instance: the directory name and the
/// three artifact texts — offer ledger, message ledger, configuration —
/// written as a unit under it. A partial failure after the directory exists
/// but before all three files are written is a known non-atomicity risk of
/// the store; nothing here masks it.
pub fn create_instance_artifacts(instance: &crate::instance::CBCAInstance) -> (r: (
    String,
    String,
    String,
    String,
))
    ensures
        r.0@ == dot_name(instance.identifier@),
        r.1@ == crate::encoding::render_chain(instance.offers_chain@),
        r.2@ == crate::encoding::render_chain(instance.messages_chain@),
        r.3@ == crate::encoding::render_config(instance.config@),
{
    let dir = instance_dir_name(instance.identifier.as_str());
    let offers = crate::encoding::chain_to_text(&instance.offers_chain);
    let messages = crate::encoding::chain_to_text(&instance.messages_chain);
    let config = crate::encoding::config_to_text(&instance.config);
    (dir, offers, messages, config)
}

/// The decision the store makes after trying to create an instance's
/// directory: an already existing directory refuses the creation as
/// `DirectoryExists` — so creating the same identifier twice fails the
/// second time — and any other failure is an `IoFailure`.
pub fn classify_create_dir(already_exists: bool, io_ok: bool) -> (r: Result<
    (),
    CBCAPersistenceError,
>)
    ensures
        already_exists ==> r == Err::<(), CBCAPersistenceError>(
            CBCAPersistenceError::DirectoryExists,
        ),
        !already_exists && !io_ok ==> r == Err::<(), CBCAPersistenceError>(
            CBCAPersistenceError::IoFailure,
        ),
        !already_exists && io_ok ==> r == Ok::<(), CBCAPersistenceError>(()),
{
    if already_exists {
        Err(CBCAPersistenceError::DirectoryExists)
    } else if !io_ok {
        Err(CBCAPersistenceError::IoFailure)
    } else {
        Ok(())
    }
}

/// Rewriting a stored ledger is append-only: when one apply step succeeds,
/// the new text reads back as the old chain with exactly one block added at
/// the end — one more block, every old block unchanged in place — so a run
/// of appends applied in turn, as the store's lock orders them, grows the
/// ledger by exactly their number.
pub proof fn lemma_apply_round_trip(
    text: Seq<char>,
    payload: crate::block::BlockTypeView,
    timestamp: i64,
)
    ensures
        match spec_apply(text, payload, timestamp) {
            Ok(p) => match crate::encoding::spec_parse_chain(text, 0) {
                Some(q) => match crate::encoding::spec_parse_chain(p.0, 0) {
                    Some(q2) => {
                        &&& q2.1 == p.0.len()
                        &&& q2.0 == crate::fchain::chain_after_push(q.0, payload, timestamp)
                        &&& q2.0.chain.len() == q.0.chain.len() + 1
                        &&& forall|k: int|
                            0 <= k < q.0.chain.len() ==> q2.0.chain[k] == q.0.chain[k]
                    },
                    None => false,
                },
                None => false,
            },
            Err(_) => true,
        },
{
    match spec_apply(text, payload, timestamp) {
        Ok(p) => {
            let q = crate::encoding::spec_parse_chain(text, 0);
            match q {
                Some((c, j)) => {
                    let after = crate::fchain::chain_after_push(c, payload, timestamp);
                    let out = crate::encoding::render_chain(after);
                    assert(out.subrange(0, out.len() as int) =~= out);
                    crate::encoding::lemma_parse_chain_at(out, 0, after);
                },
                None => {},
            }
        },
        Err(_) => {},
    }
}

/// End to end at the store level: appending one message to a freshly
/// created, empty message ledger and reading the stored text back yields a
/// ledger of exactly one block carrying that message, with no back link, and
/// the whole ledger passes verification.
pub proof fn lemma_first_message_round_trip(
    id: Seq<char>,
    m: crate::payload::MPayloadView,
    timestamp: i64,
)
    ensures
        ({
            let fresh = crate::fchain::ChainView {
                instance_id: id,
                chain: Seq::<crate::block::BlockView>::empty(),
                hash: None,
            };
            match spec_apply(
                crate::encoding::render_chain(fresh),
                crate::block::BlockTypeView::MESSAGE(m),
                timestamp,
            ) {
                Ok(p) => match crate::encoding::spec_parse_chain(p.0, 0) {
                    Some(q) => {
                        &&& q.1 == p.0.len()
                        &&& q.0.chain.len() == 1
                        &&& q.0.chain[0].payload == crate::block::BlockTypeView::MESSAGE(m)
                        &&& q.0.chain[0].previous_hash is None
                        &&& crate::fchain::chain_valid(q.0)
                    },
                    None => false,
                },
                Err(_) => false,
            }
        }),
{
    let fresh = crate::fchain::ChainView {
        instance_id: id,
        chain: Seq::<crate::block::BlockView>::empty(),
        hash: None,
    };
    let payload = crate::block::BlockTypeView::MESSAGE(m);
    let text = crate::encoding::render_chain(fresh);
    assert(text.len() > 0) by {
        reveal_strlit("{\"instance_id\":");
    }
    assert(text.subrange(0, text.len() as int) =~= text);
    crate::encoding::lemma_parse_chain_at(text, 0, fresh);
    crate::fchain::lemma_chain_after_push_linked(fresh, payload, timestamp);
    lemma_apply_round_trip(text, payload, timestamp);
    let after = crate::fchain::chain_after_push(fresh, payload, timestamp);
    assert(after.chain.len() == 1);
    assert(after.chain[0] == crate::block::sealed_block(
        payload,
        timestamp,
        crate::fchain::last_hash(fresh),
    ));
}

} // verus!

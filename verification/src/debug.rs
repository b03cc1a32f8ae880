//! Helpers that generate bulk test data.

use vstd::prelude::*;
use crate::text::dec_chars;

verus! {

/// The content of the `k`-th generated message.
pub open spec fn masse_message_content(k: nat) -> Seq<char> {
    "Message "@ + dec_chars(k)
}

/// `n` fresh message blocks with numbered contents, each authored by `Me`,
/// addressed to one instance, none sealed yet.
pub fn _dbg_generate_masse_message(n: usize, instance_id: &String) -> (r: Vec<
    crate::block::CBCABlock,
>)
    ensures
        r@.len() == n,
        forall|k: int|
            0 <= k < n ==> {
                let b = (#[trigger] r@[k])@;
                &&& b.hash is None
                &&& b.previous_hash is None
                &&& b.payload matches crate::block::BlockTypeView::MESSAGE(m) && m.content
                    == masse_message_content(k as nat) && m.author == "Me"@ && m.instance_id
                    == instance_id@
            },
{
    let mut stock: Vec<crate::block::CBCABlock> = Vec::new();
    let mut i: usize = 0;
    while i < n
        invariant
            i <= n,
            stock@.len() == i,
            forall|k: int|
                0 <= k < i ==> {
                    let b = (#[trigger] stock@[k])@;
                    &&& b.hash is None
                    &&& b.previous_hash is None
                    &&& b.payload matches crate::block::BlockTypeView::MESSAGE(m) && m.content
                        == masse_message_content(k as nat) && m.author == "Me"@
                        && m.instance_id == instance_id@
                },
        decreases n - i,
    {
        let mut out: Vec<char> = Vec::new();
        crate::encoding::append_str(&mut out, "Message ");
        crate::text::append_u64(&mut out, i as u64);
        let content = crate::text::chars_to_string(&out);
        stock.push(
            crate::block::CBCABlock::block_creator_message(
                content,
                "Me".to_owned(),
                instance_id.clone(),
            ),
        );
        i = i + 1;
    }
    stock
}

/// `n` numbered message bodies, each authored by `Me`.
pub fn _dbg_generate_masse_massage_data(n: usize) -> (r: Vec<(String, String)>)
    ensures
        r@.len() == n,
        forall|k: int|
            0 <= k < n ==> (#[trigger] r@[k]).0@ == masse_message_content(k as nat) && r@[k].1@
                == "Me"@,
{
    let mut stock: Vec<(String, String)> = Vec::new();
    let mut i: usize = 0;
    while i < n
        invariant
            i <= n,
            stock@.len() == i,
            forall|k: int|
                0 <= k < i ==> (#[trigger] stock@[k]).0@ == masse_message_content(k as nat)
                    && stock@[k].1@ == "Me"@,
        decreases n - i,
    {
        let mut out: Vec<char> = Vec::new();
        crate::encoding::append_str(&mut out, "Message ");
        crate::text::append_u64(&mut out, i as u64);
        let content = crate::text::chars_to_string(&out);
        stock.push((content, "Me".to_owned()));
        i = i + 1;
    }
    stock
}

} // verus!

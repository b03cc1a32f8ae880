//! The client's pure core: which listener address a request goes to, and
//! the request bodies it sends. The sockets themselves live with the
//! caller.

use vstd::prelude::*;
use crate::fchain::CBCAConfig;
use crate::payload::IPayload;
use crate::payload::MPayload;
use crate::payload::OPayload;

verus! {

/// Which of the three listeners a request is bound for.
#[derive(Clone, Copy, Debug, PartialEq, Eq, Structural)]
pub enum CBCAFlag {
    IPM,
    IPI,
    IPO,
}

/// The client's three listener addresses.
#[derive(Debug)]
pub struct CBCAClient {
    pub ip_message: String,
    pub ip_instance: String,
    pub ip_offer: String,
}

impl CBCAClient {
    /// A client from its three listener addresses.
    pub fn spawn(ip_message: String, ip_instance: String, ip_offer: String) -> (r: Self)
        ensures
            r.ip_message == ip_message,
            r.ip_instance == ip_instance,
            r.ip_offer == ip_offer,
    {
        Self { ip_message, ip_instance, ip_offer }
    }

    /// The address a request with the given flag connects to.
    pub fn addr_for(&self, flag: &CBCAFlag) -> (r: &String)
        ensures
            match *flag {
                CBCAFlag::IPM => r == &self.ip_message,
                CBCAFlag::IPI => r == &self.ip_instance,
                CBCAFlag::IPO => r == &self.ip_offer,
            },
    {
        match flag {
            CBCAFlag::IPM => &self.ip_message,
            CBCAFlag::IPI => &self.ip_instance,
            CBCAFlag::IPO => &self.ip_offer,
        }
    }
}

/// The request body that asks the message listener to append a message.
pub fn build_message_request(author: String, content: String, identifier: String) -> (r: String)
    ensures
        r@ == crate::encoding::render_mpayload(
            crate::payload::MPayloadView {
                content: content@,
                author: author@,
                instance_id: identifier@,
            },
        ),
{
    let payload = MPayload { content, author, instance_id: identifier };
    let mut out: Vec<char> = Vec::new();
    crate::encoding::append_mpayload(&mut out, &payload);
    crate::text::chars_to_string(&out)
}

/// The request body that asks the offer listener to append an offer.
pub fn build_offer_request(
    amount: u64,
    message: Option<String>,
    identifier: String,
    author: String,
) -> (r: String)
    ensures
        r@ == crate::encoding::render_opayload(
            crate::payload::OPayloadView {
                amount,
                author: author@,
                instance_id: identifier@,
                message: match message {
                    Some(ref m) => Some(m@),
                    None => None,
                },
            },
        ),
{
    let payload = OPayload { amount, author, instance_id: identifier, message };
    let mut out: Vec<char> = Vec::new();
    crate::encoding::append_opayload(&mut out, &payload);
    crate::text::chars_to_string(&out)
}

/// True of the characters a hyphenated identifier is made of: hexadecimal
/// digits and hyphens.
pub open spec fn is_uuid_char(c: char) -> bool {
    (48 <= c as u32 <= 57) || (97 <= c as u32 <= 102) || c == '-'
}

/// Relies on `uuid::Uuid::new_v4` and its hyphenated `to_string` form: a
/// fresh random identifier of 36 lowercase-hexadecimal and hyphen
/// characters. The identifier is random; nothing else is promised of it.
#[verifier::external_body]
fn new_v4_string() -> (r: String)
    ensures
        r@.len() == 36,
        forall|k: int| 0 <= k < r@.len() ==> is_uuid_char(#[trigger] r@[k]),
{
    uuid::Uuid::new_v4().to_string()
}

/// A fresh instance identifier together with the request body that asks the
/// instance listener to create an instance under it.
pub fn build_instance_request(config: CBCAConfig) -> (r: (String, String))
    ensures
        r.0@.len() == 36,
        forall|k: int| 0 <= k < r.0@.len() ==> is_uuid_char(#[trigger] r.0@[k]),
        r.1@ == crate::encoding::render_ipayload(
            crate::payload::IPayloadView { instance_id: r.0@, config: config@ },
        ),
{
    let id = new_v4_string();
    let payload = IPayload { instance_id: id.clone(), config };
    let mut out: Vec<char> = Vec::new();
    crate::encoding::append_ipayload(&mut out, &payload);
    (id, crate::text::chars_to_string(&out))
}

} // verus!

//! The three request payloads a client can submit: a chat message, a bid
//! offer, and an instance-creation request.

use vstd::prelude::*;
use crate::fchain::CBCAConfig;
use crate::fchain::ConfigView;

verus! {

/// A chat message bound for one instance's message ledger.
#[derive(Debug)]
pub struct MPayload {
    pub content: String,
    pub author: String,
    pub instance_id: String,
}

/// The mathematical value of a message payload.
pub struct MPayloadView {
    pub content: Seq<char>,
    pub author: Seq<char>,
    pub instance_id: Seq<char>,
}

impl View for MPayload {
    type V = MPayloadView;

    open spec fn view(&self) -> MPayloadView {
        MPayloadView {
            content: self.content@,
            author: self.author@,
            instance_id: self.instance_id@,
        }
    }
}

impl MPayload {
    /// The payload's fields, as owned strings.
    pub fn extract(payload: &MPayload) -> (r: (String, String, String))
        ensures
            r.0@ == payload@.content,
            r.1@ == payload@.author,
            r.2@ == payload@.instance_id,
    {
        (payload.content.clone(), payload.author.clone(), payload.instance_id.clone())
    }

    /// The instance this payload addresses.
    pub fn get_instance_id(&self) -> (r: &String)
        ensures
            r@ == self@.instance_id,
    {
        &self.instance_id
    }

}

/// A bid offer bound for one instance's offer ledger. The amount is counted
/// in minor units of the instance's currency.
#[derive(Debug)]
pub struct OPayload {
    pub amount: u64,
    pub author: String,
    pub instance_id: String,
    pub message: Option<String>,
}

/// The mathematical value of an offer payload.
pub struct OPayloadView {
    pub amount: u64,
    pub author: Seq<char>,
    pub instance_id: Seq<char>,
    pub message: Option<Seq<char>>,
}

impl View for OPayload {
    type V = OPayloadView;

    open spec fn view(&self) -> OPayloadView {
        OPayloadView {
            amount: self.amount,
            author: self.author@,
            instance_id: self.instance_id@,
            message: match self.message {
                Some(m) => Some(m@),
                None => None,
            },
        }
    }
}

impl OPayload {
    /// The instance this payload addresses.
    pub fn get_instance_id(&self) -> (r: &String)
        ensures
            r@ == self@.instance_id,
    {
        &self.instance_id
    }

}

/// A request to create an instance under a fresh identifier.
#[derive(Debug)]
pub struct IPayload {
    pub instance_id: String,
    pub config: CBCAConfig,
}

/// The mathematical value of an instance-creation payload.
pub struct IPayloadView {
    pub instance_id: Seq<char>,
    pub config: ConfigView,
}

impl View for IPayload {
    type V = IPayloadView;

    open spec fn view(&self) -> IPayloadView {
        IPayloadView { instance_id: self.instance_id@, config: self.config@ }
    }
}

impl IPayload {
    /// The configuration carried by this request.
    pub fn extract_config(&self) -> (r: &CBCAConfig)
        ensures
            r@ == self@.config,
    {
        &self.config
    }

    /// The instance this payload addresses.
    pub fn get_instance_id(&self) -> (r: &String)
        ensures
            r@ == self@.instance_id,
    {
        &self.instance_id
    }
}

} // verus!

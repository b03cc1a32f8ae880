//! The per-connection dispatch core of the three listeners. The sockets,
//! the accept loops and the queue live with the caller; here stand the
//! decisions: reading a request body into its payload, and building the one
//! response frame the connection is answered with.

use vstd::prelude::*;
use crate::communication::CBCATcpPayload;
use crate::communication::CBCATcpPayloadType;
use crate::payload::IPayload;
use crate::payload::MPayload;
use crate::payload::OPayload;

verus! {

/// A request body that does not read as the payload the listener expects.
#[derive(Clone, Copy, Debug, PartialEq, Eq, Structural)]
pub enum CBCADomainError {
    UnknownPayload,
}

/// One listener's address.
#[derive(Debug)]
pub struct CBCARoutineAddr {
    pub ip: String,
    pub port: String,
}

impl CBCARoutineAddr {
    /// An address from its two halves.
    pub fn spawn(ip: String, port: String) -> (r: Self)
        ensures
            r.ip == ip,
            r.port == port,
    {
        Self { ip, port }
    }

    /// The address as one `ip:port` string.
    pub fn get_full_addr(&self) -> (r: String)
        ensures
            r@ == self.ip@ + seq![':'] + self.port@,
    {
        let mut out: Vec<char> = Vec::new();
        crate::encoding::append_str(&mut out, self.ip.as_str());
        out.push(':');
        crate::encoding::append_str(&mut out, self.port.as_str());
        assert(out@ =~= self.ip@ + seq![':'] + self.port@);
        crate::text::chars_to_string(&out)
    }
}

/// Reads a message-listener request body: the whole body must be one
/// written message payload.
pub fn handle_message_request(raw: &str) -> (r: Result<MPayload, CBCADomainError>)
    ensures
        match r {
            Ok(m) => crate::encoding::spec_parse_mpayload(raw@, 0) == Some(
                (m@, raw@.len() as int),
            ),
            Err(e) => e is UnknownPayload && !(crate::encoding::spec_parse_mpayload(raw@, 0)
                matches Some(p) && p.1 == raw@.len()),
        },
{
    let cs = crate::text::str_to_chars(raw);
    match crate::encoding::parse_mpayload(&cs, 0) {
        Some((m, j)) => {
            if j == cs.len() {
                Ok(m)
            } else {
                Err(CBCADomainError::UnknownPayload)
            }
        },
        None => Err(CBCADomainError::UnknownPayload),
    }
}

/// Reads an offer-listener request body: the whole body must be one written
/// offer payload.
pub fn handle_offer_request(raw: &str) -> (r: Result<OPayload, CBCADomainError>)
    ensures
        match r {
            Ok(o) => crate::encoding::spec_parse_opayload(raw@, 0) == Some(
                (o@, raw@.len() as int),
            ),
            Err(e) => e is UnknownPayload && !(crate::encoding::spec_parse_opayload(raw@, 0)
                matches Some(p) && p.1 == raw@.len()),
        },
{
    let cs = crate::text::str_to_chars(raw);
    match crate::encoding::parse_opayload(&cs, 0) {
        Some((o, j)) => {
            if j == cs.len() {
                Ok(o)
            } else {
                Err(CBCADomainError::UnknownPayload)
            }
        },
        None => Err(CBCADomainError::UnknownPayload),
    }
}

/// Reads an instance-listener request body: the whole body must be one
/// written instance-creation payload.
pub fn handle_instance_request(raw: &str) -> (r: Result<IPayload, CBCADomainError>)
    ensures
        match r {
            Ok(p) => crate::encoding::spec_parse_ipayload(raw@, 0) == Some(
                (p@, raw@.len() as int),
            ),
            Err(e) => e is UnknownPayload && !(crate::encoding::spec_parse_ipayload(raw@, 0)
                matches Some(p) && p.1 == raw@.len()),
        },
{
    let cs = crate::text::str_to_chars(raw);
    match crate::encoding::parse_ipayload(&cs, 0) {
        Some((p, j)) => {
            if j == cs.len() {
                Ok(p)
            } else {
                Err(CBCADomainError::UnknownPayload)
            }
        },
        None => Err(CBCADomainError::UnknownPayload),
    }
}

/// The one response frame a message connection is answered with: a `Data`
/// frame saying `true` when the append was applied, an `Error` frame saying
/// `false` when it was not.
pub fn message_response(applied: bool) -> (r: CBCATcpPayload)
    ensures
        applied ==> r.payload_type is Data && r.payload_content@ == "true"@,
        !applied ==> r.payload_type is Error && r.payload_content@ == "false"@,
        r.wf(),
{
    proof {
        reveal_strlit("true");
        reveal_strlit("false");
        vstd::utf8::encode_utf8_valid_utf8("true"@);
        crate::communication::lemma_encode_utf8_len("true"@);
        crate::communication::lemma_encode_utf8_len("false"@);
    }
    if applied {
        CBCATcpPayload::spawn(CBCATcpPayloadType::Data, "true".to_owned())
    } else {
        CBCATcpPayload::spawn(CBCATcpPayloadType::Error, "false".to_owned())
    }
}

/// The one response frame an offer connection is answered with, on the same
/// terms as a message connection.
pub fn offer_response(applied: bool) -> (r: CBCATcpPayload)
    ensures
        applied ==> r.payload_type is Data && r.payload_content@ == "true"@,
        !applied ==> r.payload_type is Error && r.payload_content@ == "false"@,
        r.wf(),
{
    message_response(applied)
}

/// The one response frame an instance-create connection is answered with: a
/// `Data` frame carrying the new identifier, or an `Error` frame saying the
/// instance was not created.
pub fn instance_response(identifier: Option<String>) -> (r: CBCATcpPayload)
    ensures
        match identifier {
            Some(id) => r.payload_type is Data && r.payload_content@ == id@,
            None => r.payload_type is Error && r.payload_content@
                == "queue doesnt push an instance."@,
        },
        identifier matches Some(id) && vstd::utf8::encode_utf8(id@).len() <= u32::MAX
            ==> r.wf(),
        identifier is None ==> r.wf(),
    {
    proof {
        reveal_strlit("queue doesnt push an instance.");
        crate::communication::lemma_encode_utf8_len("queue doesnt push an instance."@);
    }
    match identifier {
        Some(id) => CBCATcpPayload::spawn(CBCATcpPayloadType::Data, id),
        None => CBCATcpPayload::spawn(
            CBCATcpPayloadType::Error,
            "queue doesnt push an instance.".to_owned(),
        ),
    }
}

} // verus!

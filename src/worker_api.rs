//! The client side of the worker's request surface: which request to send, and what a reply
//! means. Sending and receiving are left to the caller.
use vstd::prelude::*;
use parity_scale_codec::Decode;
use crate::stf::ShardIdentifier;

verus! {

/// A request to the worker.
#[derive(Clone, Debug)]
pub enum ClientRequest {
    /// The worker's RSA public key.
    PubKeyWorker,
    /// The port of the worker's mutual remote attestation server.
    MuRaPortWorker,
    /// The answer to an encoded, signed getter on a shard.
    StfState(Vec<u8>, ShardIdentifier),
}

/// A request together with the address of the worker it goes to.
#[derive(Clone, Debug)]
pub struct WorkerRequest {
    pub url: String,
    pub request: ClientRequest,
}

/// A client of one worker.
#[derive(Clone)]
pub struct Api {
    url: String,
}

impl View for Api {
    type V = Seq<char>;

    /// The worker's address.
    closed spec fn view(&self) -> Seq<char> {
        self.url@
    }
}

/// The value of one hexadecimal digit, in either case.
pub open spec fn hex_digit(c: u8) -> Option<u8> {
    if 0x30 <= c <= 0x39 {
        Some((c - 0x30) as u8)
    } else if 0x41 <= c <= 0x46 {
        Some((c - 0x41 + 10) as u8)
    } else if 0x61 <= c <= 0x66 {
        Some((c - 0x61 + 10) as u8)
    } else {
        None
    }
}

/// The bytes that a hexadecimal text stands for: two digits per byte, high digit first.
pub open spec fn hex_decode_spec(s: Seq<u8>) -> Option<Seq<u8>> {
    if s.len() % 2 == 0 && forall|i: int| 0 <= i < s.len() ==> (#[trigger] hex_digit(s[i])) is Some {
        Some(
            Seq::new(
                s.len() / 2,
                |i: int| (hex_digit(s[2 * i]).unwrap() * 16 + hex_digit(s[2 * i + 1]).unwrap()) as u8,
            ),
        )
    } else {
        None
    }
}

/// What `Option<Vec<u8>>::decode` of parity-scale-codec makes of the bytes: `None` where
/// they do not start with an encoded optional byte string.
pub uninterp spec fn scale_option_bytes_of(data: Seq<u8>) -> Option<Option<Seq<u8>>>;

/// Relies on hex::decode: an even number of hexadecimal digits (either case) become one byte
/// per pair; anything else is an error.
#[verifier::external_body]
fn hex_decode(s: &[u8]) -> (r: Option<Vec<u8>>)
    ensures
        r matches Some(v) ==> hex_decode_spec(s@) == Some(v@),
        r is None ==> hex_decode_spec(s@) is None,
{
    hex::decode(s).ok()
}

/// Relies on parity-scale-codec's `Decode` for `Option<Vec<u8>>`, read from the start of
/// the bytes; the result depends on the bytes alone.
#[verifier::external_body]
fn decode_option_bytes(data: &[u8]) -> (r: Option<Option<Vec<u8>>>)
    ensures
        r matches Some(Some(v)) ==> scale_option_bytes_of(data@) == Some(Some(v@)),
        r matches Some(None) ==> scale_option_bytes_of(data@) == Some(None::<Seq<u8>>),
        r is None ==> scale_option_bytes_of(data@) is None,
{
    <Option<Vec<u8>>>::decode(&mut &data[..]).ok()
}

/// The value in a decoded reply: present where the worker answered, an error where it
/// reported a failure or the reply could not be decoded.
pub fn stf_state_from_decoded(decoded: Option<Option<Vec<u8>>>) -> (r: Result<Vec<u8>, ()>)
    ensures
        decoded matches Some(Some(v)) ==> r matches Ok(w) && w@ == v@,
        !(decoded is Some && decoded.unwrap() is Some) ==> r is Err,
{
    match decoded {
        Some(Some(v)) => Ok(v),
        _ => Err(()),
    }
}

impl Api {
    /// A client of the worker at `url`.
    pub fn new(url: String) -> (r: Api)
        ensures
            r@ == url@,
    {
        Api { url }
    }

    /// The worker's address.
    pub fn url(&self) -> (r: &String)
        ensures
            r@ == self@,
    {
        &self.url
    }

    fn request(&self, request: ClientRequest) -> (r: WorkerRequest)
        ensures
            r.url@ == self@,
            r.request == request,
    {
        WorkerRequest { url: self.url.clone(), request }
    }

    /// The request for the port of the worker's mutual remote attestation server.
    pub fn get_mu_ra_port(&self) -> (r: WorkerRequest)
        ensures
            r.url@ == self@,
            r.request == ClientRequest::MuRaPortWorker,
    {
        self.request(ClientRequest::MuRaPortWorker)
    }

    /// The request for the worker's RSA public key.
    pub fn get_rsa_pubkey(&self) -> (r: WorkerRequest)
        ensures
            r.url@ == self@,
            r.request == ClientRequest::PubKeyWorker,
    {
        self.request(ClientRequest::PubKeyWorker)
    }

    /// The request for the answer to the encoded getter `getter` on `shard`.
    pub fn get_stf_state(&self, getter: Vec<u8>, shard: &ShardIdentifier) -> (r: WorkerRequest)
        ensures
            r.url@ == self@,
            r.request == ClientRequest::StfState(getter, *shard),
    {
        self.request(ClientRequest::StfState(getter, *shard))
    }

    /// The value in the worker's reply to a state request: hexadecimal text of an encoded
    /// optional byte string, whose absence means the worker failed.
    pub fn stf_state_from_reply(reply: Result<String, ()>) -> (r: Result<Vec<u8>, ()>)
        ensures
            reply is Err ==> r is Err,
            reply matches Ok(s) ==> match hex_decode_spec(vstd::utf8::encode_utf8(s@)) {
                None => r is Err,
                Some(b) => match scale_option_bytes_of(b) {
                    Some(Some(v)) => r matches Ok(w) && w@ == v,
                    _ => r is Err,
                },
            },
    {
        match reply {
            Err(()) => Err(()),
            Ok(s) => match hex_decode(s.as_str().as_bytes()) {
                None => Err(()),
                Some(b) => stf_state_from_decoded(decode_option_bytes(b.as_slice())),
            },
        }
    }
}

} // verus!

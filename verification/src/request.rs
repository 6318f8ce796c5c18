//! What the network sink is handed and what it hands back: the request that
//! delivers one payload, and the outcome of the exchange.

use vstd::prelude::*;
use crate::decimal::append_digits;
use crate::decimal::digits;
use crate::payload::SensorPayload;

verus! {

/// The name of the header that tells the kind of the body.
pub const CONTENT_TYPE_HEADER: &'static str = "content-type";

/// The kind of the body that the station declares.
pub const CONTENT_TYPE: &'static str = "text/plain";

/// The name of the header that tells the length of the body.
pub const CONTENT_LENGTH_HEADER: &'static str = "content-length";

/// The least status that tells of success.
pub const FIRST_SUCCESS_STATUS: u16 = 200;

/// The greatest status that tells of success.
pub const LAST_SUCCESS_STATUS: u16 = 299;

/// Why a payload was not delivered.
#[derive(Clone, Copy, Debug, PartialEq, Eq, Structural)]
pub enum TransportError {
    /// The endpoint could not be reached.
    ConnectFailed,
    /// The request could not be written out.
    WriteFailed,
    /// The response could not be read or decoded.
    DecodeFailed,
    /// The endpoint answered with a status other than success.
    NonSuccessStatus(u16),
}

/// Whether a response status tells of success.
pub open spec fn is_success(status: u16) -> bool {
    FIRST_SUCCESS_STATUS <= status <= LAST_SUCCESS_STATUS
}

/// The outcome of an exchange that ended with the given response status.
pub fn check_status(status: u16) -> (result: Result<(), TransportError>)
    ensures
        is_success(status) <==> result is Ok,
        !is_success(status) <==> result == Err::<(), TransportError>(
            TransportError::NonSuccessStatus(status),
        ),
{
    if FIRST_SUCCESS_STATUS <= status && status <= LAST_SUCCESS_STATUS {
        Ok(())
    } else {
        Err(TransportError::NonSuccessStatus(status))
    }
}

/// The request that delivers one payload: the payload as the body, and the
/// value of the length header, which is the number of the body's bytes in
/// decimal digits.
#[derive(Debug)]
pub struct PostRequest {
    length: Vec<u8>,
    body: SensorPayload,
}

impl PostRequest {
    /// The bytes of the body.
    pub closed spec fn body_text(&self) -> Seq<u8> {
        self.body@
    }

    /// The bytes of the length header's value.
    pub closed spec fn length_text(&self) -> Seq<u8> {
        self.length@
    }

    /// The request that delivers `payload`.
    pub fn new(payload: SensorPayload) -> (request: PostRequest)
        ensures
            request.body_text() == payload@,
            request.length_text() == digits(payload@.len()),
    {
        let mut length: Vec<u8> = Vec::new();
        append_digits(&mut length, payload.len() as u64);
        assert(length@ =~= digits(payload@.len()));
        PostRequest { length, body: payload }
    }

    /// The value of the header that tells the kind of the body.
    pub fn content_type(&self) -> (kind: &'static str)
        ensures
            kind@ == CONTENT_TYPE@,
    {
        CONTENT_TYPE
    }

    /// The value of the header that tells the length of the body.
    pub fn content_length(&self) -> (length: &[u8])
        ensures
            length@ == self.length_text(),
    {
        self.length.as_slice()
    }

    /// The body.
    pub fn body(&self) -> (body: &[u8])
        ensures
            body@ == self.body_text(),
    {
        self.body.as_bytes()
    }
}

} // verus!

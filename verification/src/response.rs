//! Logical command outcomes and their protocol-exact encoding.
//!
//! Every storage operation and every parse failure is recovered into a
//! `Response` value; `serialize` renders that value into the exact bytes the
//! protocol promises, so the connection layer only ever writes well-formed
//! replies.

use vstd::prelude::*;

verus! {

/// The outcome of handling one command.
#[derive(Debug, PartialEq, Eq)]
pub enum Response {
    /// A payload already rendered in protocol form (value blocks of a read,
    /// or the decimal result of a counter update).
    Value { value: Vec<u8> },
    /// The write was applied.
    Stored,
    /// The operation was refused by policy: an `add` on a live key, or a
    /// combine or counter update on an absent key.
    NotStored,
    /// The key was missing or expired where the operation demands a live one.
    NotFoundError,
    /// The durable engine failed, or a stored record was corrupt.
    ServerError,
    /// A recognized but unsupported command.
    NotImplemented,
    /// A policy refusal with a descriptive protocol line of its own, such
    /// as a counter update on a non-numeric payload; the line is sent to
    /// the client verbatim.
    ClientError { msg: Vec<u8> },
    /// A malformed command, with a human-readable reason.
    Error { msg: Box<String> },
}

/// The mathematical shape of a `Response`.
pub enum ResponseView {
    Value { value: Seq<u8> },
    Stored,
    NotStored,
    NotFoundError,
    ServerError,
    NotImplemented,
    ClientError { msg: Seq<u8> },
    Error { msg: Seq<char> },
}

impl View for Response {
    type V = ResponseView;

    open spec fn view(&self) -> ResponseView {
        match self {
            Response::Value { value } => ResponseView::Value { value: value@ },
            Response::Stored => ResponseView::Stored,
            Response::NotStored => ResponseView::NotStored,
            Response::NotFoundError => ResponseView::NotFoundError,
            Response::ServerError => ResponseView::ServerError,
            Response::NotImplemented => ResponseView::NotImplemented,
            Response::ClientError { msg } => ResponseView::ClientError { msg: msg@ },
            Response::Error { msg } => ResponseView::Error { msg: msg@ },
        }
    }
}

/// `STORED\r\n`
pub open spec fn stored_bytes() -> Seq<u8> {
    seq![83u8, 84u8, 79u8, 82u8, 69u8, 68u8, 13u8, 10u8]
}

/// `NOT_STORED\r\n`
pub open spec fn not_stored_bytes() -> Seq<u8> {
    seq![78u8, 79u8, 84u8, 95u8, 83u8, 84u8, 79u8, 82u8, 69u8, 68u8, 13u8, 10u8]
}

/// `NOT_FOUND\r\n`
pub open spec fn not_found_bytes() -> Seq<u8> {
    seq![78u8, 79u8, 84u8, 95u8, 70u8, 79u8, 85u8, 78u8, 68u8, 13u8, 10u8]
}

/// `SERVER_ERROR\r\n`
pub open spec fn server_error_bytes() -> Seq<u8> {
    seq![83u8, 69u8, 82u8, 86u8, 69u8, 82u8, 95u8, 69u8, 82u8, 82u8, 79u8, 82u8, 13u8, 10u8]
}

/// `NOT_IMPLEMENTED\r\n`
pub open spec fn not_implemented_bytes() -> Seq<u8> {
    seq![
        78u8,
        79u8,
        84u8,
        95u8,
        73u8,
        77u8,
        80u8,
        76u8,
        69u8,
        77u8,
        69u8,
        78u8,
        84u8,
        69u8,
        68u8,
        13u8,
        10u8,
    ]
}

/// `ERROR\r\n`
pub open spec fn error_bytes() -> Seq<u8> {
    seq![69u8, 82u8, 82u8, 79u8, 82u8, 13u8, 10u8]
}

/// The protocol bytes for a response.  A parse failure is always surfaced to
/// the client as the generic protocol error line, whatever its reason says.
pub open spec fn spec_serialize(r: ResponseView) -> Seq<u8> {
    match r {
        ResponseView::Value { value } => value,
        ResponseView::Stored => stored_bytes(),
        ResponseView::NotStored => not_stored_bytes(),
        ResponseView::NotFoundError => not_found_bytes(),
        ResponseView::ServerError => server_error_bytes(),
        ResponseView::NotImplemented => not_implemented_bytes(),
        ResponseView::ClientError { msg } => msg,
        ResponseView::Error { msg } => error_bytes(),
    }
}

impl Response {
    /// Renders this response into the exact bytes the protocol promises.
    pub fn serialize(&self) -> (r: Vec<u8>)
        ensures
            r@ == spec_serialize(self@),
    {
        match self {
            Response::Value { value } => vstd::slice::slice_to_vec(value.as_slice()),
            Response::Stored => {
                let v: Vec<u8> = vec![83u8, 84u8, 79u8, 82u8, 69u8, 68u8, 13u8, 10u8];
                proof {
                    assert(v@ =~= stored_bytes());
                }
                v
            },
            Response::NotStored => {
                let v: Vec<u8> = vec![
                    78u8,
                    79u8,
                    84u8,
                    95u8,
                    83u8,
                    84u8,
                    79u8,
                    82u8,
                    69u8,
                    68u8,
                    13u8,
                    10u8,
                ];
                proof {
                    assert(v@ =~= not_stored_bytes());
                }
                v
            },
            Response::NotFoundError => {
                let v: Vec<u8> = vec![78u8, 79u8, 84u8, 95u8, 70u8, 79u8, 85u8, 78u8, 68u8, 13u8, 10u8];
                proof {
                    assert(v@ =~= not_found_bytes());
                }
                v
            },
            Response::ServerError => {
                let v: Vec<u8> = vec![
                    83u8,
                    69u8,
                    82u8,
                    86u8,
                    69u8,
                    82u8,
                    95u8,
                    69u8,
                    82u8,
                    82u8,
                    79u8,
                    82u8,
                    13u8,
                    10u8,
                ];
                proof {
                    assert(v@ =~= server_error_bytes());
                }
                v
            },
            Response::NotImplemented => {
                let v: Vec<u8> = vec![
                    78u8,
                    79u8,
                    84u8,
                    95u8,
                    73u8,
                    77u8,
                    80u8,
                    76u8,
                    69u8,
                    77u8,
                    69u8,
                    78u8,
                    84u8,
                    69u8,
                    68u8,
                    13u8,
                    10u8,
                ];
                proof {
                    assert(v@ =~= not_implemented_bytes());
                }
                v
            },
            Response::ClientError { msg } => vstd::slice::slice_to_vec(msg.as_slice()),
            Response::Error { msg } => {
                let v: Vec<u8> = vec![69u8, 82u8, 82u8, 79u8, 82u8, 13u8, 10u8];
                proof {
                    assert(v@ =~= error_bytes());
                }
                v
            },
        }
    }
}

} // verus!

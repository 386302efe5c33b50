//! The message handler behind the `rpc` and `p2p` commands, which refuses
//! every RPC request and the channel messages it does not support.
use vstd::prelude::*;

verus! {

/// The endpoints a handler answers on.
pub struct MockEndpoints;

/// A handler that supports no RPC request and only part of the peer messages.
pub struct MockHandler;

/// Why a handler refused a message.
#[derive(Debug, Clone, Copy, PartialEq, Eq, Structural)]
pub enum HandlerError {
    /// The message is not one the handler serves (`wrong_esb_msg`).
    WrongEsbMsg,
}

impl HandlerError {
    /// The error's text.
    pub fn message(&self) -> (r: &'static str)
        ensures
            r@ == "wrong_esb_msg"@,
    {
        "wrong_esb_msg"
    }
}

/// How the handler treats a peer message.
#[derive(Debug, Clone, Copy, PartialEq, Eq, Structural)]
pub enum P2pMessageKind {
    /// `OpenChannel`: accepted, though not expected.
    OpenChannel,
    /// A channel message the handler does not support.
    Unsupported,
    /// Anything else: ignored.
    Other,
}

/// The channel messages that the handler refuses.
pub open spec fn is_unsupported_p2p(message: Seq<char>) -> bool {
    ||| message == "FundingLocked"@
    ||| message == "ChannelReestablish"@
    ||| message == "AcceptChannel"@
    ||| message == "FundingCreated"@
    ||| message == "FundingSigned"@
}

pub open spec fn p2p_message_kind(message: Seq<char>) -> P2pMessageKind {
    if message == "OpenChannel"@ {
        P2pMessageKind::OpenChannel
    } else if is_unsupported_p2p(message) {
        P2pMessageKind::Unsupported
    } else {
        P2pMessageKind::Other
    }
}

/// How the handler treats the peer message `message`.
pub fn classify_p2p(message: &str) -> (r: P2pMessageKind)
    ensures
        r == p2p_message_kind(message@),
{
    if crate::text::str_eq(message, "OpenChannel") {
        P2pMessageKind::OpenChannel
    } else if crate::text::str_eq(message, "FundingLocked") || crate::text::str_eq(
        message,
        "ChannelReestablish",
    ) || crate::text::str_eq(message, "AcceptChannel") || crate::text::str_eq(
        message,
        "FundingCreated",
    ) || crate::text::str_eq(message, "FundingSigned") {
        P2pMessageKind::Unsupported
    } else {
        P2pMessageKind::Other
    }
}

impl MockHandler {
    /// Answers an RPC request from a client; no request is supported.
    pub fn handle_rpc(&mut self, endpoints: &mut MockEndpoints, client_id: u64, request: &str) -> (r:
        Result<(), HandlerError>)
        ensures
            r == Err::<(), HandlerError>(HandlerError::WrongEsbMsg),
    {
        Err(HandlerError::WrongEsbMsg)
    }

    /// Answers a message from a peer: refuses the unsupported channel
    /// messages and accepts everything else.
    pub fn handle_p2p(&mut self, endpoints: &mut MockEndpoints, remote_id: &str, message: &str) -> (r:
        Result<(), HandlerError>)
        ensures
            is_unsupported_p2p(message@) ==> r == Err::<(), HandlerError>(HandlerError::WrongEsbMsg),
            !is_unsupported_p2p(message@) ==> r == Ok::<(), HandlerError>(()),
    {
        proof {
            reveal_strlit("OpenChannel");
            reveal_strlit("FundingLocked");
            reveal_strlit("ChannelReestablish");
            reveal_strlit("AcceptChannel");
            reveal_strlit("FundingCreated");
            reveal_strlit("FundingSigned");
            assert("OpenChannel"@.len() == 11);
            assert("FundingLocked"@.len() == 13);
            assert(!is_unsupported_p2p("OpenChannel"@));
        }
        match classify_p2p(message) {
            P2pMessageKind::Unsupported => Err(HandlerError::WrongEsbMsg),
            P2pMessageKind::OpenChannel => Ok(()),
            P2pMessageKind::Other => Ok(()),
        }
    }
}

} // verus!

//! The connection handshake, as a state machine.
//!
//! The I/O itself — opening the stream, the read loop, the bounded outbound
//! queue — lives with the caller; this module decides. The sequence is
//! fixed: send a handshake carrying the desired username, wait for the
//! echoed handshake, and only if the server echoes the literal `"-"` (its
//! legacy authentication placeholder) send the login packet. Any other echo
//! fails the connection before a login is ever produced.

use vstd::prelude::*;

use crate::codec::{parse_u8, DecodeError, Reader};
use crate::packets::{
    handshake_bytes, login_bytes, parse_handshake, Handshake, HandshakeView, Login, LoginView,
    PROTOCOL_VERSION,
};
use crate::text::utf16_units;

verus! {

/// Where a connection stands. Errors are terminal.
#[derive(Debug, Clone, Copy, PartialEq, Eq, Structural)]
pub enum ConnectionPhase {
    /// The stream is being opened; nothing sent yet.
    Connecting,
    /// Our handshake is on the wire; waiting for the echo.
    Handshaking,
    /// The echo was accepted and the login packet produced.
    Established,
    /// The server echoed something other than the expected sentinel.
    Failed,
}

/// Why a handshake was rejected.
#[derive(Debug, Clone, Copy, PartialEq, Eq, Structural)]
pub enum HandshakeError {
    /// The echoed username was not the authentication sentinel.
    AuthRejected,
}

/// The login/handshake sequence for one connection attempt.
pub struct HandshakeFlow {
    username: String,
    phase: ConnectionPhase,
}

impl HandshakeFlow {
    pub closed spec fn spec_phase(&self) -> ConnectionPhase {
        self.phase
    }

    pub closed spec fn spec_username(&self) -> Seq<char> {
        self.username@
    }

    pub fn new(username: String) -> (r: HandshakeFlow)
        ensures
            r.spec_phase() == ConnectionPhase::Connecting,
            r.spec_username() == username@,
    {
        HandshakeFlow { username, phase: ConnectionPhase::Connecting }
    }

    pub fn phase(&self) -> (r: ConnectionPhase)
        ensures
            r == self.spec_phase(),
    {
        self.phase
    }

    /// The framed handshake to send once the stream is open.
    pub fn handshake_packet(&mut self) -> (r: Vec<u8>)
        requires
            old(self).spec_phase() == ConnectionPhase::Connecting,
            utf16_units(old(self).spec_username()).len() <= 0x7FFF,
        ensures
            final(self).spec_phase() == ConnectionPhase::Handshaking,
            final(self).spec_username() == old(self).spec_username(),
            r@ == handshake_bytes(HandshakeView { username: old(self).spec_username() }),
    {
        self.phase = ConnectionPhase::Handshaking;
        let packet = Handshake { username: self.username.clone() };
        packet.serialize()
    }

    /// Judges the echoed handshake. The connection is established, and the
    /// framed login packet produced, exactly when the server echoed the
    /// literal `"-"`; any other echo fails the connection and no login is
    /// ever sent.
    pub fn on_handshake_reply(&mut self, reply: &Handshake) -> (r: Result<Vec<u8>, HandshakeError>)
        requires
            old(self).spec_phase() == ConnectionPhase::Handshaking,
            utf16_units(old(self).spec_username()).len() <= 0x7FFF,
        ensures
            final(self).spec_username() == old(self).spec_username(),
            r is Ok <==> reply.username@ == seq!['-'],
            match r {
                Ok(bytes) => final(self).spec_phase() == ConnectionPhase::Established && bytes@
                    == login_bytes(
                    LoginView {
                        protocol_version: PROTOCOL_VERSION,
                        username: old(self).spec_username(),
                        seed: 0,
                        dimension: 0,
                    },
                ),
                Err(e) => final(self).spec_phase() == ConnectionPhase::Failed && e
                    == HandshakeError::AuthRejected,
            },
    {
        let sentinel = String::from_str("-");
        proof {
            reveal_strlit("-");
            assert(sentinel@ =~= seq!['-']);
        }
        if reply.username == sentinel {
            self.phase = ConnectionPhase::Established;
            let login = Login {
                protocol_version: PROTOCOL_VERSION,
                username: self.username.clone(),
                seed: 0,
                dimension: 0,
            };
            Ok(login.serialize())
        } else {
            self.phase = ConnectionPhase::Failed;
            Err(HandshakeError::AuthRejected)
        }
    }
}

/// Reads the framed handshake echo: the handshake identifier byte, then the
/// echoed username. Any other identifier is a fatal protocol error.
pub fn read_handshake_reply(r: &mut Reader) -> (res: Result<Handshake, DecodeError>)
    requires
        old(r).wf(),
    ensures
        final(r).wf(),
        match res {
            Ok(p) => (parse_u8(old(r).bytes(), old(r).spec_pos()) matches Ok(q) && q.0 == 2 && (
            parse_handshake(old(r).bytes(), q.1) matches Ok(h) && h.0 == p@ && h.1
                == final(r).spec_pos())),
            Err(e) => match parse_u8(old(r).bytes(), old(r).spec_pos()) {
                Err(e2) => e == e2,
                Ok((id, j)) => if id != 2 {
                    e == DecodeError::UnknownPacketId(id)
                } else {
                    parse_handshake(old(r).bytes(), j) == Err::<(HandshakeView, int), _>(e)
                },
            },
        },
{
    let id = match r.read_u8() {
        Ok(v) => v,
        Err(e) => {
            return Err(e);
        },
    };
    if id != 2 {
        return Err(DecodeError::UnknownPacketId(id));
    }
    Handshake::deserialize(r)
}

} // verus!

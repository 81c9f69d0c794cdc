//! The slot that holds the single live connection, shared by the connection
//! loop (which fills and empties it) and by anyone who sends.

use vstd::prelude::*;
use crate::wire::{encode, length_packet, data_packet};
use vstd::utf8::encode_utf8;

verus! {

/// The current connection to the peer, if one is open.
pub struct Channel<C> {
    slot: Option<C>,
}

impl<C> View for Channel<C> {
    type V = Option<C>;

    closed spec fn view(&self) -> Option<C> {
        self.slot
    }
}

impl<C> Channel<C> {
    /// A slot with no connection.
    pub fn new() -> (r: Self)
        ensures
            r@ is None,
    {
        Channel { slot: None }
    }

    /// Publishes `conn` as the current connection, in place of any other.
    pub fn install(&mut self, conn: C)
        ensures
            final(self)@ == Some(conn),
    {
        self.slot = Some(conn);
    }

    /// The current connection, if there is one.
    pub fn current(&self) -> (r: Option<&C>)
        ensures
            r is Some <==> self@ is Some,
            r matches Some(c) ==> self@ == Some(*c),
    {
        match &self.slot {
            Some(c) => Some(c),
            None => None,
        }
    }

    /// Drops the current connection; nothing happens if there is none.
    pub fn clear(&mut self)
        ensures
            final(self)@ is None,
    {
        self.slot = None;
    }

    /// Whether a connection is open.
    pub fn is_connected(&self) -> (r: bool)
        ensures
            r == self@ is Some,
    {
        self.slot.is_some()
    }

    /// Sends `message` on the current connection: `write` is handed the
    /// length packet and, if that went out, the data packet. Fails when
    /// there is no connection or a write fails; it never retries.
    pub fn send<W: Fn(&C, Vec<u8>) -> bool>(&self, message: &str, write: W) -> (r: bool)
        requires
            forall|c: &C, b: Vec<u8>| #[trigger] write.requires((c, b)),
        ensures
            self@ is None ==> !r,
            r ==> (self@ matches Some(c) && exists|h: Vec<u8>, d: Vec<u8>|
                h@ == length_packet(encode_utf8(message@).len() as u64) && d@ == data_packet(
                    encode_utf8(message@),
                ) && #[trigger] write.ensures((&c, h), true) && #[trigger] write.ensures(
                    (&c, d),
                    true,
                )),
            !r && self@ is Some ==> (self@ matches Some(c) && ((exists|h: Vec<u8>|
                h@ == length_packet(encode_utf8(message@).len() as u64)
                    && #[trigger] write.ensures((&c, h), false)) || ((exists|h: Vec<u8>|
                h@ == length_packet(encode_utf8(message@).len() as u64)
                    && #[trigger] write.ensures((&c, h), true)) && (exists|d: Vec<u8>|
                d@ == data_packet(encode_utf8(message@)) && #[trigger] write.ensures(
                    (&c, d),
                    false,
                ))))),
    {
        match &self.slot {
            None => false,
            Some(c) => {
                let (head, body) = encode(message);
                let ghost h = head;
                let ghost d = body;
                if !write(c, head) {
                    assert(write.ensures((c, h), false));
                    return false;
                }
                let ok = write(c, body);
                assert(ok ==> write.ensures((c, h), true) && write.ensures((c, d), true));
                assert(!ok ==> write.ensures((c, h), true) && write.ensures((c, d), false));
                ok
            },
        }
    }
}

} // verus!

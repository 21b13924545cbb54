//! The accumulation buffer: bytes from the wire go in at the back, whole
//! messages come out at the front.

use crate::framing::lemma_message;
use crate::grammar::{message, Outcome};
use crate::parser;
use crate::protocol::Response;
use moveslice::Moveslice;
use vstd::prelude::*;
use vstd::slice::slice_subrange;

verus! {

/// The number of bytes that the buffer can hold.
pub const CAPACITY: usize = 4096;

/// A fixed store of bytes that have arrived and have not been recognized as
/// a message yet.
pub struct Buffer {
    buffer: [u8; 4096],
    pos: usize,
    needs_parse: bool,
}

/// `moveslice` of the crate of that name, for a move toward the front: the
/// bytes from `start` up to `end` come to stand at `destination`, the bytes
/// that stood between `destination` and `start` follow them, and every other
/// byte stays where it is.
#[verifier::external_body]
fn moveslice(buffer: &mut [u8; 4096], start: usize, end: usize, destination: usize)
    requires
        destination <= start <= end <= 4096,
    ensures
        final(buffer)@ == old(buffer)@.subrange(0, destination as int) + old(buffer)@.subrange(
            start as int,
            end as int,
        ) + old(buffer)@.subrange(destination as int, start as int) + old(buffer)@.subrange(
            end as int,
            4096,
        ),
    no_unwind
{
    buffer.moveslice(start..end, destination);
}

/// What a buffer holds once `octet` has been offered to it.
pub open spec fn pushed(content: Seq<u8>, octet: u8) -> Seq<u8> {
    if content.len() < CAPACITY {
        content.push(octet)
    } else {
        content
    }
}

/// What a buffer holds once each of `octets` has been offered to it in turn.
pub open spec fn pushed_all(content: Seq<u8>, octets: Seq<u8>) -> Seq<u8>
    decreases octets.len(),
{
    if octets.len() == 0 {
        content
    } else {
        pushed_all(pushed(content, octets[0]), octets.skip(1))
    }
}

/// Bytes that fit are all taken, in order.
pub proof fn lemma_pushed_all_fits(content: Seq<u8>, octets: Seq<u8>)
    requires
        content.len() + octets.len() <= CAPACITY,
    ensures
        pushed_all(content, octets) == content + octets,
    decreases octets.len(),
{
    if octets.len() > 0 {
        lemma_pushed_all_fits(content.push(octets[0]), octets.skip(1));
    }
}

/// An empty buffer takes as many bytes as its capacity, and the byte offered
/// after them changes nothing of what it holds.
pub proof fn lemma_overflow(octets: Seq<u8>)
    requires
        octets.len() == CAPACITY + 1,
    ensures
        pushed_all(Seq::empty(), octets.take(CAPACITY as int)) == octets.take(CAPACITY as int),
        pushed_all(Seq::empty(), octets) == octets.take(CAPACITY as int),
{
    let taken = octets.take(CAPACITY as int);
    lemma_pushed_all_fits(Seq::empty(), taken);
    lemma_pushed_all_split(Seq::empty(), taken, octets.skip(CAPACITY as int));
    assert(taken + octets.skip(CAPACITY as int) =~= octets);
    let last = octets.skip(CAPACITY as int);
    assert(pushed_all(taken, last) == pushed_all(pushed(taken, last[0]), last.skip(1)));
}

/// Offering bytes in two runs is offering them in one.
pub proof fn lemma_pushed_all_split(content: Seq<u8>, first: Seq<u8>, second: Seq<u8>)
    ensures
        pushed_all(content, first + second) == pushed_all(pushed_all(content, first), second),
    decreases first.len(),
{
    if first.len() > 0 {
        lemma_pushed_all_split(pushed(content, first[0]), first.skip(1), second);
        assert((first + second).skip(1) =~= first.skip(1) + second);
    }
}

impl Buffer {
    /// The write cursor stays within the store, and a buffer that is not
    /// marked for parsing starts with no message.
    #[verifier::type_invariant]
    spec fn consistent(self) -> bool {
        &&& self.pos <= CAPACITY
        &&& !self.needs_parse ==> !(message(self.buffer@.subrange(0, self.pos as int)) is Complete)
    }

    /// The bytes that the buffer holds, oldest first.
    pub closed spec fn view(&self) -> Seq<u8> {
        self.buffer@.subrange(0, self.pos as int)
    }

    /// Whether bytes have arrived since the buffer was last searched.
    pub closed spec fn dirty(&self) -> bool {
        self.needs_parse
    }

    /// An empty buffer.
    pub fn new() -> (buffer: Self)
        ensures
            buffer@ == Seq::<u8>::empty(),
            !buffer.dirty(),
    {
        proof {
            lemma_message(Seq::empty(), Seq::empty());
        }
        let store = [0u8;4096];
        assert(store@.subrange(0, 0) =~= Seq::<u8>::empty());
        Buffer { buffer: store, pos: 0, needs_parse: false }
    }

    /// Appends `octet`, and marks the buffer dirty. A full buffer rejects
    /// the byte, hands it back and stays as it is.
    pub fn write(&mut self, octet: u8) -> (written: Result<(), u8>)
        ensures
            old(self)@.len() <= CAPACITY,
            final(self)@ == pushed(old(self)@, octet),
            old(self)@.len() < CAPACITY ==> written == Ok::<(), u8>(()) && final(self).dirty(),
            old(self)@.len() >= CAPACITY ==> written == Err::<(), u8>(octet) && *final(self)
                == *old(self),
    {
        proof {
            use_type_invariant(&*self);
        }
        if self.pos >= 4096 {
            Err(octet)
        } else {
            self.needs_parse = true;
            self.buffer[self.pos] = octet;
            self.pos += 1;
            Ok(())
        }
    }

    /// Searches a dirty buffer for a message at its front.
    ///
    /// Where the buffer starts with a message, the message comes back and
    /// leaves the buffer, whose other bytes move to the front; the buffer
    /// stays dirty as long as bytes are left. Where it does not, the result
    /// is `Response::Nothing`, the bytes stay, and the buffer is clean until
    /// the next byte arrives.
    pub fn parse(&mut self) -> (parsed: Result<Response, ()>)
        ensures
            old(self)@.len() <= CAPACITY,
            match message(old(self)@) {
                Outcome::Complete { response, consumed } => {
                    &&& parsed == Ok::<Response, ()>(response)
                    &&& 0 < consumed <= old(self)@.len()
                    &&& final(self)@ == old(self)@.skip(consumed)
                    &&& final(self).dirty() == (final(self)@.len() > 0)
                },
                _ => {
                    &&& parsed == Ok::<Response, ()>(Response::Nothing)
                    &&& final(self)@ == old(self)@
                    &&& !final(self).dirty()
                },
            },
    {
        proof {
            use_type_invariant(&*self);
            lemma_message(old(self)@, Seq::empty());
            lemma_message(Seq::empty(), Seq::empty());
        }
        if self.pos == 0 {
            self.needs_parse = false;
            return Ok(Response::Nothing);
        }
        if !self.needs_parse {
            return Ok(Response::Nothing);
        }
        let window = slice_subrange(self.buffer.as_slice(), 0, self.pos);
        match parser::parse(window) {
            Ok((response, consumed)) => {
                if consumed < self.pos {
                    moveslice(&mut self.buffer, consumed, self.pos, 0);
                    self.pos = self.pos - consumed;
                } else {
                    self.pos = 0;
                    assert(self@ =~= Seq::<u8>::empty());
                    self.needs_parse = false;
                }
                Ok(response)
            },
            Err(_) => {
                self.needs_parse = false;
                Ok(Response::Nothing)
            },
        }
    }
}

} // verus!

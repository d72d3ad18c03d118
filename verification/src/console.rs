//! What to do with a byte that arrives on the serial line.
//!
//! Bytes are collected in a buffer until a line feed arrives. Two ways of
//! collecting are offered. `echo` answers every byte: it folds lower-case
//! letters to upper case, sends each byte back as it stores it, and at the
//! line feed sends the line back in reverse and empties the buffer.
//! `collect` stores the bytes as they are and says when a line is complete.

use vstd::prelude::*;

verus! {

/// The byte that ends a line.
pub const LINE_FEED: u8 = 10;

/// `b` with a lower-case ASCII letter folded to upper case.
pub open spec fn upper(b: u8) -> u8 {
    if 97 <= b <= 122 {
        (b - 32) as u8
    } else {
        b
    }
}

/// What `echo` sends back for `data` when the buffer holds `buffer`.
pub open spec fn echoed(buffer: Seq<u8>, data: u8) -> Seq<u8> {
    if data == LINE_FEED {
        buffer.reverse().push(LINE_FEED)
    } else {
        seq![upper(data)]
    }
}

/// What `echo` leaves in the buffer.
pub open spec fn after_echo(buffer: Seq<u8>, data: u8) -> Seq<u8> {
    if data == LINE_FEED {
        Seq::empty()
    } else {
        buffer.push(upper(data))
    }
}

/// Folds a lower-case ASCII letter to upper case.
pub fn to_upper(b: u8) -> (r: u8)
    ensures
        r == upper(b),
{
    if b >= 97 && b <= 122 {
        b - 32
    } else {
        b
    }
}

/// Takes a byte from the line and returns the bytes to send back.
pub fn echo(buffer: &mut Vec<u8>, data: u8) -> (sent: Vec<u8>)
    ensures
        sent@ == echoed(old(buffer)@, data),
        final(buffer)@ == after_echo(old(buffer)@, data),
{
    let mut sent: Vec<u8> = Vec::new();
    if data == LINE_FEED {
        let ghost line = buffer@;
        loop
            invariant
                buffer@.len() <= line.len(),
                buffer@ == line.subrange(0, buffer@.len() as int),
                sent@ == line.subrange(buffer@.len() as int, line.len() as int).reverse(),
            ensures
                buffer@.len() == 0,
            decreases buffer@.len(),
        {
            let ghost before = buffer@;
            match buffer.pop() {
                Some(b) => {
                    sent.push(b);
                    proof {
                        assert(buffer@ =~= line.subrange(0, buffer@.len() as int));
                        assert(sent@ =~= line.subrange(buffer@.len() as int, line.len() as int).reverse());
                    }
                },
                None => {
                    break ;
                },
            }
        }
        sent.push(LINE_FEED);
        proof {
            assert(line.subrange(0, line.len() as int) =~= line);
            assert(buffer@ =~= Seq::<u8>::empty());
        }
    } else {
        let b = to_upper(data);
        buffer.push(b);
        sent.push(b);
        proof {
            assert(sent@ =~= seq![b]);
        }
    }
    sent
}

/// Takes a byte from the line. A line feed completes the line and is not
/// stored; any other byte is stored as it is.
pub fn collect(buffer: &mut Vec<u8>, data: u8) -> (complete: bool)
    ensures
        complete == (data == LINE_FEED),
        final(buffer)@ == if data == LINE_FEED {
            old(buffer)@
        } else {
            old(buffer)@.push(data)
        },
{
    if data == LINE_FEED {
        true
    } else {
        buffer.push(data);
        false
    }
}

} // verus!

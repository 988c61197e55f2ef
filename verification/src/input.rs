//! The keyboard input buffer and the line editor.
//!
//! Bytes received on the serial line are pushed into a bounded lock-free
//! queue from interrupt context and consumed by [`get_line`], which edits a
//! line: printable bytes append (up to 128), backspace and DEL erase, and a
//! carriage return completes the line. Echoing what was typed is the serial
//! port's business, outside this module; [`backspace`] supplies the byte
//! sequence that erases one character on the terminal.

use vstd::prelude::*;

use crossbeam_queue::ArrayQueue;

verus! {

/// Specification for crossbeam's bounded lock-free FIFO.
#[verifier::external_type_specification]
#[verifier::external_body]
#[verifier::reject_recursive_types(T)]
pub struct ExArrayQueue<T>(ArrayQueue<T>);

/// The bytes queued, front (oldest) first.
pub uninterp spec fn queue_elems(q: ArrayQueue<u8>) -> Seq<u8>;

/// The fixed capacity the queue was created with.
pub uninterp spec fn queue_capacity(q: ArrayQueue<u8>) -> usize;

/// Relies on crossbeam's `ArrayQueue::new`: creates an empty bounded queue
/// of the given capacity. It panics on capacity zero (and on capacities too
/// large for its index encoding), so small positive capacities are required.
#[verifier::external_body]
fn queue_new(cap: usize) -> (r: ArrayQueue<u8>)
    requires
        1 <= cap <= 0x10000,
    ensures
        queue_elems(r) == Seq::<u8>::empty(),
        queue_capacity(r) == cap,
{
    ArrayQueue::new(cap)
}

/// Relies on crossbeam's `ArrayQueue::push`: appends the value at the back,
/// or hands it back in `Err` when the queue already holds `capacity`
/// elements. Exclusive access makes the queue a plain FIFO.
#[verifier::external_body]
fn queue_push(q: &mut ArrayQueue<u8>, value: u8) -> (r: Result<(), u8>)
    ensures
        match r {
            Ok(()) => queue_elems(*old(q)).len() < queue_capacity(*old(q))
                && queue_elems(*final(q)) == queue_elems(*old(q)).push(value)
                && queue_capacity(*final(q)) == queue_capacity(*old(q)),
            Err(v) => v == value && queue_elems(*old(q)).len() >= queue_capacity(*old(q))
                && queue_elems(*final(q)) == queue_elems(*old(q))
                && queue_capacity(*final(q)) == queue_capacity(*old(q)),
        },
{
    q.push(value)
}

/// Relies on crossbeam's `ArrayQueue::pop`: removes and returns the front
/// element, or `None` when the queue is empty. Exclusive access makes the
/// queue a plain FIFO.
#[verifier::external_body]
fn queue_pop(q: &mut ArrayQueue<u8>) -> (r: Option<u8>)
    ensures
        match r {
            None => queue_elems(*old(q)).len() == 0
                && queue_elems(*final(q)) == queue_elems(*old(q))
                && queue_capacity(*final(q)) == queue_capacity(*old(q)),
            Some(b) => queue_elems(*old(q)).len() > 0 && b == queue_elems(*old(q))[0]
                && queue_elems(*final(q)) == queue_elems(*old(q)).drop_first()
                && queue_capacity(*final(q)) == queue_capacity(*old(q)),
        },
{
    q.pop()
}

/// How many bytes the input buffer holds at most.
pub const INPUT_BUF_SIZE: usize = 128;

/// How long an edited line may grow.
pub const MAX_LINE_LENGTH: usize = 128;

/// The buffer between the serial-receive interrupt and the line editor.
pub struct InputBuffer {
    pub queue: ArrayQueue<u8>,
}

impl InputBuffer {
    /// The buffered bytes, oldest first.
    pub open spec fn contents(self) -> Seq<u8> {
        queue_elems(self.queue)
    }

    /// The buffer's fixed capacity.
    pub open spec fn capacity(self) -> usize {
        queue_capacity(self.queue)
    }

    /// An empty buffer of the standard 128-byte capacity.
    pub fn new() -> (r: InputBuffer)
        ensures
            r.contents() == Seq::<u8>::empty(),
            r.capacity() == INPUT_BUF_SIZE,
    {
        InputBuffer { queue: queue_new(INPUT_BUF_SIZE) }
    }
}

/// Deposit a received byte in the input buffer. When the buffer is full the
/// byte is dropped (the caller logs a warning); the result says whether the
/// byte was kept.
pub fn push_key(buf: &mut InputBuffer, key: u8) -> (r: bool)
    ensures
        final(buf).capacity() == old(buf).capacity(),
        old(buf).contents().len() < old(buf).capacity() ==> r
            && final(buf).contents() == old(buf).contents().push(key),
        old(buf).contents().len() >= old(buf).capacity() ==> !r
            && final(buf).contents() == old(buf).contents(),
{
    match queue_push(&mut buf.queue, key) {
        Ok(_) => true,
        Err(_) => {
            // buffer full: warn and drop the byte
            false
        },
    }
}

/// Take the oldest buffered byte, if there is one.
pub fn try_pop_key(buf: &mut InputBuffer) -> (r: Option<u8>)
    ensures
        final(buf).capacity() == old(buf).capacity(),
        old(buf).contents().len() == 0 ==> r is None
            && final(buf).contents() == old(buf).contents(),
        old(buf).contents().len() > 0 ==> r == Some(old(buf).contents()[0])
            && final(buf).contents() == old(buf).contents().drop_first(),
{
    queue_pop(&mut buf.queue)
}

/// Take the oldest buffered byte. The buffer must not be empty; waiting for
/// a byte to arrive is the caller's loop (it halts between polls).
pub fn pop_key(buf: &mut InputBuffer) -> (r: u8)
    requires
        old(buf).contents().len() > 0,
    ensures
        final(buf).capacity() == old(buf).capacity(),
        r == old(buf).contents()[0],
        final(buf).contents() == old(buf).contents().drop_first(),
{
    match try_pop_key(buf) {
        Some(k) => k,
        None => vstd::pervasive::unreached(),
    }
}

/// The byte sequence that erases one character on the terminal: backspace,
/// space, backspace. The caller sends it to the serial port.
pub fn backspace() -> (r: Vec<u8>)
    ensures
        r@ == seq![8u8, 32u8, 8u8],
{
    let mut v: Vec<u8> = Vec::new();
    v.push(8);
    v.push(32);
    v.push(8);
    proof {
        assert(v@ =~= seq![8u8, 32u8, 8u8]);
    }
    v
}

/// What feeding `keys` into a line editor holding `line` produces: the line
/// afterwards, the keys left unconsumed, and whether the line is complete.
/// A full line is complete as it stands; a carriage return completes it and
/// is consumed; backspace and DEL erase the last character; anything else
/// appends.
pub open spec fn spec_edit(keys: Seq<u8>, line: Seq<u8>) -> (Seq<u8>, Seq<u8>, bool)
    decreases keys.len(),
{
    if line.len() >= MAX_LINE_LENGTH {
        (line, keys, true)
    } else if keys.len() == 0 {
        (line, keys, false)
    } else {
        let k = keys[0];
        if k == 13 {
            (line, keys.drop_first(), true)
        } else if k == 8 || k == 127 {
            spec_edit(
                keys.drop_first(),
                if line.len() > 0 {
                    line.drop_last()
                } else {
                    line
                },
            )
        } else {
            spec_edit(keys.drop_first(), line.push(k))
        }
    }
}

/// Edit `line` with the keys buffered so far. Returns whether the line is
/// complete: a carriage return arrived (and was consumed) or the line
/// reached its maximal length. With `false`, the buffer ran dry first; the
/// caller halts until more input arrives and calls again with the same
/// line.
pub fn get_line(buf: &mut InputBuffer, line: &mut Vec<u8>) -> (r: bool)
    ensures
        final(buf).capacity() == old(buf).capacity(),
        ({
            let (l, rest, done) = spec_edit(old(buf).contents(), old(line)@);
            &&& final(line)@ == l
            &&& final(buf).contents() == rest
            &&& r == done
        }),
{
    loop
        invariant
            buf.capacity() == old(buf).capacity(),
            spec_edit(buf.contents(), line@) == spec_edit(old(buf).contents(), old(line)@),
        decreases buf.contents().len(),
    {
        if line.len() >= MAX_LINE_LENGTH {
            return true;
        }
        match try_pop_key(buf) {
            None => {
                return false;
            },
            Some(k) => {
                if k == 13 {
                    return true;
                } else if k == 8 || k == 127 {
                    if line.len() > 0 {
                        line.pop();
                    }
                } else {
                    line.push(k);
                }
            },
        }
    }
}

} // verus!

//! The wire format: one record per line. A record's encoding is a run of
//! bytes without a line feed; on the wire it is followed by one line feed.
//! Nothing else marks where a record ends, so the format needs no length
//! prefix and a reader finds the next record again after any line.

use vstd::prelude::*;

verus! {

/// The byte that ends every record on the wire.
pub const LINE_FEED: u8 = 10;

/// The payload fits on one line: no byte of it is a line feed.
pub open spec fn single_line(payload: Seq<u8>) -> bool {
    forall|i: int| 0 <= i < payload.len() ==> payload[i] != LINE_FEED
}

/// A payload as it travels: followed by one line feed.
pub open spec fn framed(payload: Seq<u8>) -> Seq<u8> {
    payload.push(LINE_FEED)
}

/// Why some bytes are not one full line.
#[derive(Debug, Clone, Copy, PartialEq, Eq)]
pub enum FrameError {
    /// There are no bytes: the stream has ended.
    EndOfStream,
    /// The last byte is not a line feed: the stream ended inside a record.
    Incomplete,
    /// A line feed stands before the last byte: this is more than one line.
    Multiple,
}

/// What `unframe` owes for the bytes of `line`.
pub open spec fn unframed(line: Seq<u8>) -> Result<Seq<u8>, FrameError> {
    if line.len() == 0 {
        Err(FrameError::EndOfStream)
    } else if line.last() != LINE_FEED {
        Err(FrameError::Incomplete)
    } else if !single_line(line.drop_last()) {
        Err(FrameError::Multiple)
    } else {
        Ok(line.drop_last())
    }
}

/// Whether `payload` holds no line feed, so that it can travel as one
/// record.
pub fn is_single_line(payload: &Vec<u8>) -> (fits: bool)
    ensures
        fits == single_line(payload@),
{
    let mut i: usize = 0;
    while i < payload.len()
        invariant
            i <= payload.len(),
            forall|j: int| 0 <= j < i ==> payload@[j] != LINE_FEED,
        decreases payload.len() - i,
    {
        if payload[i] == LINE_FEED {
            return false;
        }
        i += 1;
    }
    true
}

/// Turns an encoded record into the bytes to write: the record followed by
/// the line feed that ends it.
pub fn frame(payload: Vec<u8>) -> (line: Vec<u8>)
    ensures
        line@ == framed(payload@),
{
    let mut line = payload;
    line.push(LINE_FEED);
    line
}

/// Takes the record out of what one read of a line gave. The bytes must be
/// one full line: a run of bytes without a line feed, then the line feed.
/// Anything else is refused, and the error tells why.
pub fn unframe(line: Vec<u8>) -> (payload: Result<Vec<u8>, FrameError>)
    ensures
        payload is Ok <==> unframed(line@) is Ok,
        payload matches Ok(bytes) ==> unframed(line@) == Ok::<Seq<u8>, FrameError>(bytes@),
        payload matches Err(error) ==> unframed(line@) == Err::<Seq<u8>, FrameError>(error),
{
    let mut bytes = line;
    match bytes.pop() {
        None => Err(FrameError::EndOfStream),
        Some(last) => {
            assert(bytes@ =~= line@.drop_last());
            if last != LINE_FEED {
                Err(FrameError::Incomplete)
            } else if !is_single_line(&bytes) {
                Err(FrameError::Multiple)
            } else {
                Ok(bytes)
            }
        },
    }
}

/// Round trip. Every payload that fits on one line comes back unchanged
/// from its framed form.
pub proof fn lemma_round_trip(payload: Seq<u8>)
    requires
        single_line(payload),
    ensures
        unframed(framed(payload)) == Ok::<Seq<u8>, FrameError>(payload),
{
    assert(framed(payload).drop_last() =~= payload);
}

/// The framed form is the only line that gives a payload back: what
/// `unframed` accepts is the framed form of what it returns.
pub proof fn lemma_unframed_is_framed(line: Seq<u8>)
    requires
        unframed(line) is Ok,
    ensures
        single_line(unframed(line)->Ok_0),
        framed(unframed(line)->Ok_0) == line,
{
    assert(line.drop_last().push(line.last()) =~= line);
}

/// A payload with a line feed in it does not survive the wire: its framed
/// form is refused as more than one line.
pub proof fn lemma_line_feed_breaks_frame(payload: Seq<u8>)
    requires
        !single_line(payload),
    ensures
        unframed(framed(payload)) == Err::<Seq<u8>, FrameError>(FrameError::Multiple),
{
    assert(framed(payload).drop_last() =~= payload);
}

} // verus!

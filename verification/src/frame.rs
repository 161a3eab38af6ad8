//! Newline-delimited framing of the JSON-RPC transport.

use vstd::prelude::*;

verus! {

/// The longest line, without its newline, that is taken for a frame.
pub const MAX_RPC_FRAME_BYTES: usize = 1_048_576;

pub const NEWLINE: u8 = 10;

pub const CARRIAGE_RETURN: u8 = 13;

/// How far a read has come.
#[derive(Debug, Clone, Copy, PartialEq, Eq, Structural)]
pub enum FrameProgress {
    /// The frame is complete; so many of the available bytes belong to it.
    Frame { consumed: usize },
    /// The frame goes on behind the available bytes, all of which belong to it.
    More { consumed: usize },
    /// The peer closed the connection between two frames.
    Eof,
    /// The peer closed the connection within a frame.
    ClosedMidFrame,
    /// The line is longer than a frame may be.
    TooLarge,
}

/// The position of the first newline.
pub open spec fn newline_at(bytes: Seq<u8>) -> Option<int>
    decreases bytes.len(),
{
    if bytes.len() == 0 {
        None
    } else if bytes[0] == NEWLINE {
        Some(0)
    } else {
        match newline_at(bytes.drop_first()) {
            Some(i) => Some(i + 1),
            None => None,
        }
    }
}

/// A line as a frame: without the carriage return at its end, where it has one.
pub open spec fn frame_of_line(line: Seq<u8>) -> Seq<u8> {
    if line.len() > 0 && line.last() == CARRIAGE_RETURN {
        line.drop_last()
    } else {
        line
    }
}

/// One step of a read: the frame so far, and how far the read has come. No bytes
/// available means that the peer closed the connection.
pub open spec fn read_step(frame: Seq<u8>, available: Seq<u8>) -> (Seq<u8>, FrameProgress) {
    if available.len() == 0 {
        (
            frame,
            if frame.len() == 0 {
                FrameProgress::Eof
            } else {
                FrameProgress::ClosedMidFrame
            },
        )
    } else {
        match newline_at(available) {
            Some(pos) => if frame.len() + pos > MAX_RPC_FRAME_BYTES {
                (frame, FrameProgress::TooLarge)
            } else {
                (
                    frame_of_line(frame + available.take(pos)),
                    FrameProgress::Frame { consumed: (pos + 1) as usize },
                )
            },
            None => if frame.len() + available.len() > MAX_RPC_FRAME_BYTES {
                (frame, FrameProgress::TooLarge)
            } else {
                (
                    frame + available,
                    FrameProgress::More { consumed: available.len() as usize },
                )
            },
        }
    }
}

proof fn lemma_newline_at(bytes: Seq<u8>)
    ensures
        match newline_at(bytes) {
            Some(i) => 0 <= i < bytes.len() && bytes[i] == NEWLINE && forall|k: int|
                0 <= k < i ==> #[trigger] bytes[k] != NEWLINE,
            None => forall|k: int| 0 <= k < bytes.len() ==> #[trigger] bytes[k] != NEWLINE,
        },
    decreases bytes.len(),
{
    if bytes.len() > 0 && bytes[0] != NEWLINE {
        let rest = bytes.drop_first();
        lemma_newline_at(rest);
        assert forall|k: int| 1 <= k < bytes.len() implies #[trigger] bytes[k] == rest[k - 1] by {}
        match newline_at(rest) {
            Some(i) => {
                assert forall|k: int| 0 <= k < i + 1 implies #[trigger] bytes[k] != NEWLINE by {
                    if k > 0 {
                        assert(rest[k - 1] != NEWLINE);
                    }
                }
            },
            None => {
                assert forall|k: int| 0 <= k < bytes.len() implies #[trigger] bytes[k]
                    != NEWLINE by {
                    if k > 0 {
                        assert(rest[k - 1] != NEWLINE);
                    }
                }
            },
        }
    }
}

proof fn lemma_newline_is_first(bytes: Seq<u8>, i: int)
    requires
        0 <= i < bytes.len(),
        bytes[i] == NEWLINE,
        forall|k: int| 0 <= k < i ==> #[trigger] bytes[k] != NEWLINE,
    ensures
        newline_at(bytes) == Some(i),
{
    lemma_newline_at(bytes);
    match newline_at(bytes) {
        Some(j) => {
            if j < i {
                assert(bytes[j] != NEWLINE);
            } else if i < j {
                assert(bytes[i] != NEWLINE);
            }
        },
        None => {
            assert(bytes[i] != NEWLINE);
        },
    }
}

proof fn lemma_no_newline(bytes: Seq<u8>)
    requires
        forall|k: int| 0 <= k < bytes.len() ==> #[trigger] bytes[k] != NEWLINE,
    ensures
        newline_at(bytes) is None,
{
    lemma_newline_at(bytes);
    match newline_at(bytes) {
        Some(j) => {
            assert(bytes[j] != NEWLINE);
        },
        None => {},
    }
}

/// Position of the first newline.
fn find_newline(bytes: &[u8]) -> (r: Option<usize>)
    ensures
        match r {
            Some(i) => newline_at(bytes@) == Some(i as int),
            None => newline_at(bytes@) is None,
        },
{
    let mut i: usize = 0;
    while i < bytes.len()
        invariant
            i <= bytes.len(),
            forall|k: int| 0 <= k < i ==> #[trigger] bytes@[k] != NEWLINE,
        decreases bytes.len() - i,
    {
        if bytes[i] == NEWLINE {
            proof {
                lemma_newline_is_first(bytes@, i as int);
            }
            return Some(i);
        }
        i += 1;
    }
    proof {
        lemma_no_newline(bytes@);
    }
    None
}

fn push_bytes(out: &mut Vec<u8>, bytes: &[u8], count: usize)
    requires
        count <= bytes.len(),
    ensures
        final(out)@ == old(out)@ + bytes@.take(count as int),
{
    let ghost before = out@;
    let mut i: usize = 0;
    assert(out@ =~= before + bytes@.take(0));
    while i < count
        invariant
            i <= count <= bytes.len(),
            out@ == before + bytes@.take(i as int),
        decreases count - i,
    {
        out.push(bytes[i]);
        i += 1;
        assert(out@ =~= before + bytes@.take(i as int));
    }
}

/// Takes the available bytes into the frame, up to the end of its line.
pub fn read_rpc_frame(frame: &mut Vec<u8>, available: &[u8]) -> (r: FrameProgress)
    ensures
        (final(frame)@, r) == read_step(old(frame)@, available@),
{
    if available.len() == 0 {
        return if frame.len() == 0 {
            FrameProgress::Eof
        } else {
            FrameProgress::ClosedMidFrame
        };
    }
    if let Some(pos) = find_newline(available) {
        proof {
            lemma_newline_at(available@);
        }
        if frame.len() > MAX_RPC_FRAME_BYTES || pos > MAX_RPC_FRAME_BYTES - frame.len() {
            return FrameProgress::TooLarge;
        }
        push_bytes(frame, available, pos);
        let ghost line = frame@;
        if frame.len() > 0 && frame[frame.len() - 1] == CARRIAGE_RETURN {
            let _ = frame.pop();
            assert(frame@ =~= line.drop_last());
        }
        return FrameProgress::Frame { consumed: pos + 1 };
    }
    if frame.len() > MAX_RPC_FRAME_BYTES || available.len() > MAX_RPC_FRAME_BYTES - frame.len() {
        return FrameProgress::TooLarge;
    }
    let consumed: usize = available.len();
    push_bytes(frame, available, consumed);
    assert(available@.take(consumed as int) =~= available@);
    FrameProgress::More { consumed }
}

/// A serialized response as it goes over the wire: a line.
pub fn frame_response(payload: Vec<u8>) -> (r: Vec<u8>)
    ensures
        r@ == payload@.push(NEWLINE),
{
    let mut out = payload;
    out.push(NEWLINE);
    out
}

/// What a read makes of a byte stream.
pub enum ReadModel {
    /// A frame, and how many bytes of the stream it took.
    Frame { frame: Seq<u8>, taken: int },
    /// The line is longer than a frame may be.
    TooLarge,
    /// The line has not ended yet.
    Unfinished { line: Seq<u8> },
}

/// What a read makes of a stream whose bytes are all at hand.
pub open spec fn read_stream(stream: Seq<u8>) -> ReadModel {
    match newline_at(stream) {
        Some(pos) => if pos > MAX_RPC_FRAME_BYTES {
            ReadModel::TooLarge
        } else {
            ReadModel::Frame { frame: frame_of_line(stream.take(pos)), taken: pos + 1 }
        },
        None => if stream.len() > MAX_RPC_FRAME_BYTES {
            ReadModel::TooLarge
        } else {
            ReadModel::Unfinished { line: stream }
        },
    }
}

/// What a read makes of a stream that comes in chunks, with `frame` read before.
pub open spec fn read_chunks(frame: Seq<u8>, chunks: Seq<Seq<u8>>) -> ReadModel
    decreases chunks.len(),
{
    if chunks.len() == 0 {
        ReadModel::Unfinished { line: frame }
    } else {
        let (next, progress) = read_step(frame, chunks[0]);
        match progress {
            FrameProgress::Frame { consumed } => ReadModel::Frame {
                frame: next,
                taken: frame.len() + consumed,
            },
            FrameProgress::More { consumed } => read_chunks(next, chunks.drop_first()),
            _ => ReadModel::TooLarge,
        }
    }
}

/// The chunks, one behind the other.
pub open spec fn joined(chunks: Seq<Seq<u8>>) -> Seq<u8>
    decreases chunks.len(),
{
    if chunks.len() == 0 {
        Seq::empty()
    } else {
        chunks[0] + joined(chunks.drop_first())
    }
}

/// The frame that is read does not depend on how the stream was cut into chunks.
pub proof fn law_framing_ignores_chunking(frame: Seq<u8>, chunks: Seq<Seq<u8>>)
    requires
        forall|k: int| 0 <= k < frame.len() ==> #[trigger] frame[k] != NEWLINE,
        frame.len() <= MAX_RPC_FRAME_BYTES,
        forall|i: int| 0 <= i < chunks.len() ==> 0 < (#[trigger] chunks[i]).len() <= usize::MAX,
    ensures
        read_chunks(frame, chunks) == read_stream(frame + joined(chunks)),
    decreases chunks.len(),
{
    let stream = frame + joined(chunks);
    if chunks.len() == 0 {
        assert(stream =~= frame);
        lemma_no_newline(frame);
    } else {
        let chunk = chunks[0];
        let rest = chunks.drop_first();
        let read = frame + chunk;
        assert(stream =~= read + joined(rest));
        lemma_newline_at(chunk);
        match newline_at(chunk) {
            Some(pos) => {
                let at = frame.len() + pos;
                assert(stream[at] == chunk[pos]);
                assert forall|k: int| 0 <= k < at implies #[trigger] stream[k] != NEWLINE by {
                    if k >= frame.len() {
                        assert(stream[k] == chunk[k - frame.len()]);
                    } else {
                        assert(stream[k] == frame[k]);
                    }
                }
                lemma_newline_is_first(stream, at);
                assert(stream.take(at) =~= frame + chunk.take(pos));
            },
            None => {
                assert forall|k: int| 0 <= k < read.len() implies #[trigger] read[k] != NEWLINE by {
                    if k >= frame.len() {
                        assert(read[k] == chunk[k - frame.len()]);
                    }
                }
                if read.len() > MAX_RPC_FRAME_BYTES {
                    lemma_newline_at(stream);
                    match newline_at(stream) {
                        Some(pos) => {
                            if pos < read.len() {
                                assert(stream[pos] == read[pos]);
                            }
                        },
                        None => {},
                    }
                } else {
                    assert forall|i: int| 0 <= i < rest.len() implies 0 < (
                    #[trigger] rest[i]).len() <= usize::MAX by {
                        assert(rest[i] == chunks[i + 1]);
                    }
                    law_framing_ignores_chunking(read, rest);
                }
            },
        }
    }
}

/// A response line reads back as the payload that was written, whatever follows
/// it in the stream, where the payload is a single line that fits a frame and
/// does not end in a carriage return.
pub proof fn law_written_response_reads_back(payload: Seq<u8>, rest: Seq<u8>)
    requires
        forall|k: int| 0 <= k < payload.len() ==> #[trigger] payload[k] != NEWLINE,
        payload.len() <= MAX_RPC_FRAME_BYTES,
        payload.len() > 0 ==> payload.last() != CARRIAGE_RETURN,
    ensures
        read_stream(payload.push(NEWLINE) + rest) == (ReadModel::Frame {
            frame: payload,
            taken: payload.len() as int + 1,
        }),
{
    let stream = payload.push(NEWLINE) + rest;
    assert forall|k: int| 0 <= k < payload.len() implies #[trigger] stream[k] != NEWLINE by {
        assert(stream[k] == payload[k]);
    }
    lemma_newline_is_first(stream, payload.len() as int);
    assert(stream.take(payload.len() as int) =~= payload);
}

/// A line that comes in behind what was read before is a frame where it is not too
/// long: all of it but the newline and a carriage return before that. What follows
/// the newline is left for the next frame.
pub proof fn law_lines_are_frames(frame: Seq<u8>, line: Seq<u8>, rest: Seq<u8>)
    requires
        forall|k: int| 0 <= k < line.len() ==> #[trigger] line[k] != 10,
        frame.len() + line.len() <= usize::MAX - 1,
    ensures
        ({
            let (next, progress) = read_step(frame, line.push(10) + rest);
            let whole = frame + line;
            &&& whole.len() <= 1_048_576 ==> progress == (FrameProgress::Frame {
                consumed: (line.len() + 1) as usize,
            })
            &&& whole.len() <= 1_048_576 && whole.len() > 0 && whole.last() == 13 ==> next
                == whole.drop_last()
            &&& whole.len() <= 1_048_576 && (whole.len() == 0 || whole.last() != 13) ==> next
                == whole
            &&& whole.len() > 1_048_576 ==> progress is TooLarge && next == frame
        }),
{
    let available = line.push(10) + rest;
    assert(available[line.len() as int] == 10);
    assert forall|k: int| 0 <= k < line.len() implies #[trigger] available[k] != NEWLINE by {
        assert(available[k] == line[k]);
    }
    lemma_newline_is_first(available, line.len() as int);
    assert(available.take(line.len() as int) =~= line);
}

/// Bytes without a newline are kept for a frame that goes on, as long as it is not
/// too long; with no bytes left the connection has ended, between frames or within
/// one.
pub proof fn law_unfinished_lines_are_kept(frame: Seq<u8>, available: Seq<u8>)
    requires
        forall|k: int| 0 <= k < available.len() ==> #[trigger] available[k] != 10,
        available.len() <= usize::MAX,
    ensures
        ({
            let (next, progress) = read_step(frame, available);
            &&& available.len() > 0 && frame.len() + available.len() <= 1_048_576 ==> next == frame
                + available && progress == (FrameProgress::More {
                consumed: available.len() as usize,
            })
            &&& available.len() > 0 && frame.len() + available.len() > 1_048_576
                ==> progress is TooLarge && next == frame
            &&& available.len() == 0 && frame.len() == 0 ==> progress is Eof && next == frame
            &&& available.len() == 0 && frame.len() > 0 ==> progress is ClosedMidFrame && next
                == frame
        }),
{
    lemma_no_newline(available);
}

} // verus!

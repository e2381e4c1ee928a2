//! The bytes of one record as handed to a sink.

use vstd::prelude::*;
use vstd::utf8::encode_utf8;

verus! {

/// Records longer than this are truncated and flagged.
///
/// One `write` per record narrows the window in which a foreign writer on
/// fd 2 can interleave, and keeping a record small keeps it narrow. The cap
/// sits below `PIPE_BUF` with room for the ` trunc=1` marker.
pub const MAX_RECORD: usize = 2048;

/// ` trunc=1`, the marker a truncated record ends with.
pub open spec fn trunc_marker() -> Seq<u8> {
    seq![32u8, 116u8, 114u8, 117u8, 110u8, 99u8, 61u8, 49u8]
}

/// The record bytes for a line whose UTF-8 bytes are `b`.
pub open spec fn frame_bytes(b: Seq<u8>) -> Seq<u8> {
    if b.len() > MAX_RECORD {
        (b.take(MAX_RECORD as int) + trunc_marker()).push(10u8)
    } else {
        b.push(10u8)
    }
}

/// A record built from a line without a newline is one physical line: its
/// only newline is the last byte, and it is never longer than the cap plus
/// the marker and the newline.
pub proof fn lemma_frame_one_line(b: Seq<u8>)
    requires
        !b.contains(10u8),
    ensures
        frame_bytes(b).len() >= 1,
        frame_bytes(b).last() == 10u8,
        forall|i: int| 0 <= i < frame_bytes(b).len() - 1 ==> #[trigger] frame_bytes(b)[i] != 10u8,
        frame_bytes(b).len() <= MAX_RECORD + 9,
{
    let f = frame_bytes(b);
    assert forall|i: int| 0 <= i < f.len() - 1 implies #[trigger] f[i] != 10u8 by {
        if i < b.len() && i < MAX_RECORD {
            assert(f[i] == b[i]);
        }
    }
}

/// Assemble the bytes of one record, newline included.
///
/// A line longer than [`MAX_RECORD`] bytes keeps its first `MAX_RECORD`
/// bytes and gains ` trunc=1`; every record ends in exactly one `\n`.
pub fn frame(line: &str) -> (out: Vec<u8>)
    ensures
        out@ == frame_bytes(encode_utf8(line@)),
{
    let bytes = line.as_bytes();
    let keep: usize = if bytes.len() > MAX_RECORD {
        MAX_RECORD
    } else {
        bytes.len()
    };
    let mut out: Vec<u8> = Vec::new();
    let mut i: usize = 0;
    while i < keep
        invariant
            i <= keep <= bytes@.len(),
            out@ == bytes@.take(i as int),
        decreases keep - i,
    {
        out.push(bytes[i]);
        i = i + 1;
        assert(out@ =~= bytes@.take(i as int));
    }
    if bytes.len() > MAX_RECORD {
        let ghost kept = out@;
        out.push(32u8);
        out.push(116u8);
        out.push(114u8);
        out.push(117u8);
        out.push(110u8);
        out.push(99u8);
        out.push(61u8);
        out.push(49u8);
        assert(out@ =~= kept + trunc_marker());
    } else {
        assert(bytes@.take(i as int) =~= bytes@);
    }
    out.push(10u8);
    out
}

} // verus!

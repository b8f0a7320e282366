//! Splitting a receiver's output stream, read byte by byte, into lines.

use vstd::prelude::*;

verus! {

pub open spec fn is_line_break(b: u8) -> bool {
    b == 10 || b == 13
}

/// The lines of `bytes` after the first `i`, where `cur` is the unfinished
/// line before them: a line ends at `\n` or `\r`, and empty lines are
/// dropped; the unfinished rest is a line too at the end of the stream.
pub open spec fn lines_from(bytes: Seq<u8>, i: nat, cur: Seq<u8>) -> Seq<Seq<u8>>
    decreases bytes.len() - i,
{
    if i >= bytes.len() {
        if cur.len() > 0 {
            seq![cur]
        } else {
            seq![]
        }
    } else if is_line_break(bytes[i as int]) {
        if cur.len() > 0 {
            seq![cur] + lines_from(bytes, i + 1, seq![])
        } else {
            lines_from(bytes, i + 1, seq![])
        }
    } else {
        lines_from(bytes, i + 1, cur.push(bytes[i as int]))
    }
}

/// The non-empty lines of a whole stream.
pub open spec fn output_lines(bytes: Seq<u8>) -> Seq<Seq<u8>> {
    lines_from(bytes, 0, seq![])
}

/// Collects bytes until a line ends.
pub struct LineSplitter {
    buffer: Vec<u8>,
}

impl LineSplitter {
    /// The bytes of the unfinished line.
    pub closed spec fn pending(&self) -> Seq<u8> {
        self.buffer@
    }

    /// A splitter at the start of a stream.
    pub fn new() -> (res: LineSplitter)
        ensures
            res.pending() == Seq::<u8>::empty(),
    {
        LineSplitter { buffer: Vec::new() }
    }

    /// Reads one byte: a line break ends the unfinished line, which is given
    /// back where it is not empty; any other byte extends it.
    pub fn push_byte(&mut self, byte: u8) -> (res: Option<Vec<u8>>)
        ensures
            is_line_break(byte) ==> final(self).pending() == Seq::<u8>::empty() && match res {
                Some(line) => old(self).pending().len() > 0 && line@ == old(self).pending(),
                None => old(self).pending().len() == 0,
            },
            !is_line_break(byte) ==> final(self).pending() == old(self).pending().push(byte)
                && res is None,
    {
        if byte == 10 || byte == 13 {
            if self.buffer.len() > 0 {
                let mut line: Vec<u8> = Vec::new();
                std::mem::swap(&mut line, &mut self.buffer);
                Some(line)
            } else {
                None
            }
        } else {
            self.buffer.push(byte);
            None
        }
    }

    /// The end of the stream: the unfinished line, where it is not empty.
    pub fn finish(self) -> (res: Option<Vec<u8>>)
        ensures
            match res {
                Some(line) => self.pending().len() > 0 && line@ == self.pending(),
                None => self.pending().len() == 0,
            },
    {
        if self.buffer.len() > 0 {
            Some(self.buffer)
        } else {
            None
        }
    }
}

/// Splits a whole stream into its non-empty lines, byte by byte.
pub fn split_output(bytes: &[u8]) -> (res: Vec<Vec<u8>>)
    ensures
        res@.map_values(|l: Vec<u8>| l@) == output_lines(bytes@),
{
    let mut splitter = LineSplitter::new();
    let mut out: Vec<Vec<u8>> = Vec::new();
    let mut i: usize = 0;
    while i < bytes.len()
        invariant
            i <= bytes@.len(),
            output_lines(bytes@) == out@.map_values(|l: Vec<u8>| l@) + lines_from(
                bytes@,
                i as nat,
                splitter.pending(),
            ),
        decreases bytes@.len() - i,
    {
        let ghost before = out@.map_values(|l: Vec<u8>| l@);
        match splitter.push_byte(bytes[i]) {
            Some(line) => {
                out.push(line);
                assert(out@.map_values(|l: Vec<u8>| l@) =~= before.push(out@.last()@));
            },
            None => {},
        }
        i = i + 1;
    }
    let ghost before = out@.map_values(|l: Vec<u8>| l@);
    match splitter.finish() {
        Some(line) => {
            out.push(line);
            assert(out@.map_values(|l: Vec<u8>| l@) =~= before.push(out@.last()@));
        },
        None => {},
    }
    assert(out@.map_values(|l: Vec<u8>| l@) =~= output_lines(bytes@));
    out
}

} // verus!

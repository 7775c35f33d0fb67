use vstd::prelude::*;
use vstd::string::StringExecFns;
use vstd::string::StringSliceAdditionalSpecFns;
use std::ops::Range;
use crate::lexer::{Reader, CR, LF};
use super::iter_to_reader::IterToReader;
use super::string::{digits, latin, push_char, push_digits, push_repeated, repeated};

verus! {

/// Where a byte range lies in a text, for a message to show: the line, the
/// place in the line, and the line itself.
pub struct LineInfo {
    /// The number of the line, from 0.
    pub line_index: usize,
    /// The place of the range's first byte in the line, from 0.
    pub char_index: usize,
    /// The length of the range.
    pub length: usize,
    /// The line, without its end.
    pub line: String,
}

/// The number of bytes between the position `offset`, where `bytes` start,
/// and the position `pos`; all of them where `pos` is not among them.
pub open spec fn reach(bytes: Seq<u8>, offset: nat, pos: nat) -> nat {
    if offset <= pos && pos - offset <= bytes.len() {
        (pos - offset) as nat
    } else {
        bytes.len()
    }
}

/// The number of line feeds in `bytes`.
pub open spec fn line_feeds(bytes: Seq<u8>) -> nat
    decreases bytes.len(),
{
    if bytes.len() == 0 {
        0
    } else {
        line_feeds(bytes.drop_last()) + if bytes.last() == LF {
            1nat
        } else {
            0nat
        }
    }
}

/// The position after the last line feed in `bytes`, which start at the
/// position `offset`; 0 where there is none.
pub open spec fn line_start(bytes: Seq<u8>, offset: nat) -> nat
    decreases bytes.len(),
{
    if bytes.len() == 0 {
        0
    } else if bytes.last() == LF {
        offset + bytes.len()
    } else {
        line_start(bytes.drop_last(), offset)
    }
}

/// The number of bytes at the front of `bytes` before the first carriage
/// return or line feed.
pub open spec fn line_length(bytes: Seq<u8>) -> nat
    decreases bytes.len(),
{
    if bytes.len() == 0 || bytes[0] == CR || bytes[0] == LF {
        0
    } else {
        1 + line_length(bytes.skip(1))
    }
}

/// The line that starts at the front of `bytes`.
pub open spec fn first_line(bytes: Seq<u8>) -> Seq<char> {
    latin(bytes.take(line_length(bytes) as int))
}

/// A line within `bytes` starts within them.
pub proof fn lemma_line_start(bytes: Seq<u8>, offset: nat)
    ensures
        line_start(bytes, offset) <= offset + bytes.len(),
        line_feeds(bytes) <= bytes.len(),
    decreases bytes.len(),
{
    if bytes.len() > 0 {
        lemma_line_start(bytes.drop_last(), offset);
    }
}

/// Counts the line feeds before the position `pos`, and finds the position
/// after the last of them.
pub fn calculate_line_index_and_offset<R: Reader>(reader: R, pos: usize) -> (r: (usize, usize))
    requires
        reader.inv(),
    ensures
        r.0 == line_feeds(reader.rest().take(reach(reader.rest(), reader.offset(), pos as nat) as int)),
        r.1 == line_start(
            reader.rest().take(reach(reader.rest(), reader.offset(), pos as nat) as int),
            reader.offset(),
        ),
{
    let mut left = reader;
    let mut line_index: usize = 0;
    let mut line_offset: usize = 0;
    let mut offset = left.pos();
    let ghost bytes = reader.rest();
    let ghost start = reader.offset();
    let ghost mut done: nat = 0;
    proof {
        reader.lemma_bounded();
        assert(bytes.take(0) =~= Seq::<u8>::empty());
        assert(bytes.skip(0) =~= bytes);
    }
    loop
        invariant_except_break
            left.inv(),
            bytes == reader.rest(),
            start == reader.offset(),
            start + bytes.len() <= usize::MAX,
            done <= reach(bytes, start, pos as nat),
            left.rest() == bytes.skip(done as int),
            left.offset() == start + done,
            offset == start + done,
            line_index == line_feeds(bytes.take(done as int)),
            line_offset == line_start(bytes.take(done as int), start),
        ensures
            done == reach(bytes, start, pos as nat),
            line_index == line_feeds(bytes.take(done as int)),
            line_offset == line_start(bytes.take(done as int), start),
        decreases bytes.len() - done,
    {
        let c = match left.next() {
            Some(c) => c,
            None => {
                break ;
            },
        };
        if offset == pos {
            break ;
        }
        proof {
            let seen = bytes.take(done as int + 1);
            assert(seen.drop_last() =~= bytes.take(done as int));
            assert(seen.last() == c);
            assert(bytes.skip(done as int).skip(1) =~= bytes.skip(done as int + 1));
            lemma_line_start(bytes.take(done as int), start);
            done = done + 1;
        }
        if c == LF {
            line_index += 1;
            line_offset = offset + 1;
        }
        offset = left.pos();
    }
    (line_index, line_offset)
}

/// Reads the line that starts at the position `line_offset`, up to its end
/// or to the end of the input.
pub fn read_line<R: Reader>(reader: R, line_offset: usize) -> (line: String)
    requires
        reader.inv(),
    ensures
        line@ == first_line(
            reader.rest().skip(reach(reader.rest(), reader.offset(), line_offset as nat) as int),
        ),
{
    let mut left = reader;
    let mut offset = left.pos();
    let ghost bytes = reader.rest();
    let ghost start = reader.offset();
    let ghost mut done: nat = 0;
    proof {
        reader.lemma_bounded();
        assert(bytes.skip(0) =~= bytes);
    }
    loop
        invariant_except_break
            left.inv(),
            bytes == reader.rest(),
            start == reader.offset(),
            done <= reach(bytes, start, line_offset as nat),
            left.rest() == bytes.skip(done as int),
            left.offset() == start + done,
            offset == start + done,
        ensures
            left.inv(),
            done == reach(bytes, start, line_offset as nat),
            left.rest() == bytes.skip(done as int),
        decreases bytes.len() - done,
    {
        if offset == line_offset {
            break ;
        }
        match left.next() {
            Some(_c) => {
                proof {
                    assert(bytes.skip(done as int).skip(1) =~= bytes.skip(done as int + 1));
                    done = done + 1;
                }
                offset = left.pos();
            },
            None => {
                break ;
            },
        }
    }

    let ghost from = left.rest();
    let ghost mut taken: nat = 0;
    let mut line = String::new();
    proof {
        assert(from.skip(0) =~= from);
        assert(line@ =~= latin(from.take(0)));
    }
    loop
        invariant_except_break
            left.inv(),
            taken <= from.len(),
            left.rest() == from.skip(taken as int),
            line@ == latin(from.take(taken as int)),
            line_length(from) == taken + line_length(left.rest()),
        ensures
            line@ == latin(from.take(taken as int)),
            line_length(from) == taken,
        decreases from.len() - taken,
    {
        let c = match left.next() {
            Some(c) => c,
            None => {
                break ;
            },
        };
        if c == CR || c == LF {
            break ;
        }
        push_char(&mut line, c as char);
        proof {
            assert(from.skip(taken as int).skip(1) =~= from.skip(taken as int + 1));
            assert(from.take(taken as int + 1) =~= from.take(taken as int).push(c));
            assert(line@ =~= latin(from.take(taken as int + 1)));
            taken = taken + 1;
        }
    }
    line
}

impl LineInfo {
    /// The place of the byte range `pos` in the text of `reader`.
    pub fn from_reader<R: Reader>(reader: R, pos: Range<usize>) -> (info: Self)
        requires
            reader.inv(),
            reader.offset() <= pos.start <= pos.end,
        ensures
            info.line_index == line_feeds(
                reader.rest().take(reach(reader.rest(), reader.offset(), pos.start as nat) as int),
            ),
            info.char_index == pos.start - line_start(
                reader.rest().take(reach(reader.rest(), reader.offset(), pos.start as nat) as int),
                reader.offset(),
            ),
            info.length == pos.end - pos.start,
            info.line@ == first_line(
                reader.rest().skip(
                    reach(
                        reader.rest(),
                        reader.offset(),
                        line_start(
                            reader.rest().take(
                                reach(reader.rest(), reader.offset(), pos.start as nat) as int,
                            ),
                            reader.offset(),
                        ),
                    ) as int,
                ),
            ),
    {
        let copy = reader.clone();
        proof {
            reader.lemma_cloned(&copy);
            lemma_line_start(
                reader.rest().take(reach(reader.rest(), reader.offset(), pos.start as nat) as int),
                reader.offset(),
            );
        }
        let (line_index, line_offset) = calculate_line_index_and_offset(copy, pos.start);
        let line = read_line(reader, line_offset);

        Self { line_index, char_index: pos.start - line_offset, length: pos.end - pos.start, line }
    }

    /// The place of the byte range `pos` in `code`.
    pub fn from_str(code: &'static str, pos: Range<usize>) -> (info: Self)
        requires
            pos.start <= pos.end,
        ensures
            info.line_index == line_feeds(
                code.spec_bytes().take(reach(code.spec_bytes(), 0, pos.start as nat) as int),
            ),
            info.char_index == pos.start - line_start(
                code.spec_bytes().take(reach(code.spec_bytes(), 0, pos.start as nat) as int),
                0,
            ),
            info.length == pos.end - pos.start,
            info.line@ == first_line(
                code.spec_bytes().skip(
                    reach(
                        code.spec_bytes(),
                        0,
                        line_start(
                            code.spec_bytes().take(
                                reach(code.spec_bytes(), 0, pos.start as nat) as int,
                            ),
                            0,
                        ),
                    ) as int,
                ),
            ),
    {
        Self::from_reader(IterToReader::new(code.as_bytes()), pos)
    }

    /// The text that shows the place: the numbers of the line and of the
    /// character, both from 1; the line; and under it a mark as long as the
    /// range.
    pub open spec fn rendered(&self) -> Seq<char> {
        "Line: "@ + digits((self.line_index + 1) as nat) + ", Char: "@ + digits(
            (self.char_index + 1) as nat,
        ) + "\n"@ + self.line@ + "\n"@ + repeated(' ', self.char_index as nat) + repeated(
            '^',
            self.length as nat,
        )
    }

    /// The text that shows the place.
    pub fn render(&self) -> (text: String)
        requires
            self.line_index < u64::MAX,
            self.char_index < u64::MAX,
        ensures
            text@ == self.rendered(),
    {
        let mut text = String::from_str("Line: ");
        push_digits(&mut text, self.line_index as u64 + 1);
        text.append(", Char: ");
        push_digits(&mut text, self.char_index as u64 + 1);
        text.append("\n");
        text.append(self.line.as_str());
        text.append("\n");
        push_repeated(&mut text, ' ', self.char_index);
        push_repeated(&mut text, '^', self.length);
        proof {
            assert(text@ =~= self.rendered());
        }
        text
    }
}

} // verus!

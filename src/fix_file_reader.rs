//! Reading of a batch of raw messages, one per line.
use vstd::prelude::*;
use crate::fix_message::{parsed_fields, FixMessage};
use crate::text::{find_char, scan_to};

verus! {

/// `line` without the carriage return that ends it, if it has one.
pub open spec fn strip_cr(line: Seq<char>) -> Seq<char> {
    if line.len() > 0 && line.last() == '\r' {
        line.drop_last()
    } else {
        line
    }
}

/// The lines of `s`: split at each line feed, with a carriage return just
/// before it dropped, and no empty line after a final line feed. A last line
/// that no line feed ends is kept as it is.
pub open spec fn lines_of(s: Seq<char>) -> Seq<Seq<char>>
    decreases s.len(),
{
    if s.len() == 0 {
        Seq::empty()
    } else {
        let k = find_char(s, '\n');
        if k < s.len() {
            seq![strip_cr(s.take(k as int))] + lines_of(s.skip((k + 1) as int))
        } else {
            seq![s]
        }
    }
}

/// Reads raw messages out of text that holds one message per line.
pub struct FixMessageFileReader;

impl FixMessageFileReader {
    /// The field store of each line of `content`, in order.
    pub fn parse_lines(content: &str) -> (r: Vec<FixMessage>)
        ensures
            r@.len() == lines_of(content@).len(),
            forall|i: int|
                0 <= i < r@.len() ==> (#[trigger] r@[i]).wf() && r@[i]@ == parsed_fields(
                    lines_of(content@)[i],
                ),
    {
        let n = content.unicode_len();
        let mut messages: Vec<FixMessage> = Vec::new();
        let mut start: usize = 0;
        let ghost mut done: Seq<Seq<char>> = Seq::empty();
        assert(content@.skip(0) =~= content@);
        while start < n
            invariant
                n == content@.len(),
                0 <= start <= n,
                done + lines_of(content@.skip(start as int)) == lines_of(content@),
                messages@.len() == done.len(),
                forall|i: int|
                    0 <= i < messages@.len() ==> (#[trigger] messages@[i]).wf()
                        && messages@[i]@ == parsed_fields(done[i]),
            decreases n - start,
        {
            let ghost rest = content@.skip(start as int);
            let end = scan_to(content, '\n', start, n);
            assert(content@.subrange(start as int, n as int) =~= rest);
            let mut stop = end;
            if end < n && stop > start && content.get_char(stop - 1) == '\r' {
                stop = stop - 1;
            }
            let ghost line = content@.subrange(start as int, stop as int);
            if end < n {
                assert(strip_cr(rest.take(end - start)) =~= line);
            }
            let message = FixMessage::parse(content.substring_char(start, stop));
            messages.push(message);
            proof {
                if end < n {
                    assert(rest.skip(end - start + 1) =~= content@.skip(end + 1));
                    assert(done.push(line) + lines_of(content@.skip(end + 1)) =~= done + lines_of(
                        rest,
                    ));
                } else {
                    assert(content@.skip(n as int) =~= Seq::<char>::empty());
                    assert(rest =~= line);
                    assert(lines_of(rest) == seq![line]);
                    assert(lines_of(content@.skip(n as int)) == Seq::<Seq<char>>::empty());
                    assert(done.push(line) + lines_of(content@.skip(n as int)) =~= done + lines_of(
                        rest,
                    ));
                }
                done = done.push(line);
            }
            start = if end < n {
                end + 1
            } else {
                n
            };
        }
        proof {
            assert(content@.skip(start as int) =~= Seq::<char>::empty());
            assert(done =~= lines_of(content@));
        }
        messages
    }
}

} // verus!

//! Splitting the text of a file into lines.

use vstd::prelude::*;

use crate::chars::chars_of;

verus! {

/// `line` without one carriage return at its end, where it has one.
pub open spec fn strip_cr(line: Seq<char>) -> Seq<char> {
    if line.len() > 0 && line.last() == '\r' {
        line.drop_last()
    } else {
        line
    }
}

/// The lines of `s`, given that the current line so far holds `cur`. A newline
/// ends a line, and a carriage return just before it is dropped; the text after
/// the last newline is a line of its own where it is not empty.
pub open spec fn split_from(s: Seq<char>, cur: Seq<char>) -> Seq<Seq<char>>
    decreases s.len(),
{
    if s.len() == 0 {
        if cur.len() == 0 {
            Seq::empty()
        } else {
            seq![cur]
        }
    } else if s[0] == '\n' {
        seq![strip_cr(cur)] + split_from(s.drop_first(), Seq::empty())
    } else {
        split_from(s.drop_first(), cur.push(s[0]))
    }
}

/// The lines of a text, newlines and the carriage returns before them
/// stripped.
pub open spec fn lines_of(s: Seq<char>) -> Seq<Seq<char>> {
    split_from(s, Seq::empty())
}

/// Relies on String::push: appends one character to the string.
#[verifier::external_body]
fn push_char(s: &mut String, c: char)
    ensures
        final(s)@ == old(s)@.push(c),
{
    s.push(c);
}

/// Turns the text of a file into its lines.
#[derive(Debug, Clone)]
pub struct FileReader;

impl FileReader {
    pub fn new() -> (r: FileReader)
        ensures
            r == (FileReader {}),
    {
        FileReader {}
    }

    /// The lines of `contents`, in order, without their line endings.
    pub fn split_lines(&self, contents: &str) -> (r: Vec<String>)
        ensures
            r.deep_view() == lines_of(contents@),
    {
        let cs = chars_of(contents);
        let ghost all = cs@;
        let mut lines: Vec<String> = Vec::new();
        let mut line = String::new();
        let mut pending_cr = false;
        let mut i: usize = 0;
        assert(all.skip(0) =~= all);
        assert(lines.deep_view() + lines_of(all) =~= lines_of(all));
        while i < cs.len()
            invariant
                i <= cs.len(),
                all == cs@,
                all == contents@,
                !pending_cr ==> line@.len() == 0 || line@.last() != '\r',
                lines.deep_view() + split_from(
                    all.skip(i as int),
                    if pending_cr {
                        line@.push('\r')
                    } else {
                        line@
                    },
                ) == lines_of(all),
            decreases cs.len() - i,
        {
            let c = cs[i];
            let ghost cur = if pending_cr {
                line@.push('\r')
            } else {
                line@
            };
            let ghost before = lines.deep_view();
            assert(all.skip(i as int).drop_first() == all.skip(i + 1));
            assert(all.skip(i as int)[0] == c);
            if c == '\n' {
                assert(strip_cr(cur) == line@);
                lines.push(line);
                line = String::new();
                pending_cr = false;
                assert(lines.deep_view() == before.push(strip_cr(cur)));
                assert(before + (seq![strip_cr(cur)] + split_from(all.skip(i + 1), Seq::empty()))
                    == lines.deep_view() + split_from(all.skip(i + 1), Seq::empty()));
            } else if c == '\r' {
                if pending_cr {
                    push_char(&mut line, '\r');
                }
                pending_cr = true;
            } else {
                if pending_cr {
                    push_char(&mut line, '\r');
                }
                push_char(&mut line, c);
                pending_cr = false;
            }
            i += 1;
        }
        let ghost before = lines.deep_view();
        assert(all.skip(i as int) =~= Seq::<char>::empty());
        if pending_cr {
            push_char(&mut line, '\r');
        }
        let ghost last = line@;
        if !line.as_str().is_empty() {
            lines.push(line);
            assert(lines.deep_view() =~= before + seq![last]);
        } else {
            assert(before + Seq::<Seq<char>>::empty() =~= before);
        }
        lines
    }
}

} // verus!

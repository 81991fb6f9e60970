//! The renderer: stages each line of a text padded to cover the line drawn
//! at the same row last time, and records the widths of what it sends.

use vstd::prelude::*;

use crate::lines::{byte_len, lines, text_lines, trimmed_len, trimmed_width};

verus! {

broadcast use vstd::string::group_string_axioms;

/// The control sequence that moves the cursor to the top left: ESC `[` `H`.
pub open spec fn cursor_home() -> Seq<char> {
    seq!['\x1b', '[', 'H']
}

/// `k` spaces.
pub open spec fn spaces(k: nat) -> Seq<char> {
    Seq::new(k, |_i: int| ' ')
}

/// Spaces that line `i` gets after its text: as many as the width recorded
/// for row `i` exceeds its own width in bytes, and none where no width was
/// recorded for that row.
pub open spec fn padding(history: Seq<usize>, i: int, line: Seq<char>) -> nat {
    if 0 <= i < history.len() && history[i] > byte_len(line) {
        (history[i] - byte_len(line)) as nat
    } else {
        0
    }
}

/// Line `i` as staged: its text, its padding, a newline.
pub open spec fn staged_line(history: Seq<usize>, i: int, line: Seq<char>) -> Seq<char> {
    line + spaces(padding(history, i, line)) + seq!['\n']
}

/// All of `ls` as staged against `history`, row by row.
pub open spec fn staged(history: Seq<usize>, ls: Seq<Seq<char>>) -> Seq<char>
    decreases ls.len(),
{
    if ls.len() == 0 {
        seq![]
    } else {
        staged(history, ls.drop_last()) + staged_line(history, ls.len() - 1, ls.last())
    }
}

/// Row `i` of a staged text: after the rows before it comes the line's text,
/// then `L - M` spaces where a width `L` was recorded for the row and the
/// line is `M < L` bytes wide, no spaces where `M >= L` or no width was
/// recorded, then a newline.
pub proof fn lemma_padding(history: Seq<usize>, ls: Seq<Seq<char>>, i: int)
    requires
        0 <= i < ls.len(),
    ensures
        staged(history, ls.take(i + 1)) == staged(history, ls.take(i)) + ls[i] + spaces(
            if i < history.len() && byte_len(ls[i]) < history[i] {
                (history[i] - byte_len(ls[i])) as nat
            } else {
                0
            },
        ) + seq!['\n'],
{
    assert(ls.take(i + 1).drop_last() =~= ls.take(i));
}

/// Widths recorded for a frame that was sent: the trimmed width of each line.
pub open spec fn recorded_lengths(frame: Seq<char>) -> Seq<usize> {
    text_lines(frame).map_values(|l: Seq<char>| trimmed_len(l))
}

/// The renderer's state: the frame being staged, and the widths of the lines
/// of the frame sent last.
pub struct Terminal {
    frame: String,
    line_lengths: Vec<usize>,
}

impl Terminal {
    /// The frame staged so far.
    pub closed spec fn frame_view(&self) -> Seq<char> {
        self.frame@
    }

    /// The widths recorded for the rows of the last frame.
    pub closed spec fn history(&self) -> Seq<usize> {
        self.line_lengths@
    }

    /// An empty frame, with a width of zero recorded for the first row.
    pub fn new() -> (t: Terminal)
        ensures
            t.frame_view() == Seq::<char>::empty(),
            t.history() == seq![0usize],
    {
        Terminal { frame: String::new(), line_lengths: vec![0] }
    }

    /// The frame staged so far.
    pub fn frame(&self) -> (f: &str)
        ensures
            f@ == self.frame_view(),
    {
        self.frame.as_str()
    }

    /// The widths recorded for the rows of the last frame.
    pub fn line_lengths(&self) -> (h: &Vec<usize>)
        ensures
            h@ == self.history(),
    {
        &self.line_lengths
    }

    /// Records the trimmed width of each line of the frame, and starts the
    /// next frame with the cursor-home sequence.
    pub fn set_line_lengths(&mut self)
        ensures
            final(self).history() == recorded_lengths(old(self).frame_view()),
            final(self).frame_view() == cursor_home(),
    {
        let ls = lines(self.frame.as_str());
        let ghost want = recorded_lengths(self.frame@);
        let mut widths: Vec<usize> = Vec::new();
        let mut i: usize = 0;
        while i < ls.len()
            invariant
                ls@.len() == want.len(),
                forall|j: int| 0 <= j < ls@.len() ==> #[trigger] ls@[j]@ == text_lines(self.frame@)[j],
                want == recorded_lengths(self.frame@),
                i <= ls@.len(),
                widths@ == want.take(i as int),
            decreases ls.len() - i,
        {
            let w = trimmed_width(ls[i].as_str());
            widths.push(w);
            i += 1;
            assert(widths@ =~= want.take(i as int));
        }
        assert(widths@ =~= want);
        self.line_lengths = widths;
        self.frame = String::from_str("\x1b[H");
        proof {
            reveal_strlit("\x1b[H");
        }
        assert(self.frame@ =~= cursor_home());
    }

    /// Appends each line of `text` to the frame, padded with spaces to the
    /// width recorded for its row, and ended with a newline.
    pub fn typeset(&mut self, text: String)
        ensures
            final(self).frame_view() == old(self).frame_view() + staged(
                old(self).history(),
                text_lines(text@),
            ),
            final(self).history() == old(self).history(),
    {
        let ls = lines(text.as_str());
        let ghost lv = text_lines(text@);
        let ghost start = self.frame@;
        let mut i: usize = 0;
        proof {
            assert(lv.take(0) =~= seq![]);
        }
        while i < ls.len()
            invariant
                ls@.len() == lv.len(),
                forall|j: int| 0 <= j < ls@.len() ==> #[trigger] ls@[j]@ == lv[j],
                i <= ls@.len(),
                self.line_lengths == old(self).line_lengths,
                self.frame@ == start + staged(self.line_lengths@, lv.take(i as int)),
            decreases ls.len() - i,
        {
            let line = ls[i].as_str();
            let width = line.len();
            let pad: usize = if i < self.line_lengths.len() && self.line_lengths[i] > width {
                self.line_lengths[i] - width
            } else {
                0
            };
            let ghost before = self.frame@;
            self.frame.append(line);
            let mut k: usize = 0;
            while k < pad
                invariant
                    k <= pad,
                    self.line_lengths == old(self).line_lengths,
                    self.frame@ == before + line@ + spaces(k as nat),
                decreases pad - k,
            {
                self.frame.append(" ");
                proof {
                    reveal_strlit(" ");
                }
                k += 1;
                assert(self.frame@ =~= before + line@ + spaces(k as nat));
            }
            self.frame.append("\n");
            proof {
                reveal_strlit("\n");
                assert(lv.take(i + 1).drop_last() =~= lv.take(i as int));
                assert(staged(self.line_lengths@, lv.take(i + 1)) == staged(
                    self.line_lengths@,
                    lv.take(i as int),
                ) + staged_line(self.line_lengths@, i as int, lv[i as int]));
                assert(pad == padding(self.line_lengths@, i as int, lv[i as int]));
            }
            i += 1;
            assert(self.frame@ =~= start + staged(self.line_lengths@, lv.take(i as int)));
        }
        assert(lv.take(i as int) =~= lv);
    }

    /// Hands out the staged frame to be written, and makes ready for the
    /// next one as `set_line_lengths` does.
    pub fn render(&mut self) -> (sent: String)
        ensures
            sent@ == old(self).frame_view(),
            final(self).history() == recorded_lengths(old(self).frame_view()),
            final(self).frame_view() == cursor_home(),
    {
        let sent = self.frame.clone();
        self.set_line_lengths();
        sent
    }
}

} // verus!

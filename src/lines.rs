//! Lines of a text and their trimmed widths, as the renderer measures them.

use vstd::prelude::*;
use vstd::std_specs::iter::IteratorSpec;
use vstd::utf8::encode_utf8;

verus! {

broadcast use vstd::string::group_string_axioms;

/// A line ending `\r\n` loses its `\r` as well as its `\n`.
pub open spec fn strip_cr(l: Seq<char>) -> Seq<char> {
    if l.len() > 0 && l.last() == '\r' {
        l.drop_last()
    } else {
        l
    }
}

/// Reading `s` from the left: the lines closed by a `\n` so far, and the
/// characters of the line still open.
pub open spec fn split_lines(s: Seq<char>) -> (Seq<Seq<char>>, Seq<char>)
    decreases s.len(),
{
    if s.len() == 0 {
        (seq![], seq![])
    } else {
        let (done, open) = split_lines(s.drop_last());
        if s.last() == '\n' {
            (done.push(strip_cr(open)), seq![])
        } else {
            (done, open.push(s.last()))
        }
    }
}

/// The lines of `s`: split at each `\n` (with a `\r` before it), where a
/// final `\n` opens no further line and an empty text has none.
pub open spec fn text_lines(s: Seq<char>) -> Seq<Seq<char>> {
    let (done, open) = split_lines(s);
    if open.len() > 0 {
        done.push(open)
    } else {
        done
    }
}

/// Unicode's White_Space property.
pub open spec fn is_white(c: char) -> bool {
    let u = c as u32;
    ||| 0x09 <= u <= 0x0d
    ||| u == 0x20
    ||| u == 0x85
    ||| u == 0xa0
    ||| u == 0x1680
    ||| 0x2000 <= u <= 0x200a
    ||| u == 0x2028
    ||| u == 0x2029
    ||| u == 0x202f
    ||| u == 0x205f
    ||| u == 0x3000
}

/// `l` without its leading white space.
pub open spec fn trim_start(l: Seq<char>) -> Seq<char>
    decreases l.len(),
{
    if l.len() > 0 && is_white(l[0]) {
        trim_start(l.drop_first())
    } else {
        l
    }
}

/// `l` without its trailing white space.
pub open spec fn trim_end(l: Seq<char>) -> Seq<char>
    decreases l.len(),
{
    if l.len() > 0 && is_white(l.last()) {
        trim_end(l.drop_last())
    } else {
        l
    }
}

/// `l` without white space at either end.
pub open spec fn trim(l: Seq<char>) -> Seq<char> {
    trim_end(trim_start(l))
}

/// Number of bytes of `l` in UTF-8, as `str::len` gives it.
pub open spec fn byte_len(l: Seq<char>) -> usize {
    encode_utf8(l).len() as usize
}

/// Width that the renderer records for a line: its trimmed length in bytes.
pub open spec fn trimmed_len(l: Seq<char>) -> usize {
    byte_len(trim(l))
}

/// Whether `c` is white space in Unicode's sense.
pub fn is_white_char(c: char) -> (r: bool)
    ensures
        r == is_white(c),
{
    let u = c as u32;
    (0x09 <= u && u <= 0x0d) || u == 0x20 || u == 0x85 || u == 0xa0 || u == 0x1680 || (0x2000
        <= u && u <= 0x200a) || u == 0x2028 || u == 0x2029 || u == 0x202f || u == 0x205f || u
        == 0x3000
}

proof fn lemma_split_step(s: Seq<char>, i: int)
    requires
        0 <= i < s.len(),
    ensures
        split_lines(s.take(i + 1)) == ({
            let (done, open) = split_lines(s.take(i));
            if s[i] == '\n' {
                (done.push(strip_cr(open)), seq![])
            } else {
                (done, open.push(s[i]))
            }
        }),
{
    assert(s.take(i + 1).drop_last() =~= s.take(i));
}

/// The lines of `text`, in order.
pub fn lines(text: &str) -> (ls: Vec<String>)
    ensures
        ls@.len() == text_lines(text@).len(),
        forall|i: int| 0 <= i < ls@.len() ==> #[trigger] ls@[i]@ == text_lines(text@)[i],
{
    let n = text.unicode_len();
    let mut ls: Vec<String> = Vec::new();
    let mut it = text.chars();
    let mut i: usize = 0;
    let mut start: usize = 0;
    let mut prev_cr = false;
    proof {
        assert(text@.take(0) =~= seq![]);
    }
    while i < n
        invariant
            n == text@.len(),
            i <= n,
            start <= i,
            it.remaining() == text@.skip(i as int),
            split_lines(text@.take(i as int)).0.len() == ls@.len(),
            forall|j: int|
                0 <= j < ls@.len() ==> #[trigger] ls@[j]@ == split_lines(
                    text@.take(i as int),
                ).0[j],
            split_lines(text@.take(i as int)).1 == text@.subrange(start as int, i as int),
            prev_cr == (start < i && text@[i - 1] == '\r'),
        decreases n - i,
    {
        let c = match it.next() {
            Some(c) => c,
            None => {
                assert(false);
                ' '
            },
        };
        assert(c == text@[i as int]);
        proof {
            lemma_split_step(text@, i as int);
        }
        if c == '\n' {
            let end = if prev_cr {
                i - 1
            } else {
                i
            };
            let line = text.substring_char(start, end).to_owned();
            assert(line@ =~= strip_cr(text@.subrange(start as int, i as int)));
            ls.push(line);
            start = i + 1;
            prev_cr = false;
        } else {
            prev_cr = c == '\r';
        }
        i += 1;
        assert(split_lines(text@.take(i as int)).1 =~= text@.subrange(start as int, i as int));
    }
    assert(text@.take(n as int) =~= text@);
    if start < n {
        let line = text.substring_char(start, n).to_owned();
        ls.push(line);
    }
    ls
}

/// `l` with white space taken off both ends, and its length in bytes.
pub fn trimmed_width(l: &str) -> (w: usize)
    ensures
        w == trimmed_len(l@),
{
    let n = l.unicode_len();
    let mut a: usize = 0;
    assert(l@.subrange(0, n as int) =~= l@);
    while a < n && is_white_char(l.get_char(a))
        invariant
            n == l@.len(),
            a <= n,
            trim_start(l@) == trim_start(l@.subrange(a as int, n as int)),
        decreases n - a,
    {
        assert(l@.subrange(a as int, n as int).drop_first() =~= l@.subrange(
            a as int + 1,
            n as int,
        ));
        a += 1;
    }
    assert(trim_start(l@) =~= l@.subrange(a as int, n as int));
    let mut b: usize = n;
    while b > a && is_white_char(l.get_char(b - 1))
        invariant
            n == l@.len(),
            a <= b <= n,
            trim(l@) == trim_end(l@.subrange(a as int, b as int)),
        decreases b - a,
    {
        assert(l@.subrange(a as int, b as int).drop_last() =~= l@.subrange(
            a as int,
            b as int - 1,
        ));
        b -= 1;
    }
    assert(trim(l@) =~= l@.subrange(a as int, b as int));
    l.substring_char(a, b).len()
}

} // verus!

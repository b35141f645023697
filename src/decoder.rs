//! Transport decoder: turns byte chunks of an event-stream body into lines,
//! and lines into event payloads.
use vstd::prelude::*;
use vstd::slice::slice_to_vec;

verus! {

/// The line terminator, `\n`.
pub const NEWLINE: u8 = 10;

/// The lines that a byte stream read left to right has completed, and the
/// unfinished tail after the last terminator.
pub open spec fn split_lines(s: Seq<u8>) -> (Seq<Seq<u8>>, Seq<u8>)
    decreases s.len(),
{
    if s.len() == 0 {
        (Seq::empty(), Seq::empty())
    } else {
        let (lines, tail) = split_lines(s.drop_last());
        if s.last() == NEWLINE {
            (lines.push(tail), Seq::empty())
        } else {
            (lines, tail.push(s.last()))
        }
    }
}

pub open spec fn has_newline(s: Seq<u8>) -> bool {
    exists|i: int| 0 <= i < s.len() && s[i] == NEWLINE
}

/// The unfinished tail never holds a terminator.
pub proof fn lemma_tail_has_no_newline(s: Seq<u8>)
    ensures
        !has_newline(split_lines(s).1),
    decreases s.len(),
{
    if s.len() > 0 {
        lemma_tail_has_no_newline(s.drop_last());
        let t = split_lines(s.drop_last()).1;
        if s.last() != NEWLINE {
            assert forall|i: int| 0 <= i < t.push(s.last()).len() implies t.push(s.last())[i]
                != NEWLINE by {
                if i < t.len() {
                    assert(t.push(s.last())[i] == t[i]);
                }
            }
        }
    }
}

/// Bytes without a terminator complete no line and stay as the tail.
pub proof fn lemma_no_newline_stays_tail(s: Seq<u8>)
    requires
        !has_newline(s),
    ensures
        split_lines(s) == (Seq::<Seq<u8>>::empty(), s),
    decreases s.len(),
{
    if s.len() > 0 {
        let p = s.drop_last();
        assert(!has_newline(p)) by {
            if has_newline(p) {
                let i = choose|i: int| 0 <= i < p.len() && p[i] == NEWLINE;
                assert(s[i] == NEWLINE);
            }
        }
        lemma_no_newline_stays_tail(p);
        assert(s[s.len() - 1] != NEWLINE);
        assert(p.push(s.last()) =~= s);
    }
}

/// Splitting a stream in two and carrying the tail of the first part into
/// the second finds the same lines and the same tail as reading it whole,
/// wherever the split falls.
pub proof fn lemma_split_anywhere(a: Seq<u8>, b: Seq<u8>)
    ensures
        split_lines(a + b).0 == split_lines(a).0 + split_lines(split_lines(a).1 + b).0,
        split_lines(a + b).1 == split_lines(split_lines(a).1 + b).1,
    decreases b.len(),
{
    let t = split_lines(a).1;
    if b.len() == 0 {
        assert(a + b =~= a);
        assert(t + b =~= t);
        lemma_tail_has_no_newline(a);
        lemma_no_newline_stays_tail(t);
        assert(split_lines(a).0 + Seq::<Seq<u8>>::empty() =~= split_lines(a).0);
    } else {
        let b0 = b.drop_last();
        lemma_split_anywhere(a, b0);
        assert((a + b).drop_last() =~= a + b0);
        assert((t + b).drop_last() =~= t + b0);
        assert((a + b).last() == b.last());
        assert((t + b).last() == b.last());
        let l0 = split_lines(t + b0).0;
        assert(split_lines(a).0 + l0.push(split_lines(t + b0).1) =~= (split_lines(a).0
            + l0).push(split_lines(t + b0).1));
    }
}

/// The contents of each of a sequence of byte vectors.
pub open spec fn views_of(v: Seq<Vec<u8>>) -> Seq<Seq<u8>> {
    v.map_values(|l: Vec<u8>| l@)
}

/// Holds the bytes after the last complete line until more arrive.
pub struct LineDecoder {
    buffer: Vec<u8>,
}

impl View for LineDecoder {
    type V = Seq<u8>;

    closed spec fn view(&self) -> Seq<u8> {
        self.buffer@
    }
}

impl LineDecoder {
    /// A decoder with nothing buffered.
    pub fn new() -> (r: LineDecoder)
        ensures
            r@ == Seq::<u8>::empty(),
    {
        LineDecoder { buffer: Vec::new() }
    }

    /// Appends `chunk` to what is buffered and takes out every complete line,
    /// without its terminator; what follows the last terminator stays buffered.
    pub fn feed(&mut self, chunk: &[u8]) -> (lines: Vec<Vec<u8>>)
        ensures
            views_of(lines@) == split_lines(old(self)@ + chunk@).0,
            final(self)@ == split_lines(old(self)@ + chunk@).1,
    {
        let ghost all = self.buffer@ + chunk@;
        let mut lines: Vec<Vec<u8>> = Vec::new();
        let mut current: Vec<u8> = Vec::new();
        let n = self.buffer.len();
        let mut i: usize = 0;
        while i < n
            invariant
                n == self.buffer@.len(),
                all == self.buffer@ + chunk@,
                i <= n,
                (views_of(lines@), current@) == split_lines(all.subrange(0, i as int)),
            decreases n - i,
        {
            let b = self.buffer[i];
            proof {
                assert(all.subrange(0, i + 1).drop_last() =~= all.subrange(0, i as int));
                assert(all.subrange(0, i + 1).last() == b);
            }
            if b == NEWLINE {
                let ghost prev = views_of(lines@);
                let line = current;
                lines.push(line);
                current = Vec::new();
                proof {
                    assert(views_of(lines@) =~= prev.push(line@));
                }
            } else {
                current.push(b);
            }
            i = i + 1;
        }
        let m = chunk.len();
        let mut j: usize = 0;
        while j < m
            invariant
                n == self.buffer@.len(),
                m == chunk@.len(),
                all == self.buffer@ + chunk@,
                j <= m,
                (views_of(lines@), current@) == split_lines(all.subrange(0, n + j)),
            decreases m - j,
        {
            let b = chunk[j];
            proof {
                assert(all.subrange(0, n + j + 1).drop_last() =~= all.subrange(0, n + j));
                assert(all.subrange(0, n + j + 1).last() == b);
            }
            if b == NEWLINE {
                let ghost prev = views_of(lines@);
                let line = current;
                lines.push(line);
                current = Vec::new();
                proof {
                    assert(views_of(lines@) =~= prev.push(line@));
                }
            } else {
                current.push(b);
            }
            j = j + 1;
        }
        proof {
            assert(all.subrange(0, n + m) =~= all);
        }
        self.buffer = current;
        lines
    }

    /// At the end of the stream, hands out the unfinished last line, if any,
    /// and empties the buffer.
    pub fn flush_remainder(&mut self) -> (rest: Option<Vec<u8>>)
        ensures
            final(self)@ == Seq::<u8>::empty(),
            old(self)@.len() == 0 ==> rest is None,
            old(self)@.len() > 0 ==> rest is Some && rest->0@ == old(self)@,
    {
        if self.buffer.len() == 0 {
            None
        } else {
            let rest = self.buffer.clone();
            self.buffer = Vec::new();
            Some(rest)
        }
    }
}

/// ASCII whitespace: space, tab, line feed, vertical tab, form feed, carriage return.
pub open spec fn is_space(b: u8) -> bool {
    b == 32 || (9 <= b && b <= 13)
}

pub open spec fn trim_start(s: Seq<u8>) -> Seq<u8>
    decreases s.len(),
{
    if s.len() > 0 && is_space(s[0]) {
        trim_start(s.drop_first())
    } else {
        s
    }
}

pub open spec fn trim_end(s: Seq<u8>) -> Seq<u8>
    decreases s.len(),
{
    if s.len() > 0 && is_space(s.last()) {
        trim_end(s.drop_last())
    } else {
        s
    }
}

/// `s` without leading and trailing whitespace.
pub open spec fn trim(s: Seq<u8>) -> Seq<u8> {
    trim_end(trim_start(s))
}

/// The bytes of `data: `, which open a line that carries a payload.
pub open spec fn data_prefix() -> Seq<u8> {
    seq![100u8, 97, 116, 97, 58, 32]
}

/// The bytes of `[DONE]`, the payload that ends a stream.
pub open spec fn done_marker() -> Seq<u8> {
    seq![91u8, 68, 79, 78, 69, 93]
}

/// The trimmed line opens with `data: `.
pub open spec fn is_data_line(line: Seq<u8>) -> bool {
    let t = trim(line);
    t.len() >= 6 && t.subrange(0, 6) == data_prefix()
}

/// What follows `data: ` on a payload line, trimmed.
pub open spec fn payload_of(line: Seq<u8>) -> Seq<u8> {
    let t = trim(line);
    trim(t.subrange(6, t.len() as int))
}

/// The line ends the stream.
pub open spec fn is_done_line(line: Seq<u8>) -> bool {
    is_data_line(line) && payload_of(line) == done_marker()
}

/// What a line of the stream says.
pub enum SseLine {
    /// The payload `[DONE]`: the stream is complete.
    Done,
    /// Any other payload.
    Data(Vec<u8>),
    /// A comment, a keep-alive or a field other than `data`.
    Other,
}

/// Bounds of `s[lo..hi]` without its leading and trailing whitespace.
fn trim_range(s: &[u8], lo: usize, hi: usize) -> (r: (usize, usize))
    requires
        lo <= hi <= s@.len(),
    ensures
        lo <= r.0 <= r.1 <= hi,
        s@.subrange(r.0 as int, r.1 as int) == trim(s@.subrange(lo as int, hi as int)),
{
    let ghost whole = s@.subrange(lo as int, hi as int);
    let mut i: usize = lo;
    while i < hi && (s[i] == 32 || (9 <= s[i] && s[i] <= 13))
        invariant
            lo <= i <= hi <= s@.len(),
            trim_start(whole) == trim_start(s@.subrange(i as int, hi as int)),
        decreases hi - i,
    {
        assert(s@.subrange(i + 1, hi as int) =~= s@.subrange(i as int, hi as int).drop_first());
        i = i + 1;
    }
    assert(trim_start(whole) == s@.subrange(i as int, hi as int));
    let mut j: usize = hi;
    while j > i && (s[j - 1] == 32 || (9 <= s[j - 1] && s[j - 1] <= 13))
        invariant
            lo <= i <= j <= hi <= s@.len(),
            trim(whole) == trim_end(s@.subrange(i as int, j as int)),
        decreases j - i,
    {
        assert(s@.subrange(i as int, j - 1) =~= s@.subrange(i as int, j as int).drop_last());
        j = j - 1;
    }
    (i, j)
}

/// Reads one line of the stream.
pub fn classify_line(line: &[u8]) -> (r: SseLine)
    ensures
        match r {
            SseLine::Done => is_done_line(line@),
            SseLine::Data(p) => is_data_line(line@) && !is_done_line(line@) && p@ == payload_of(
                line@,
            ),
            SseLine::Other => !is_data_line(line@),
        },
{
    let (a, b) = trim_range(line, 0, line.len());
    assert(line@.subrange(0, line@.len() as int) =~= line@);
    let ghost t = trim(line@);
    assert(t =~= line@.subrange(a as int, b as int));
    if b - a < 6 || line[a] != 100 || line[a + 1] != 97 || line[a + 2] != 116 || line[a + 3] != 97
        || line[a + 4] != 58 || line[a + 5] != 32 {
        proof {
            if t.len() >= 6 && t.subrange(0, 6) == data_prefix() {
                assert(t.subrange(0, 6)[0] == t[0]);
                assert(t.subrange(0, 6)[1] == t[1]);
                assert(t.subrange(0, 6)[2] == t[2]);
                assert(t.subrange(0, 6)[3] == t[3]);
                assert(t.subrange(0, 6)[4] == t[4]);
                assert(t.subrange(0, 6)[5] == t[5]);
            }
        }
        return SseLine::Other;
    }
    assert(t.subrange(0, 6) =~= data_prefix());
    let (c, d) = trim_range(line, a + 6, b);
    assert(t.subrange(6, t.len() as int) =~= line@.subrange(a + 6, b as int));
    let payload = slice_to_vec(&line[c..d]);
    assert(payload@ == payload_of(line@));
    if d - c == 6 && line[c] == 91 && line[c + 1] == 68 && line[c + 2] == 79 && line[c + 3] == 78
        && line[c + 4] == 69 && line[c + 5] == 93 {
        assert(payload@ =~= done_marker());
        SseLine::Done
    } else {
        proof {
            if payload@ == done_marker() {
                assert(payload@[0] == line@[c as int]);
                assert(payload@[1] == line@[c + 1]);
                assert(payload@[2] == line@[c + 2]);
                assert(payload@[3] == line@[c + 3]);
                assert(payload@[4] == line@[c + 4]);
                assert(payload@[5] == line@[c + 5]);
            }
        }
        SseLine::Data(payload)
    }
}

} // verus!

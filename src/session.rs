//! One streamed exchange: decides, for each piece of the response, which
//! messages go to the consumer.
use vstd::prelude::*;
use vstd::string::StringExecFns;
use crate::decoder::{
    classify_line, is_data_line, is_done_line, payload_of, split_lines, LineDecoder, SseLine,
};
use crate::text::{decimal, decimal_text};

verus! {

/// The string that serde_json finds at the JSON pointer `pointer` in the
/// document `doc`; `None` where `doc` is no JSON document or holds no string
/// there.
pub uninterp spec fn json_str_at(doc: Seq<u8>, pointer: Seq<char>) -> Option<Seq<char>>;

/// Relies on serde_json::from_slice, Value::pointer and Value::as_str: parses
/// `doc` and reads the string that `pointer` addresses in it.
#[verifier::external_body]
fn string_at_pointer(doc: &[u8], pointer: &str) -> (r: Option<String>)
    ensures
        match r {
            Some(s) => json_str_at(doc@, pointer@) == Some(s@),
            None => json_str_at(doc@, pointer@) is None,
        },
{
    let value: serde_json::Value = serde_json::from_slice(doc).ok()?;
    value.pointer(pointer)?.as_str().map(|s| s.to_string())
}

/// `/choices/0/delta/content`: where an event holds its text increment.
pub open spec fn delta_pointer() -> Seq<char> {
    seq![
        '/', 'c', 'h', 'o', 'i', 'c', 'e', 's', '/', '0', '/', 'd', 'e', 'l', 't', 'a', '/', 'c',
        'o', 'n', 't', 'e', 'n', 't',
    ]
}

/// The text increment that an event payload carries, if any.
pub open spec fn fragment_of(payload: Seq<u8>) -> Option<Seq<char>> {
    json_str_at(payload, delta_pointer())
}

/// The text increment of an event payload; `None` for a payload that is
/// malformed or has no increment.
pub fn extract_fragment(payload: &[u8]) -> (r: Option<String>)
    ensures
        match r {
            Some(s) => fragment_of(payload@) == Some(s@),
            None => fragment_of(payload@) is None,
        },
{
    let pointer = "/choices/0/delta/content";
    proof {
        reveal_strlit("/choices/0/delta/content");
        assert(pointer@ =~= delta_pointer());
    }
    string_at_pointer(payload, pointer)
}

/// `__STREAM_END__`: the message that ends an exchange normally.
pub open spec fn stream_end_text() -> Seq<char> {
    seq!['_', '_', 'S', 'T', 'R', 'E', 'A', 'M', '_', 'E', 'N', 'D', '_', '_']
}

/// The message that ends an exchange normally.
pub fn stream_end() -> (r: String)
    ensures
        r@ == stream_end_text(),
{
    proof {
        reveal_strlit("__STREAM_END__");
    }
    let r = String::from_str("__STREAM_END__");
    assert(r@ =~= stream_end_text());
    r
}

/// The messages that a sequence of complete lines gives, in order, and
/// whether the stream has ended among them. Lines after the end give nothing.
pub open spec fn replies(lines: Seq<Seq<u8>>) -> (Seq<Seq<char>>, bool)
    decreases lines.len(),
{
    if lines.len() == 0 {
        (Seq::empty(), false)
    } else {
        let (out, done) = replies(lines.drop_last());
        let l = lines.last();
        if done || !is_data_line(l) {
            (out, done)
        } else if is_done_line(l) {
            (out.push(stream_end_text()), true)
        } else {
            match fragment_of(payload_of(l)) {
                Some(t) => (out.push(t), false),
                None => (out, false),
            }
        }
    }
}

/// No payload line of `ls` carries the increment `__STREAM_END__`.
pub open spec fn no_fragment_reads_end(ls: Seq<Seq<u8>>) -> bool {
    forall|k: int|
        0 <= k < ls.len() && is_data_line(ls[k]) && !is_done_line(ls[k]) ==> fragment_of(
            payload_of(#[trigger] ls[k]),
        ) != Some(stream_end_text())
}

/// Once the stream has ended, later lines send nothing more.
pub proof fn lemma_nothing_after_end(ls: Seq<Seq<u8>>, more: Seq<Seq<u8>>)
    requires
        replies(ls).1,
    ensures
        replies(ls + more) == replies(ls),
    decreases more.len(),
{
    if more.len() == 0 {
        assert(ls + more =~= ls);
    } else {
        lemma_nothing_after_end(ls, more.drop_last());
        assert((ls + more).drop_last() =~= ls + more.drop_last());
    }
}

/// Lines that hold a `[DONE]` event end the stream, and the last message is
/// `__STREAM_END__`; where no increment reads `__STREAM_END__` itself, that
/// terminal message is sent exactly once, after every increment.
pub proof fn lemma_single_terminator(ls: Seq<Seq<u8>>)
    requires
        exists|i: int| 0 <= i < ls.len() && is_done_line(#[trigger] ls[i]),
    ensures
        replies(ls).1,
        replies(ls).0.len() > 0,
        replies(ls).0.last() == stream_end_text(),
        no_fragment_reads_end(ls) ==> forall|j: int|
            0 <= j < replies(ls).0.len() - 1 ==> replies(ls).0[j] != stream_end_text(),
    decreases ls.len(),
{
    lemma_terminal_shape(ls);
}

proof fn lemma_terminal_shape(ls: Seq<Seq<u8>>)
    ensures
        (exists|i: int| 0 <= i < ls.len() && is_done_line(#[trigger] ls[i])) ==> replies(ls).1,
        replies(ls).1 ==> replies(ls).0.len() > 0 && replies(ls).0.last() == stream_end_text(),
        no_fragment_reads_end(ls) && replies(ls).1 ==> forall|j: int|
            0 <= j < replies(ls).0.len() - 1 ==> replies(ls).0[j] != stream_end_text(),
        no_fragment_reads_end(ls) && !replies(ls).1 ==> forall|j: int|
            0 <= j < replies(ls).0.len() ==> replies(ls).0[j] != stream_end_text(),
    decreases ls.len(),
{
    if ls.len() > 0 {
        let p = ls.drop_last();
        lemma_terminal_shape(p);
        assert(no_fragment_reads_end(ls) ==> no_fragment_reads_end(p)) by {
            if no_fragment_reads_end(ls) {
                assert forall|k: int|
                    0 <= k < p.len() && is_data_line(p[k]) && !is_done_line(
                        p[k],
                    ) implies fragment_of(payload_of(#[trigger] p[k])) != Some(
                    stream_end_text(),
                ) by {
                    assert(p[k] == ls[k]);
                }
            }
        }
        if exists|i: int| 0 <= i < ls.len() && is_done_line(#[trigger] ls[i]) {
            let i = choose|i: int| 0 <= i < ls.len() && is_done_line(#[trigger] ls[i]);
            if i < ls.len() - 1 {
                assert(p[i] == ls[i]);
            }
        }
        let l = ls.last();
        if no_fragment_reads_end(ls) && is_data_line(l) && !is_done_line(l) {
            assert(ls[ls.len() - 1] == l);
        }
    }
}

/// The contents of each of a sequence of strings.
pub open spec fn texts_of(v: Seq<String>) -> Seq<Seq<char>> {
    v.map_values(|m: String| m@)
}

/// The contents of an optional string.
pub open spec fn opt_text(o: Option<String>) -> Option<Seq<char>> {
    match o {
        Some(s) => Some(s@),
        None => None,
    }
}

/// An HTTP status in the success class, 200 to 299.
pub open spec fn is_success(status: u16) -> bool {
    200 <= status && status < 300
}

/// Whether `status` reports success.
pub fn is_success_status(status: u16) -> (r: bool)
    ensures
        r == is_success(status),
{
    200 <= status && status < 300
}

/// `Error: HTTP <status> - <body>`, with `Unknown error` for a body that
/// could not be read.
pub open spec fn http_error_text(status: u16, body: Option<Seq<char>>) -> Seq<char> {
    "Error: HTTP "@ + decimal(status as nat) + " - "@ + match body {
        Some(b) => b,
        None => "Unknown error"@,
    }
}

/// `Connection error: <cause>`.
pub open spec fn connection_error_text(cause: Seq<char>) -> Seq<char> {
    "Connection error: "@ + cause
}

/// The message for a response whose status is not a success.
pub fn http_error_message(status: u16, body: Option<String>) -> (r: String)
    ensures
        r@ == http_error_text(status, opt_text(body)),
{
    let mut r = String::from_str("Error: HTTP ");
    let code = decimal_text(status as u64);
    r.append(code.as_str());
    r.append(" - ");
    match body {
        Some(b) => r.append(b.as_str()),
        None => r.append("Unknown error"),
    }
    r
}

/// The message for a request that could not reach the server.
pub fn connection_error_message(cause: &str) -> (r: String)
    ensures
        r@ == connection_error_text(cause@),
{
    String::from_str("Connection error: ").concat(cause)
}

/// The producing side of one exchange: the line decoder of its body and
/// whether a terminal message has been sent.
pub struct StreamSession {
    decoder: LineDecoder,
    finished: bool,
}

impl StreamSession {
    /// Bytes received after the last complete line.
    pub closed spec fn pending(&self) -> Seq<u8> {
        self.decoder@
    }

    /// A terminal message has been sent, or the body has ended.
    pub closed spec fn finished(&self) -> bool {
        self.finished
    }

    /// A session that has received nothing.
    pub fn new() -> (r: StreamSession)
        ensures
            r.pending() == Seq::<u8>::empty(),
            !r.finished(),
    {
        StreamSession { decoder: LineDecoder::new(), finished: false }
    }

    /// Whether the exchange is over: nothing more is to be sent.
    pub fn is_finished(&self) -> (r: bool)
        ensures
            r == self.finished(),
    {
        self.finished
    }

    /// Decodes a chunk of the response body and returns the messages to send,
    /// in order: a text increment for each event that has one, then
    /// `__STREAM_END__` if the chunk completes the `[DONE]` event. After the
    /// end nothing more is returned.
    pub fn on_chunk(&mut self, chunk: &[u8]) -> (msgs: Vec<String>)
        ensures
            old(self).finished() ==> msgs@.len() == 0 && *final(self) == *old(self),
            !old(self).finished() ==> {
                let lines = split_lines(old(self).pending() + chunk@);
                &&& texts_of(msgs@) == replies(lines.0).0
                &&& final(self).finished() == replies(lines.0).1
                &&& final(self).pending() == lines.1
            },
    {
        if self.finished {
            return Vec::new();
        }
        let lines = self.decoder.feed(chunk);
        self.process_lines(&lines)
    }

    /// The body has ended: the unfinished last line, if any, is read as a
    /// line, and the session is over. No terminal message is added where the
    /// body did not hold `[DONE]`.
    pub fn on_body_end(&mut self) -> (msgs: Vec<String>)
        ensures
            final(self).finished(),
            final(self).pending() == Seq::<u8>::empty(),
            old(self).finished() ==> msgs@.len() == 0,
            !old(self).finished() && old(self).pending().len() == 0 ==> msgs@.len() == 0,
            !old(self).finished() && old(self).pending().len() > 0 ==> texts_of(msgs@) == replies(
                seq![old(self).pending()],
            ).0,
    {
        let rest = self.decoder.flush_remainder();
        if self.finished {
            return Vec::new();
        }
        let msgs = match rest {
            Some(line) => {
                let mut lines: Vec<Vec<u8>> = Vec::new();
                lines.push(line);
                proof {
                    assert(crate::decoder::views_of(lines@) =~= seq![old(self).pending()]);
                }
                self.process_lines(&lines)
            },
            None => Vec::new(),
        };
        self.finished = true;
        msgs
    }

    fn process_lines(&mut self, lines: &Vec<Vec<u8>>) -> (msgs: Vec<String>)
        requires
            !old(self).finished(),
        ensures
            texts_of(msgs@) == replies(crate::decoder::views_of(lines@)).0,
            final(self).finished() == replies(crate::decoder::views_of(lines@)).1,
            final(self).pending() == old(self).pending(),
    {
        let ghost ls = crate::decoder::views_of(lines@);
        let mut msgs: Vec<String> = Vec::new();
        let mut i: usize = 0;
        while i < lines.len()
            invariant
                ls == crate::decoder::views_of(lines@),
                i <= lines@.len(),
                self.pending() == old(self).pending(),
                (texts_of(msgs@), self.finished) == replies(ls.subrange(0, i as int)),
            decreases lines@.len() - i,
        {
            let ghost prev = texts_of(msgs@);
            proof {
                assert(ls.subrange(0, i + 1).drop_last() =~= ls.subrange(0, i as int));
                assert(ls.subrange(0, i + 1).last() == lines@[i as int]@);
            }
            if !self.finished {
                match classify_line(lines[i].as_slice()) {
                    SseLine::Done => {
                        msgs.push(stream_end());
                        self.finished = true;
                        assert(texts_of(msgs@) =~= prev.push(stream_end_text()));
                    },
                    SseLine::Data(payload) => {
                        match extract_fragment(payload.as_slice()) {
                            Some(t) => {
                                let ghost tv = t@;
                                msgs.push(t);
                                assert(texts_of(msgs@) =~= prev.push(tv));
                            },
                            None => {},
                        }
                    },
                    SseLine::Other => {},
                }
            }
            i = i + 1;
        }
        proof {
            assert(ls.subrange(0, lines@.len() as int) =~= ls);
        }
        msgs
    }

    /// The response's status is not a success: the one message to send is the
    /// error, and the session is over.
    pub fn on_http_error(&mut self, status: u16, body: Option<String>) -> (msgs: Vec<String>)
        ensures
            final(self).finished(),
            final(self).pending() == old(self).pending(),
            old(self).finished() ==> msgs@.len() == 0,
            !old(self).finished() ==> texts_of(msgs@) == seq![
                http_error_text(status, opt_text(body)),
            ],
    {
        let mut msgs: Vec<String> = Vec::new();
        if !self.finished {
            let m = http_error_message(status, body);
            let ghost mv = m@;
            msgs.push(m);
            assert(texts_of(msgs@) =~= seq![mv]);
            self.finished = true;
        }
        msgs
    }

    /// The request could not be sent or answered: the one message to send is
    /// the error, and the session is over.
    pub fn on_connection_error(&mut self, cause: &str) -> (msgs: Vec<String>)
        ensures
            final(self).finished(),
            final(self).pending() == old(self).pending(),
            old(self).finished() ==> msgs@.len() == 0,
            !old(self).finished() ==> texts_of(msgs@) == seq![connection_error_text(cause@)],
    {
        let mut msgs: Vec<String> = Vec::new();
        if !self.finished {
            let m = connection_error_message(cause);
            let ghost mv = m@;
            msgs.push(m);
            assert(texts_of(msgs@) =~= seq![mv]);
            self.finished = true;
        }
        msgs
    }
}

} // verus!

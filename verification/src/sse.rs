//! The stream decoder: turns the `data: `-prefixed lines of a server-sent
//! event body into accumulated reply text, one line at a time, until the
//! `[DONE]` sentinel.

use vstd::prelude::*;
use vstd::string::{StrSliceExecFns, StringExecFns};
use crate::text::{is_ws_char, str_eq, trim_str, trimmed};

verus! {

/// The text, if any, that the JSON document `doc` holds at the location the
/// JSON pointer `pointer` names. This is what `serde_json` computes; it is a
/// function of the two arguments alone and is not spelled out here.
pub uninterp spec fn json_text_at(doc: Seq<char>, pointer: Seq<char>) -> Option<Seq<char>>;

/// Relies on `serde_json::from_str::<Value>`, `Value::pointer` and
/// `Value::as_str`: parsing a complete JSON document, walking it along an
/// RFC 6901 pointer, and reading a string leaf are each pure functions of the
/// text alone, so together they compute `json_text_at(doc@, pointer@)`. A
/// document that does not parse, a location that is absent, and a leaf that is
/// not a string all yield `None`.
#[verifier::external_body]
fn lookup_json_text(doc: &str, pointer: &str) -> (r: Option<String>)
    ensures
        r.deep_view() == json_text_at(doc@, pointer@),
{
    let parsed = match serde_json::from_str::<serde_json::Value>(doc) {
        Ok(v) => v,
        Err(_) => return None,
    };
    let found = match parsed.pointer(pointer) {
        Some(v) => v,
        None => return None,
    };
    match found.as_str() {
        Some(s) => Some(s.to_owned()),
        None => None,
    }
}

/// The pointer to the incremental fragment of a streamed chunk.
pub open spec fn delta_pointer() -> Seq<char> {
    "/choices/0/delta/content"@
}

/// The pointer to the reply text of a non-streaming response body.
pub open spec fn message_pointer() -> Seq<char> {
    "/choices/0/message/content"@
}

/// Read the reply text of a non-streaming response body, if it carries one.
pub fn extract_message_content(body: &str) -> (r: Option<String>)
    ensures
        r.deep_view() == json_text_at(body@, message_pointer()),
{
    lookup_json_text(body, "/choices/0/message/content")
}

/// The payload prefix that marks an SSE data line.
pub open spec fn data_prefix() -> Seq<char> {
    "data: "@
}

/// Whether `line` is a `data: ` line.
pub open spec fn has_data_prefix(line: Seq<char>) -> bool {
    line.len() >= 6 && line.subrange(0, 6) == data_prefix()
}

/// The payload of a `data: ` line: everything after the prefix.
pub open spec fn payload_of(line: Seq<char>) -> Seq<char> {
    line.subrange(6, line.len() as int)
}

/// Whether a payload is the end-of-stream sentinel.
pub open spec fn is_done_payload(payload: Seq<char>) -> bool {
    trimmed(payload) == "[DONE]"@
}

/// The text fragment a payload contributes, if it parses as a chunk that
/// carries one.
pub open spec fn fragment_of(payload: Seq<char>) -> Option<Seq<char>> {
    json_text_at(payload, delta_pointer())
}

/// The decoder's abstract state: the text accumulated so far, and whether the
/// end-of-stream sentinel has been seen.
pub struct DecodeState {
    pub text: Seq<char>,
    pub done: bool,
}

/// The state a decoder starts in.
pub open spec fn initial_state() -> DecodeState {
    DecodeState { text: Seq::empty(), done: false }
}

/// The transition one line causes. After the sentinel nothing changes; a line
/// without the `data: ` prefix changes nothing; the sentinel payload ends the
/// stream; a payload that carries a fragment appends it; every other payload
/// is skipped.
pub open spec fn step_line(st: DecodeState, line: Seq<char>) -> DecodeState {
    if st.done {
        st
    } else if !has_data_prefix(line) {
        st
    } else if is_done_payload(payload_of(line)) {
        DecodeState { text: st.text, done: true }
    } else {
        match fragment_of(payload_of(line)) {
            Some(f) => DecodeState { text: st.text + f, done: false },
            None => st,
        }
    }
}

/// The state after consuming `lines` in order, starting from `st`.
pub open spec fn run_lines(st: DecodeState, lines: Seq<Seq<char>>) -> DecodeState
    decreases lines.len(),
{
    if lines.len() == 0 {
        st
    } else {
        run_lines(step_line(st, lines[0]), lines.drop_first())
    }
}

/// What one fed line did.
pub enum FeedOutcome {
    /// The line carried this fragment; it was appended to the accumulator.
    Emitted(String),
    /// The line changed nothing.
    Skipped,
    /// The line was the end-of-stream sentinel.
    Done,
}

/// An incremental SSE decoder. One instance serves one request: it is
/// constructed empty, fed the response's lines in order, and yields the
/// accumulated reply once the stream ends.
pub struct SseDecoder {
    text: String,
    done: bool,
}

impl View for SseDecoder {
    type V = DecodeState;

    closed spec fn view(&self) -> DecodeState {
        DecodeState { text: self.text@, done: self.done }
    }
}

impl SseDecoder {
    /// A fresh decoder with an empty accumulator.
    pub fn new() -> (r: SseDecoder)
        ensures
            r@ == initial_state(),
    {
        SseDecoder { text: String::new(), done: false }
    }

    /// Whether the end-of-stream sentinel has been seen.
    pub fn is_done(&self) -> (r: bool)
        ensures
            r == self@.done,
    {
        self.done
    }

    /// A view of the text accumulated so far.
    pub fn accumulated(&self) -> (r: &String)
        ensures
            r@ == self@.text,
    {
        &self.text
    }

    /// Hand the accumulated text off once decoding is over.
    pub fn into_text(self) -> (r: String)
        ensures
            r@ == self@.text,
    {
        self.text
    }

    /// Consume one line of the response body. The new state is exactly
    /// `step_line` of the old; the outcome says which of the three transitions
    /// the line took, and carries the fragment when one was emitted.
    pub fn feed_line(&mut self, line: &str) -> (r: FeedOutcome)
        ensures
            final(self)@ == step_line(old(self)@, line@),
            (r is Done) <==> (!old(self)@.done && has_data_prefix(line@) && is_done_payload(
                payload_of(line@),
            )),
            (r is Emitted) <==> (!old(self)@.done && has_data_prefix(line@) && !is_done_payload(
                payload_of(line@),
            ) && fragment_of(payload_of(line@)) is Some),
            (r matches FeedOutcome::Emitted(f) ==> Some(f@) == fragment_of(payload_of(line@))),
    {
        if self.done {
            return FeedOutcome::Skipped;
        }
        let len = line.unicode_len();
        if len < 6 {
            return FeedOutcome::Skipped;
        }
        let prefix = line.substring_char(0, 6);
        if !str_eq(prefix, "data: ") {
            return FeedOutcome::Skipped;
        }
        let payload = line.substring_char(6, len);
        proof {
            assert(payload@ == payload_of(line@));
        }
        let t = trim_str(payload);
        if str_eq(t, "[DONE]") {
            self.done = true;
            return FeedOutcome::Done;
        }
        match lookup_json_text(payload, "/choices/0/delta/content") {
            Some(f) => {
                self.text.append(f.as_str());
                FeedOutcome::Emitted(f)
            },
            None => FeedOutcome::Skipped,
        }
    }
}

/// Index of the first newline in `s`, or `s.len()` when there is none.
pub open spec fn first_newline(s: Seq<char>) -> nat
    decreases s.len(),
{
    if s.len() == 0 {
        0
    } else if s[0] == '\n' {
        0
    } else {
        first_newline(s.drop_first()) + 1
    }
}

/// Any index with the defining properties of `first_newline` — nothing
/// before it is a newline, and it sits on one unless it is the length — is
/// `first_newline`.
pub proof fn lemma_first_newline_unique(s: Seq<char>, k: int)
    requires
        0 <= k <= s.len(),
        forall|j: int| 0 <= j < k ==> s[j] != '\n',
        k < s.len() ==> s[k] == '\n',
    ensures
        first_newline(s) == k,
    decreases s.len(),
{
    if s.len() == 0 {
    } else if s[0] == '\n' {
        assert(k == 0);
    } else {
        assert(k >= 1);
        assert forall|j: int| 0 <= j < k - 1 implies s.drop_first()[j] != '\n' by {
            assert(s.drop_first()[j] == s[j + 1]);
        }
        if k - 1 < s.drop_first().len() {
            assert(s.drop_first()[k - 1] == s[k]);
        }
        lemma_first_newline_unique(s.drop_first(), k - 1);
    }
}

/// A line with one trailing carriage return removed, as line reading yields
/// it.
pub open spec fn strip_cr(l: Seq<char>) -> Seq<char> {
    if l.len() > 0 && l.last() == '\r' {
        l.drop_last()
    } else {
        l
    }
}

/// The body split into lines at each newline, each line stripped of one
/// trailing carriage return. A trailing newline produces no empty final line.
pub open spec fn split_lines(s: Seq<char>) -> Seq<Seq<char>>
    decreases s.len(),
{
    if s.len() == 0 {
        Seq::empty()
    } else {
        let i = first_newline(s);
        if i >= s.len() {
            seq![strip_cr(s)]
        } else {
            seq![strip_cr(s.subrange(0, i as int))] + split_lines(
                s.subrange(i as int + 1, s.len() as int),
            )
        }
    }
}

/// Once the sentinel was seen, further lines change nothing.
pub proof fn lemma_run_lines_done(st: DecodeState, lines: Seq<Seq<char>>)
    requires
        st.done,
    ensures
        run_lines(st, lines) == st,
    decreases lines.len(),
{
    if lines.len() > 0 {
        lemma_run_lines_done(st, lines.drop_first());
    }
}

/// Decode a complete SSE body: split it into lines and feed them in order,
/// reading nothing further once the sentinel line was seen. Returns the
/// accumulated text and whether the sentinel was seen.
pub fn decode_sse_body(body: &str) -> (r: (String, bool))
    ensures
        ({
            let st = run_lines(initial_state(), split_lines(body@));
            r.0@ == st.text && r.1 == st.done
        }),
{
    let mut dec = SseDecoder::new();
    let len = body.unicode_len();
    proof {
        assert(body@.subrange(0, len as int) =~= body@);
    }
    let mut pos: usize = 0;
    while pos < len && !dec.is_done()
        invariant
            pos <= len,
            len == body@.len(),
            run_lines(initial_state(), split_lines(body@)) == run_lines(
                dec@,
                split_lines(body@.subrange(pos as int, len as int)),
            ),
        decreases len - pos,
    {
        let ghost rest = body@.subrange(pos as int, len as int);
        let ghost dec0 = dec@;
        let mut j: usize = pos;
        while j < len && body.get_char(j) != '\n'
            invariant
                pos <= j <= len,
                len == body@.len(),
                forall|k: int| pos <= k < j ==> body@[k] != '\n',
            decreases len - j,
        {
            j = j + 1;
        }
        proof {
            assert forall|q: int| 0 <= q < j - pos implies rest[q] != '\n' by {
                assert(rest[q] == body@[pos + q]);
            }
            if j < len {
                assert(rest[j - pos] == body@[j as int]);
            }
            lemma_first_newline_unique(rest, j - pos);
        }
        let has_cr = j > pos && body.get_char(j - 1) == '\r';
        let line_end = if has_cr {
            j - 1
        } else {
            j
        };
        let line = body.substring_char(pos, line_end);
        proof {
            let raw = body@.subrange(pos as int, j as int);
            assert(raw =~= rest.subrange(0, j - pos));
            if has_cr {
                assert(raw.last() == body@[j - 1]);
                assert(line@ =~= raw.drop_last());
            }
            assert(line@ == strip_cr(raw));
        }
        let _ = dec.feed_line(line);
        proof {
            let i = first_newline(rest);
            if j < len {
                let next = body@.subrange(j as int + 1, len as int);
                assert(rest.subrange(0, i as int) =~= body@.subrange(pos as int, j as int));
                assert(rest.subrange(i as int + 1, rest.len() as int) =~= next);
                assert(split_lines(rest) == seq![line@] + split_lines(next));
                assert((seq![line@] + split_lines(next))[0] == line@);
                assert((seq![line@] + split_lines(next)).drop_first() =~= split_lines(next));
                assert(run_lines(dec0, split_lines(rest)) == run_lines(dec@, split_lines(next)));
            } else {
                assert(rest =~= body@.subrange(pos as int, j as int));
                assert(split_lines(rest) == seq![line@]);
                assert(seq![line@][0] == line@);
                assert(seq![line@].drop_first() =~= Seq::<Seq<char>>::empty());
                assert(run_lines(dec0, seq![line@]) == run_lines(
                    step_line(dec0, line@),
                    seq![line@].drop_first(),
                ));
                assert(run_lines(step_line(dec0, line@), Seq::<Seq<char>>::empty()) == step_line(
                    dec0,
                    line@,
                ));
                assert(step_line(dec0, line@) == dec@);
                assert(run_lines(dec0, split_lines(rest)) == dec@);
                assert(split_lines(body@.subrange(len as int, len as int)) =~= Seq::<Seq<
                    char,
                >>::empty());
            }
        }
        if j < len {
            pos = j + 1;
        } else {
            pos = len;
        }
    }
    proof {
        let rest = body@.subrange(pos as int, len as int);
        if pos == len {
            assert(rest =~= Seq::<char>::empty());
            assert(split_lines(rest) == Seq::<Seq<char>>::empty());
        } else {
            lemma_run_lines_done(dec@, split_lines(rest));
        }
    }
    let done = dec.is_done();
    (dec.into_text(), done)
}

/// A line that is blank, or that does not start with `data: `, never alters
/// the decoder's state.
pub proof fn lemma_skip_line(st: DecodeState, line: Seq<char>)
    requires
        crate::text::is_blank(line) || !has_data_prefix(line),
    ensures
        step_line(st, line) == st,
{
    if has_data_prefix(line) {
        reveal_strlit("data: ");
        assert(line.subrange(0, 6)[0] == line[0]);
        assert(line[0] == 'd');
        assert(exists|i: int| 0 <= i < line.len() && !is_ws_char(line[i]));
        crate::text::lemma_trimmed_keeps_content(line);
    }
}

/// A `data: ` line whose payload yields no fragment and is not the sentinel
/// is skipped without error and without ending the stream.
pub proof fn lemma_malformed_chunk_is_skipped(st: DecodeState, line: Seq<char>)
    requires
        has_data_prefix(line),
        !is_done_payload(payload_of(line)),
        fragment_of(payload_of(line)) is None,
    ensures
        step_line(st, line) == st,
{
}

/// Decoding is a function of the body text alone: two decoders built over
/// independent copies of the same byte stream accumulate identical text.
pub proof fn lemma_decode_deterministic(body1: Seq<char>, body2: Seq<char>)
    requires
        body1 == body2,
    ensures
        run_lines(initial_state(), split_lines(body1)) == run_lines(
            initial_state(),
            split_lines(body2),
        ),
{
}

} // verus!

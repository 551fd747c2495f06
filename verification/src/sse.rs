//! Server-Sent-Events frame decoding.
//!
//! Provider responses arrive as byte chunks cut at arbitrary positions.  The
//! decoder buffers bytes and yields complete frames: blank-line-delimited
//! (`\n\n`) for providers that send multi-line events, newline-delimited for
//! providers that send one event per line.  Decoding is proved to depend
//! only on the concatenation of the bytes fed in, never on where the chunk
//! boundaries fall.

use vstd::prelude::*;

use crate::text::{spec_starts_with, str_starts_with};

verus! {

/// Line feed.
pub const LF: u8 = 10;

/// Carriage return.
pub const CR: u8 = 13;

/// How a provider separates frames in its event stream.
#[derive(Clone, Copy, PartialEq, Eq, Structural)]
pub enum FrameDelimiter {
    /// Frames end at a blank line (`\n\n`).
    BlankLine,
    /// Frames end at a single newline; trailing carriage returns are stripped.
    Newline,
}

/// Bytes consumed by one delimiter.
pub open spec fn spec_delim_len(d: FrameDelimiter) -> int {
    match d {
        FrameDelimiter::BlankLine => 2,
        FrameDelimiter::Newline => 1,
    }
}

/// A delimiter occurrence starts at position `i` of `buf`.
pub open spec fn spec_delim_at(buf: Seq<u8>, d: FrameDelimiter, i: int) -> bool {
    match d {
        FrameDelimiter::BlankLine => 0 <= i && i + 2 <= buf.len() && buf[i] == LF && buf[i + 1]
            == LF,
        FrameDelimiter::Newline => 0 <= i && i + 1 <= buf.len() && buf[i] == LF,
    }
}

/// Position of the first delimiter occurrence in `buf`, if any.
pub open spec fn spec_find_delim(buf: Seq<u8>, d: FrameDelimiter) -> Option<int>
    decreases buf.len(),
{
    if spec_delim_at(buf, d, 0) {
        Some(0int)
    } else if buf.len() == 0 {
        None
    } else {
        match spec_find_delim(buf.drop_first(), d) {
            Some(i) => Some(i + 1),
            None => None,
        }
    }
}

proof fn lemma_delim_tail(buf: Seq<u8>, d: FrameDelimiter, i: int)
    requires
        buf.len() > 0,
        0 <= i,
    ensures
        spec_delim_at(buf.drop_first(), d, i) <==> spec_delim_at(buf, d, i + 1),
{
}

/// `spec_find_delim` returns the first occurrence, or reports that none exists.
pub proof fn lemma_find_delim_correct(buf: Seq<u8>, d: FrameDelimiter)
    ensures
        match spec_find_delim(buf, d) {
            Some(i) => spec_delim_at(buf, d, i) && forall|j: int|
                0 <= j < i ==> !spec_delim_at(buf, d, j),
            None => forall|j: int| !spec_delim_at(buf, d, j),
        },
    decreases buf.len(),
{
    if spec_delim_at(buf, d, 0) {
    } else if buf.len() == 0 {
    } else {
        lemma_find_delim_correct(buf.drop_first(), d);
        match spec_find_delim(buf.drop_first(), d) {
            Some(i) => {
                lemma_delim_tail(buf, d, i);
                assert forall|j: int| 0 <= j < i + 1 implies !spec_delim_at(buf, d, j) by {
                    if j > 0 {
                        lemma_delim_tail(buf, d, j - 1);
                    }
                }
            },
            None => {
                assert forall|j: int| !spec_delim_at(buf, d, j) by {
                    if spec_delim_at(buf, d, j) && j > 0 {
                        lemma_delim_tail(buf, d, j - 1);
                    }
                }
            },
        }
    }
}

/// `s` with every trailing carriage return removed.
pub open spec fn spec_strip_cr_end(s: Seq<u8>) -> Seq<u8>
    decreases s.len(),
{
    if s.len() > 0 && s[s.len() - 1] == CR {
        spec_strip_cr_end(s.drop_last())
    } else {
        s
    }
}

/// The frame cut at a delimiter found at position `i`.
pub open spec fn spec_frame_of(buf: Seq<u8>, d: FrameDelimiter, i: int) -> Seq<u8> {
    match d {
        FrameDelimiter::BlankLine => buf.subrange(0, i),
        FrameDelimiter::Newline => spec_strip_cr_end(buf.subrange(0, i)),
    }
}

/// What remains buffered after cutting a frame at position `i`.
pub open spec fn spec_rest_of(buf: Seq<u8>, d: FrameDelimiter, i: int) -> Seq<u8> {
    buf.subrange(i + spec_delim_len(d), buf.len() as int)
}

/// All complete frames in `buf`, in order, and the remaining tail that holds
/// no delimiter.
pub open spec fn spec_decode(buf: Seq<u8>, d: FrameDelimiter) -> (Seq<Seq<u8>>, Seq<u8>)
    decreases buf.len(),
        via spec_decode_decreases
{
    match spec_find_delim(buf, d) {
        Some(i) => {
            let rec = spec_decode(spec_rest_of(buf, d, i), d);
            (seq![spec_frame_of(buf, d, i)] + rec.0, rec.1)
        },
        None => (Seq::empty(), buf),
    }
}

#[via_fn]
proof fn spec_decode_decreases(buf: Seq<u8>, d: FrameDelimiter) {
    lemma_find_delim_correct(buf, d);
    match spec_find_delim(buf, d) {
        Some(i) => {
            assert(spec_rest_of(buf, d, i).len() < buf.len());
        },
        None => {},
    }
}

/// Appending bytes to a stream extends its decoding: the frames already cut
/// stay cut, and decoding continues from the remaining tail.
pub proof fn lemma_decode_append(fed: Seq<u8>, tail: Seq<u8>, d: FrameDelimiter)
    ensures
        spec_decode(fed + tail, d).0 == spec_decode(fed, d).0 + spec_decode(
            spec_decode(fed, d).1 + tail,
            d,
        ).0,
        spec_decode(fed + tail, d).1 == spec_decode(spec_decode(fed, d).1 + tail, d).1,
    decreases fed.len(),
{
    lemma_find_delim_correct(fed, d);
    match spec_find_delim(fed, d) {
        None => {
            assert(spec_decode(fed, d) == (Seq::<Seq<u8>>::empty(), fed));
            assert(spec_decode(fed, d).0 + spec_decode(fed + tail, d).0 =~= spec_decode(
                fed + tail,
                d,
            ).0);
        },
        Some(i) => {
            let whole = fed + tail;
            lemma_find_delim_correct(whole, d);
            assert(spec_delim_at(whole, d, i));
            assert forall|j: int| 0 <= j < i implies !spec_delim_at(whole, d, j) by {
                if spec_delim_at(whole, d, j) {
                    assert(j + spec_delim_len(d) <= i + spec_delim_len(d) <= fed.len());
                    assert(spec_delim_at(fed, d, j));
                }
            }
            match spec_find_delim(whole, d) {
                None => {
                    assert(false);
                },
                Some(q) => {
                    if q < i {
                        assert(!spec_delim_at(whole, d, q));
                        assert(false);
                    }
                    if q > i {
                        assert(!spec_delim_at(whole, d, i));
                        assert(false);
                    }
                },
            }
            assert(whole.subrange(0, i) =~= fed.subrange(0, i));
            assert(spec_frame_of(whole, d, i) == spec_frame_of(fed, d, i));
            let restw = spec_rest_of(whole, d, i);
            let restf = spec_rest_of(fed, d, i);
            assert(restw =~= restf + tail);
            lemma_decode_append(restf, tail, d);
            assert(spec_decode(whole, d).0 =~= spec_decode(fed, d).0 + spec_decode(
                spec_decode(fed, d).1 + tail,
                d,
            ).0);
        },
    }
}

/// Buffers a byte stream and cuts it into complete frames.
///
/// `fed` and `frames` are the ghost history of all bytes pushed in and all
/// frames handed out; the invariant ties them to the visible buffer, so the
/// decoding provably depends on the byte stream alone.
pub struct FrameDecoder {
    /// The delimiter convention in force.
    pub delim: FrameDelimiter,
    /// Bytes received but not yet cut into a complete frame.
    pub buffer: Vec<u8>,
    /// Every byte ever pushed, in order.
    pub fed: Ghost<Seq<u8>>,
    /// Every frame ever handed out, in order.
    pub frames: Ghost<Seq<Seq<u8>>>,
}

impl FrameDecoder {
    /// The ghost history matches the visible state.
    pub open spec fn wf(self) -> bool {
        spec_decode(self.fed@, self.delim) == (self.frames@, self.buffer@)
    }

    /// A fresh decoder for the given delimiter convention.
    pub fn new(delim: FrameDelimiter) -> (r: FrameDecoder)
        ensures
            r.wf(),
            r.delim == delim,
            r.fed@ == Seq::<u8>::empty(),
            r.frames@ == Seq::<Seq<u8>>::empty(),
    {
        let r = FrameDecoder { delim, buffer: Vec::new(), fed: Ghost(Seq::empty()), frames: Ghost(
            Seq::empty(),
        ) };
        proof {
            assert(spec_find_delim(r.fed@, delim) is None);
        }
        r
    }

    /// Feed one chunk of bytes; returns every frame completed by it.
    pub fn push_chunk(&mut self, chunk: &[u8]) -> (out: Vec<Vec<u8>>)
        requires
            old(self).wf(),
        ensures
            final(self).wf(),
            final(self).delim == old(self).delim,
            final(self).fed@ == old(self).fed@ + chunk@,
            final(self).frames@ == old(self).frames@ + out.deep_view(),
    {
        let ghost old_fed = self.fed@;
        let ghost old_frames = self.frames@;
        let ghost old_buf = self.buffer@;
        let d = self.delim;
        let mut j: usize = 0;
        let n = chunk.len();
        while j < n
            invariant
                j <= n,
                n == chunk@.len(),
                self.buffer@ == old_buf + chunk@.subrange(0, j as int),
                self.delim == d,
                self.fed@ == old_fed,
                self.frames@ == old_frames,
            decreases n - j,
        {
            let b = chunk[j];
            self.buffer.push(b);
            proof {
                assert(old_buf + chunk@.subrange(0, j + 1) =~= (old_buf + chunk@.subrange(
                    0,
                    j as int,
                )).push(chunk@[j as int]));
            }
            j += 1;
        }
        proof {
            assert(chunk@.subrange(0, n as int) =~= chunk@);
        }
        let ghost orig = self.buffer@;
        let mut out: Vec<Vec<u8>> = Vec::new();
        loop
            invariant
                self.delim == d,
                self.fed@ == old_fed,
                self.frames@ == old_frames,
                spec_decode(orig, d).0 == out.deep_view() + spec_decode(self.buffer@, d).0,
                spec_decode(orig, d).1 == spec_decode(self.buffer@, d).1,
            ensures
                self.delim == d,
                self.fed@ == old_fed,
                self.frames@ == old_frames,
                spec_decode(orig, d).0 == out.deep_view() + spec_decode(self.buffer@, d).0,
                spec_decode(orig, d).1 == spec_decode(self.buffer@, d).1,
                spec_find_delim(self.buffer@, d) is None,
            decreases self.buffer@.len(),
        {
            proof {
                assert(out.deep_view() + Seq::<Seq<u8>>::empty() =~= out.deep_view());
            }
            match find_delim(&self.buffer, d) {
                None => {
                    break ;
                },
                Some(i) => {
                    let ghost cur = self.buffer@;
                    let dl: usize = match d {
                        FrameDelimiter::BlankLine => 2,
                        FrameDelimiter::Newline => 1,
                    };
                    proof {
                        lemma_find_delim_correct(cur, d);
                    }
                    let raw = take_range(&self.buffer, 0, i);
                    let frame = match d {
                        FrameDelimiter::BlankLine => raw,
                        FrameDelimiter::Newline => strip_trailing_crs(raw),
                    };
                    let blen = self.buffer.len();
                    let rest = take_range(&self.buffer, i + dl, blen);
                    self.buffer = rest;
                    proof {
                        assert(frame@ == spec_frame_of(cur, d, i as int));
                        assert(self.buffer@ == spec_rest_of(cur, d, i as int));
                        assert(spec_decode(cur, d).0 == seq![spec_frame_of(cur, d, i as int)]
                            + spec_decode(self.buffer@, d).0);
                    }
                    let ghost pre = out.deep_view();
                    out.push(frame);
                    proof {
                        assert(out.deep_view() =~~= pre.push(frame@));
                        assert(pre + (seq![spec_frame_of(cur, d, i as int)] + spec_decode(
                            self.buffer@,
                            d,
                        ).0) =~~= out.deep_view() + spec_decode(self.buffer@, d).0);
                    }
                },
            }
        }
        proof {
            self.fed@ = old_fed + chunk@;
            self.frames@ = old_frames + out.deep_view();
            lemma_decode_append(old_fed, chunk@, d);
            assert(old_buf + chunk@ == orig);
            assert(out.deep_view() + Seq::<Seq<u8>>::empty() =~= out.deep_view());
            assert(spec_decode(orig, d).0 == out.deep_view());
            assert(spec_decode(orig, d).1 == self.buffer@);
        }
        out
    }
}

/// Two decoders with the same delimiter convention that were fed the same
/// bytes have handed out the same frames and hold the same tail — however
/// differently the stream was cut into chunks.
pub proof fn lemma_frames_from_bytes_alone(a: FrameDecoder, b: FrameDecoder)
    requires
        a.wf(),
        b.wf(),
        a.delim == b.delim,
        a.fed@ == b.fed@,
    ensures
        a.frames@ == b.frames@,
        a.buffer@ == b.buffer@,
{
}

/// The characters that permissive UTF-8 decoding yields for given bytes:
/// a pure function of the bytes, named here and given meaning only by the
/// trusted wrapper below.
pub uninterp spec fn lossy_of(b: Seq<u8>) -> Seq<char>;

/// Relies on `String::from_utf8_lossy`: deterministic in the bytes; invalid
/// sequences are replaced, never an error.
#[verifier::external_body]
pub fn lossy_decode(bytes: &[u8]) -> (r: String)
    ensures
        r@ == lossy_of(bytes@),
{
    String::from_utf8_lossy(bytes).into_owned()
}

/// Position of the first newline in `s`.
pub open spec fn spec_find_nl(s: Seq<char>) -> Option<int>
    decreases s.len(),
{
    if s.len() == 0 {
        None
    } else if s[0] == '\n' {
        Some(0int)
    } else {
        match spec_find_nl(s.drop_first()) {
            Some(i) => Some(i + 1),
            None => None,
        }
    }
}

/// `spec_find_nl` finds the first newline, or reports that none exists.
pub proof fn lemma_find_nl_correct(s: Seq<char>)
    ensures
        match spec_find_nl(s) {
            Some(i) => 0 <= i < s.len() && s[i] == '\n' && forall|j: int|
                0 <= j < i ==> s[j] != '\n',
            None => forall|j: int| 0 <= j < s.len() ==> s[j] != '\n',
        },
    decreases s.len(),
{
    if s.len() > 0 && s[0] != '\n' {
        lemma_find_nl_correct(s.drop_first());
        match spec_find_nl(s.drop_first()) {
            Some(i) => {
                assert(s.drop_first()[i] == s[i + 1]);
                assert forall|j: int| 0 <= j < i + 1 implies s[j] != '\n' by {
                    if j > 0 {
                        assert(s.drop_first()[j - 1] == s[j]);
                    }
                }
            },
            None => {
                assert forall|j: int| 0 <= j < s.len() implies s[j] != '\n' by {
                    if j > 0 {
                        assert(s.drop_first()[j - 1] == s[j]);
                    }
                }
            },
        }
    }
}

/// A line with at most one trailing carriage return removed.
pub open spec fn spec_strip_one_cr(s: Seq<char>) -> Seq<char> {
    if s.len() > 0 && s[s.len() - 1] == '\r' {
        s.drop_last()
    } else {
        s
    }
}

/// The lines of `s`: split at newlines, one trailing carriage return
/// stripped from each terminated line, no empty final line.
pub open spec fn spec_split_lines(s: Seq<char>) -> Seq<Seq<char>>
    decreases s.len(),
        via spec_split_lines_decreases
{
    if s.len() == 0 {
        Seq::empty()
    } else {
        match spec_find_nl(s) {
            Some(i) => seq![spec_strip_one_cr(s.subrange(0, i))] + spec_split_lines(
                s.subrange(i + 1, s.len() as int),
            ),
            None => seq![s],
        }
    }
}

#[via_fn]
proof fn spec_split_lines_decreases(s: Seq<char>) {
    lemma_find_nl_correct(s);
}

/// The lines of `s`, as owned strings.
pub fn split_lines(s: &str) -> (out: Vec<String>)
    ensures
        out.deep_view() == spec_split_lines(s@),
{
    let n = s.unicode_len();
    let mut out: Vec<String> = Vec::new();
    let mut pos: usize = 0;
    proof {
        assert(s@.subrange(0, n as int) =~= s@);
        assert(out.deep_view() =~= Seq::<Seq<char>>::empty());
        assert(out.deep_view() + spec_split_lines(s@) =~= spec_split_lines(s@));
    }
    loop
        invariant_except_break
            pos <= n,
            n == s@.len(),
            spec_split_lines(s@) == out.deep_view() + spec_split_lines(
                s@.subrange(pos as int, n as int),
            ),
        ensures
            spec_split_lines(s@) == out.deep_view(),
        decreases n - pos,
    {
        let ghost rem = s@.subrange(pos as int, n as int);
        if pos == n {
            proof {
                assert(rem =~= Seq::<char>::empty());
                assert(out.deep_view() + Seq::<Seq<char>>::empty() =~= out.deep_view());
            }
            break ;
        }
        let mut k: usize = pos;
        while k < n && s.get_char(k) != '\n'
            invariant
                pos <= k <= n,
                n == s@.len(),
                forall|j: int| pos <= j < k ==> s@[j] != '\n',
            decreases n - k,
        {
            k += 1;
        }
        proof {
            lemma_find_nl_correct(rem);
            if k < n {
                assert(rem[k - pos] == '\n');
                assert forall|j: int| 0 <= j < k - pos implies rem[j] != '\n' by {
                    assert(rem[j] == s@[pos + j]);
                }
                match spec_find_nl(rem) {
                    Some(q) => {
                        if q < k - pos {
                            assert(rem[q] != '\n');
                            assert(false);
                        }
                        if q > k - pos {
                            assert(rem[k - pos] != '\n');
                            assert(false);
                        }
                    },
                    None => {
                        assert(rem[k - pos] != '\n');
                        assert(false);
                    },
                }
            } else {
                assert forall|j: int| 0 <= j < rem.len() implies rem[j] != '\n' by {
                    assert(rem[j] == s@[pos + j]);
                }
                match spec_find_nl(rem) {
                    Some(q) => {
                        assert(rem[q] != '\n');
                        assert(false);
                    },
                    None => {},
                }
            }
        }
        if k == n {
            let line = s.substring_char(pos, n);
            let ghost pre = out.deep_view();
            out.push(line.to_owned());
            proof {
                assert(out.deep_view() =~~= pre.push(rem));
                assert(pre + seq![rem] =~= out.deep_view());
                assert(spec_split_lines(rem) == seq![rem]);
                assert(spec_split_lines(s@) == out.deep_view());
            }
            break ;
        }
        let line = if k > pos && s.get_char(k - 1) == '\r' {
            s.substring_char(pos, k - 1)
        } else {
            s.substring_char(pos, k)
        };
        let ghost pre = out.deep_view();
        out.push(line.to_owned());
        proof {
            let i = k - pos;
            assert(rem.subrange(0, i as int) =~= s@.subrange(pos as int, k as int));
            if k > pos && s@[k - 1] == '\r' {
                assert(s@.subrange(pos as int, k - 1) =~= rem.subrange(0, i as int).drop_last());
            }
            assert(line@ == spec_strip_one_cr(rem.subrange(0, i as int)));
            assert(rem.subrange(i + 1, rem.len() as int) =~= s@.subrange(k + 1, n as int));
            assert(spec_split_lines(rem) == seq![line@] + spec_split_lines(
                s@.subrange(k + 1, n as int),
            ));
            assert(out.deep_view() =~~= pre.push(line@));
            assert(pre + (seq![line@] + spec_split_lines(s@.subrange(k + 1, n as int)))
                =~= out.deep_view() + spec_split_lines(s@.subrange(k + 1, n as int)));
        }
        pos = k + 1;
    }
    out
}

/// The payload of an SSE `data:` line, when the line carries one.
pub open spec fn spec_data_payload(l: Seq<char>) -> Option<Seq<char>> {
    if spec_starts_with(l, "data: "@) {
        Some(l.skip("data: "@.len() as int))
    } else {
        None
    }
}

/// Strip the `data: ` prefix; lines without it carry no payload.
pub fn data_payload(line: &str) -> (r: Option<String>)
    ensures
        match r {
            Some(p) => spec_data_payload(line@) == Some(p@),
            None => spec_data_payload(line@) is None,
        },
{
    proof {
        reveal_strlit("data: ");
    }
    if str_starts_with(line, "data: ") {
        let n = line.unicode_len();
        let p = line.substring_char(6, n);
        proof {
            assert(line@.subrange(6, n as int) =~= line@.skip("data: "@.len() as int));
        }
        Some(p.to_owned())
    } else {
        None
    }
}

/// The frames a decoder gained over an earlier snapshot.
pub open spec fn spec_new_frames(before: Seq<Seq<u8>>, after: Seq<Seq<u8>>) -> Seq<Seq<u8>> {
    after.skip(before.len() as int)
}

/// The payloads among a frame's lines: each `data:`-prefixed line
/// contributes its payload; other lines are ignored, not an error.
pub open spec fn spec_line_payloads(lines: Seq<Seq<char>>) -> Seq<Seq<char>>
    decreases lines.len(),
{
    if lines.len() == 0 {
        Seq::empty()
    } else {
        let rest = spec_line_payloads(lines.drop_first());
        match spec_data_payload(lines[0]) {
            Some(p) => seq![p] + rest,
            None => rest,
        }
    }
}

/// The payloads one decoded frame carries: its bytes decoded permissively,
/// split into lines, each `data:` line contributing its payload.
pub open spec fn spec_frame_payloads(frame: Seq<u8>) -> Seq<Seq<char>> {
    spec_line_payloads(spec_split_lines(lossy_of(frame)))
}

/// The payloads a sequence of frames carries, in order.
pub open spec fn spec_payloads_of_frames(frames: Seq<Seq<u8>>) -> Seq<Seq<char>>
    decreases frames.len(),
{
    if frames.len() == 0 {
        Seq::empty()
    } else {
        spec_frame_payloads(frames[0]) + spec_payloads_of_frames(frames.drop_first())
    }
}

/// One more frame appends its payloads.
pub proof fn lemma_payloads_of_frames_snoc(frames: Seq<Seq<u8>>, f: Seq<u8>)
    ensures
        spec_payloads_of_frames(frames.push(f)) == spec_payloads_of_frames(frames)
            + spec_frame_payloads(f),
    decreases frames.len(),
{
    if frames.len() == 0 {
        assert(frames.push(f).drop_first() =~= Seq::<Seq<u8>>::empty());
        assert(frames.push(f)[0] == f);
        assert(spec_payloads_of_frames(Seq::<Seq<u8>>::empty()) == Seq::<Seq<char>>::empty());
        assert(spec_frame_payloads(f) + Seq::<Seq<char>>::empty() =~= spec_frame_payloads(f));
        assert(Seq::<Seq<char>>::empty() + spec_frame_payloads(f) =~= spec_frame_payloads(f));
    } else {
        lemma_payloads_of_frames_snoc(frames.drop_first(), f);
        assert(frames.push(f)[0] == frames[0]);
        assert(frames.push(f).drop_first() =~= frames.drop_first().push(f));
        assert(spec_frame_payloads(frames[0]) + (spec_payloads_of_frames(frames.drop_first())
            + spec_frame_payloads(f)) =~= (spec_frame_payloads(frames[0])
            + spec_payloads_of_frames(frames.drop_first())) + spec_frame_payloads(f));
    }
}

/// The payloads of one decoded frame, as owned strings.
pub fn frame_payloads(frame: &[u8]) -> (out: Vec<String>)
    ensures
        out.deep_view() == spec_frame_payloads(frame@),
{
    let text = lossy_decode(frame);
    let lines = split_lines(text.as_str());
    let ghost ls = lines.deep_view();
    let n = lines.len();
    let mut out: Vec<String> = Vec::new();
    proof {
        assert(ls.skip(0) =~= ls);
        assert(out.deep_view() + spec_line_payloads(ls) =~= spec_line_payloads(ls));
    }
    let mut i: usize = 0;
    while i < n
        invariant
            i <= n,
            n == ls.len(),
            lines.deep_view() == ls,
            n == lines@.len(),
            spec_line_payloads(ls) == out.deep_view() + spec_line_payloads(ls.skip(i as int)),
        decreases n - i,
    {
        proof {
            assert(ls.skip(i as int)[0] == ls[i as int]);
            assert(ls.skip(i as int).drop_first() =~= ls.skip(i + 1));
            assert(ls[i as int] == lines@[i as int]@);
        }
        match data_payload(lines[i].as_str()) {
            Some(p) => {
                let ghost pre = out.deep_view();
                let ghost pv = p@;
                out.push(p);
                proof {
                    assert(out.deep_view() =~= pre.push(pv));
                    assert(pre + (seq![pv] + spec_line_payloads(ls.skip(i + 1))) =~= out.deep_view()
                        + spec_line_payloads(ls.skip(i + 1)));
                }
            },
            None => {},
        }
        i += 1;
    }
    proof {
        assert(ls.skip(n as int) =~= Seq::<Seq<char>>::empty());
        assert(out.deep_view() + Seq::<Seq<char>>::empty() =~= out.deep_view());
    }
    out
}

/// Position of the first delimiter in `buf`.
#[verifier::loop_isolation(false)]
fn find_delim(buf: &Vec<u8>, d: FrameDelimiter) -> (r: Option<usize>)
    ensures
        r == match spec_find_delim(buf@, d) {
            Some(i) => Some(i as usize),
            None => None::<usize>,
        },
{
    proof {
        lemma_find_delim_correct(buf@, d);
    }
    let n = buf.len();
    let dl: usize = match d {
        FrameDelimiter::BlankLine => 2,
        FrameDelimiter::Newline => 1,
    };
    if n < dl {
        proof {
            match spec_find_delim(buf@, d) {
                Some(i) => {
                    assert(spec_delim_at(buf@, d, i));
                    assert(false);
                },
                None => {},
            }
        }
        return None;
    }
    let mut i: usize = 0;
    while i <= n - dl
        invariant
            forall|j: int| 0 <= j < i ==> !spec_delim_at(buf@, d, j),
            i <= n - dl + 1,
        decreases n - i,
    {
        let hit = match d {
            FrameDelimiter::BlankLine => buf[i] == LF && buf[i + 1] == LF,
            FrameDelimiter::Newline => buf[i] == LF,
        };
        if hit {
            proof {
                assert(spec_delim_at(buf@, d, i as int));
                match spec_find_delim(buf@, d) {
                    Some(q) => {
                        if q < i {
                            assert(!spec_delim_at(buf@, d, q));
                            assert(false);
                        }
                        if q > i {
                            assert(!spec_delim_at(buf@, d, i as int));
                            assert(false);
                        }
                    },
                    None => {
                        assert(!spec_delim_at(buf@, d, i as int));
                        assert(false);
                    },
                }
            }
            return Some(i);
        }
        i += 1;
    }
    proof {
        match spec_find_delim(buf@, d) {
            Some(q) => {
                assert(spec_delim_at(buf@, d, q));
                assert(q + dl <= n);
                assert(q < i);
                assert(false);
            },
            None => {},
        }
    }
    None
}

/// The bytes of `buf` at positions `a..b`, as an owned vector.
fn take_range(buf: &Vec<u8>, a: usize, b: usize) -> (r: Vec<u8>)
    requires
        a <= b <= buf@.len(),
    ensures
        r@ == buf@.subrange(a as int, b as int),
{
    let mut r: Vec<u8> = Vec::new();
    let mut k: usize = a;
    while k < b
        invariant
            a <= k <= b <= buf@.len(),
            r@ =~= buf@.subrange(a as int, k as int),
        decreases b - k,
    {
        let x = buf[k];
        r.push(x);
        proof {
            assert(buf@.subrange(a as int, k + 1) =~= buf@.subrange(a as int, k as int).push(
                buf@[k as int],
            ));
        }
        k += 1;
    }
    r
}

/// Remove every trailing carriage return.
fn strip_trailing_crs(v: Vec<u8>) -> (r: Vec<u8>)
    ensures
        r@ == spec_strip_cr_end(v@),
{
    let mut v = v;
    let ghost orig = v@;
    loop
        invariant
            spec_strip_cr_end(orig) == spec_strip_cr_end(v@),
        ensures
            spec_strip_cr_end(orig) == spec_strip_cr_end(v@),
            v@.len() == 0 || v@[v@.len() - 1] != CR,
        decreases v@.len(),
    {
        let n = v.len();
        if n == 0 {
            break ;
        }
        let last = v[n - 1];
        if last != CR {
            break ;
        }
        let ghost prev = v@;
        v.pop();
        proof {
            assert(prev.drop_last() =~= v@);
            assert(spec_strip_cr_end(prev) == spec_strip_cr_end(v@));
        }
    }
    v
}

} // verus!

//! The log that the window shows: lines are kept as they are written, up to a limit.
use std::collections::VecDeque;
use vstd::prelude::*;
use vstd::utf8::{
    char_u32_cast, decode_utf8, encode_scalar, encode_utf8, encode_utf8_decode_utf8, encode_utf8_valid_utf8,
    valid_utf8,
};

verus! {

/// How many lines are kept.
pub const MAX_LOG_LINES: usize = 5000;

/// The text that bytes stand for that are not UTF-8, with replacements for what is not.
pub uninterp spec fn lossy_text(bytes: Seq<u8>) -> Seq<char>;

/// `String::from_utf8_lossy`: the text that bytes stand for. UTF-8 stands for what it encodes; in
/// other bytes, what is not UTF-8 is replaced, so that some text comes of them. The text depends on
/// the bytes alone.
#[verifier::external_body]
fn decode_lossy(bytes: &[u8]) -> (r: String)
    ensures
        r@ == (if valid_utf8(bytes@) {
            decode_utf8(bytes@)
        } else {
            lossy_text(bytes@)
        }),
        bytes@.len() > 0 ==> r@.len() > 0,
{
    String::from_utf8_lossy(bytes).to_string()
}

/// A text in lower case.
pub uninterp spec fn lower_case(text: Seq<char>) -> Seq<char>;

/// `str::to_lowercase`: the text in lower case. It depends on the text alone.
#[verifier::external_body]
fn make_lower_case(text: &str) -> (r: String)
    ensures
        r@ == lower_case(text@),
{
    text.to_lowercase()
}

/// The lines that are kept.
#[derive(Debug)]
pub struct LogStore {
    pub entries: VecDeque<String>,
}

/// The texts of lines.
pub open spec fn texts(entries: Seq<String>) -> Seq<Seq<char>> {
    entries.map_values(|s: String| s@)
}

/// The last lines, as many as are kept.
pub open spec fn newest(lines: Seq<Seq<char>>) -> Seq<Seq<char>> {
    if lines.len() <= MAX_LOG_LINES {
        lines
    } else {
        lines.skip(lines.len() - MAX_LOG_LINES)
    }
}

/// The position of the first line feed, or the length of `b` if there is none.
pub open spec fn line_end(b: Seq<u8>) -> nat
    decreases b.len(),
{
    if b.len() == 0 || b[0] == 10 {
        0
    } else {
        1 + line_end(b.drop_first())
    }
}

/// What is left after the last line feed.
pub open spec fn unfinished(b: Seq<u8>) -> Seq<u8>
    decreases b.len(),
{
    let i = line_end(b) as int;
    if i >= b.len() {
        b
    } else {
        unfinished(b.skip(i + 1))
    }
}

/// The texts of the lines that are closed by a line feed. Empty ones do not count.
pub open spec fn finished_lines(b: Seq<u8>) -> Seq<Seq<char>>
    decreases b.len(),
{
    let i = line_end(b) as int;
    if i >= b.len() {
        Seq::empty()
    } else {
        line_texts(b.take(i)) + finished_lines(b.skip(i + 1))
    }
}

/// The text that the bytes of a line stand for.
pub open spec fn text_of(line: Seq<u8>) -> Seq<char> {
    if valid_utf8(line) {
        decode_utf8(line)
    } else {
        lossy_text(line)
    }
}

/// The text of one line, unless the line is empty.
pub open spec fn line_texts(line: Seq<u8>) -> Seq<Seq<char>> {
    if line.len() > 0 {
        seq![text_of(line)]
    } else {
        Seq::empty()
    }
}

impl LogStore {
    /// The texts of the lines.
    pub open spec fn lines(&self) -> Seq<Seq<char>> {
        texts(self.entries@)
    }

    /// No more lines are kept than the limit allows.
    pub open spec fn wf(&self) -> bool {
        self.entries@.len() <= MAX_LOG_LINES
    }

    /// A log without lines.
    pub fn new() -> (r: LogStore)
        ensures
            r.wf(),
            r.lines() == Seq::<Seq<char>>::empty(),
    {
        let r = LogStore { entries: VecDeque::new() };
        assert(r.lines() =~= Seq::<Seq<char>>::empty());
        r
    }

    /// Forgets all lines.
    pub fn clear(&mut self)
        ensures
            final(self).wf(),
            final(self).lines() == Seq::<Seq<char>>::empty(),
    {
        self.entries.clear();
        assert(self.lines() =~= Seq::<Seq<char>>::empty());
    }

    /// Keeps a line, and forgets the oldest ones over the limit.
    pub fn push(&mut self, line: String)
        requires
            old(self).wf(),
        ensures
            final(self).wf(),
            final(self).lines() == newest(old(self).lines().push(line@)),
    {
        let ghost before = self.lines();
        let ghost all = before.push(line@);
        self.entries.push_back(line);
        assert(self.lines() =~= all);
        if self.entries.len() > MAX_LOG_LINES {
            let _ = self.entries.pop_front();
            assert(self.lines() =~= newest(all));
        }
    }
}

proof fn lemma_newest_push(lines: Seq<Seq<char>>, line: Seq<char>)
    ensures
        newest(newest(lines).push(line)) == newest(lines.push(line)),
{
    assert(newest(newest(lines).push(line)) =~= newest(lines.push(line)));
}

proof fn lemma_newest_add(lines: Seq<Seq<char>>, more: Seq<Seq<char>>)
    ensures
        newest(newest(lines) + more) == newest(lines + more),
{
    assert(newest(newest(lines) + more) =~= newest(lines + more));
}

/// What is written to the log, byte by byte, and the part of a line that is not finished yet.
#[derive(Debug)]
pub struct LogWriter {
    line: Vec<u8>,
}

proof fn lemma_line_end(b: Seq<u8>)
    ensures
        line_end(b) <= b.len(),
        forall|j: int| 0 <= j < line_end(b) ==> b[j] != 10,
        line_end(b) < b.len() ==> b[line_end(b) as int] == 10,
    decreases b.len(),
{
    if b.len() > 0 && b[0] != 10 {
        lemma_line_end(b.drop_first());
        assert forall|j: int| 0 <= j < line_end(b) implies b[j] != 10 by {
            if j > 0 {
                assert(b.drop_first()[j - 1] != 10);
            }
        }
    }
}

proof fn lemma_line_end_unique(b: Seq<u8>, i: int)
    requires
        0 <= i <= b.len(),
        forall|j: int| 0 <= j < i ==> b[j] != 10,
        i < b.len() ==> b[i] == 10,
    ensures
        line_end(b) == i,
{
    lemma_line_end(b);
}

fn take_line(bytes: &Vec<u8>, from: usize, to: usize) -> (r: Vec<u8>)
    requires
        from <= to <= bytes@.len(),
    ensures
        r@ == bytes@.subrange(from as int, to as int),
{
    let mut r: Vec<u8> = Vec::new();
    let mut i: usize = from;
    while i < to
        invariant
            from <= i <= to <= bytes@.len(),
            r@ == bytes@.subrange(from as int, i as int),
        decreases to - i,
    {
        r.push(bytes[i]);
        assert(r@ =~= bytes@.subrange(from as int, i + 1));
        i = i + 1;
    }
    r
}

impl LogWriter {
    /// The part of a line that is not finished yet.
    pub closed spec fn pending(&self) -> Seq<u8> {
        self.line@
    }

    /// No line feed is in the unfinished part.
    pub closed spec fn wf(&self) -> bool {
        forall|i: int| 0 <= i < self.line@.len() ==> self.line@[i] != 10
    }

    /// Nothing was written yet.
    pub fn new() -> (r: LogWriter)
        ensures
            r.wf(),
            r.pending() == Seq::<u8>::empty(),
    {
        LogWriter { line: Vec::new() }
    }

    /// Takes in bytes: each line that they finish goes to the log. Returns how many bytes were
    /// taken, which is all of them.
    pub fn write(&mut self, store: &mut LogStore, buf: &[u8]) -> (r: usize)
        requires
            old(store).wf(),
        ensures
            final(self).wf(),
            final(store).wf(),
            r == buf@.len(),
            final(self).pending() == unfinished(old(self).pending() + buf@),
            final(store).lines() == newest(
                old(store).lines() + finished_lines(old(self).pending() + buf@),
            ),
    {
        let ghost all = self.line@ + buf@;
        let ghost kept = store.lines();
        self.line.extend_from_slice(buf);
        assert(self.line@ =~= all);
        let mut from: usize = 0;
        let mut i: usize = 0;
        let ghost mut done = Seq::<Seq<char>>::empty();
        proof {
            assert(all.skip(0) =~= all);
            assert(done + finished_lines(all) =~= finished_lines(all));
            assert(kept + done =~= kept);
        }
        while i < self.line.len()
            invariant
                self.line@ == all,
                store.wf(),
                from <= i <= self.line@.len(),
                forall|j: int| from <= j < i ==> all[j] != 10,
                unfinished(all) == unfinished(all.skip(from as int)),
                finished_lines(all) == done + finished_lines(all.skip(from as int)),
                store.lines() == newest(kept + done),
            decreases self.line@.len() - i,
        {
            if self.line[i] == 10 {
                let ghost rest = all.skip(from as int);
                let ghost line = all.subrange(from as int, i as int);
                let ghost before = done;
                proof {
                    lemma_line_end_unique(rest, i - from);
                    assert(rest.take(i - from) =~= line);
                    assert(rest.skip(i - from + 1) =~= all.skip(i + 1));
                    done = done + line_texts(line);
                    assert(before + (line_texts(line) + finished_lines(all.skip(i + 1))) =~= done
                        + finished_lines(all.skip(i + 1)));
                }
                if i > from {
                    let raw = take_line(&self.line, from, i);
                    let s = decode_lossy(raw.as_slice());
                    if s.as_str().unicode_len() > 0 {
                        proof {
                            lemma_newest_push(kept + before, s@);
                            assert((kept + before).push(s@) =~= kept + done);
                        }
                        store.push(s);
                    }
                } else {
                    assert(done =~= before);
                }
                from = i + 1;
            }
            i = i + 1;
        }
        proof {
            let rest = all.skip(from as int);
            assert forall|j: int| 0 <= j < rest.len() implies rest[j] != 10 by {
                assert(all[from + j] != 10);
            }
            lemma_line_end_unique(rest, rest.len() as int);
            assert(done + Seq::<Seq<char>>::empty() =~= done);
        }
        let n = self.line.len();
        let left = take_line(&self.line, from, n);
        assert(left@ =~= all.skip(from as int));
        self.line = left;
        buf.len()
    }

    /// Nothing is held back: what is not finished stays where it is.
    pub fn flush(&mut self)
        ensures
            *final(self) == *old(self),
    {
    }
}

/// Whether `needle` stands somewhere in `text`.
pub open spec fn occurs_in(needle: Seq<char>, text: Seq<char>) -> bool {
    exists|i: int|
        0 <= i <= text.len() - needle.len() && #[trigger] text.subrange(i, i + needle.len())
            == needle
}

/// Whether a line is shown, given the line and the filter in lower case. An empty filter shows
/// everything.
pub open spec fn passes(line: Seq<char>, filter: Seq<char>) -> bool {
    filter.len() == 0 || occurs_in(filter, line)
}

/// Whether a line is shown, given the line and the filter in lower case.
pub fn is_shown(line: &str, filter: &str) -> (r: bool)
    ensures
        r == passes(line@, filter@),
{
    let n = filter.unicode_len();
    if n == 0 {
        return true;
    }
    let m = line.unicode_len();
    if m < n {
        return false;
    }
    let mut i: usize = 0;
    while i <= m - n
        invariant
            n == filter@.len(),
            m == line@.len(),
            0 < n <= m,
            i <= m - n + 1,
            forall|j: int| 0 <= j < i ==> #[trigger] line@.subrange(j, j + n) != filter@,
        decreases m - n + 1 - i,
    {
        if crate::text::text_eq(line.substring_char(i, i + n), filter) {
            assert(line@.subrange(i as int, i + n) == filter@);
            return true;
        }
        i = i + 1;
    }
    false
}

/// Which lines are shown under a filter, in their order. Case does not matter.
pub open spec fn shown_lines(lines: Seq<Seq<char>>, filter: Seq<char>) -> Seq<Seq<char>>
    decreases lines.len(),
{
    if lines.len() == 0 {
        Seq::empty()
    } else {
        let before = shown_lines(lines.drop_last(), filter);
        if passes(lower_case(lines.last()), lower_case(filter)) {
            before.push(lines.last())
        } else {
            before
        }
    }
}

impl LogStore {
    /// The lines that are shown under a filter.
    pub fn shown(&self, filter: &str) -> (r: Vec<String>)
        ensures
            r.deep_view() == shown_lines(self.lines(), filter@),
    {
        let ghost all = self.lines();
        let lower = make_lower_case(filter);
        let mut r: Vec<String> = Vec::new();
        let mut i: usize = 0;
        proof {
            assert(all.take(0) =~= Seq::empty());
            assert(r.deep_view() =~= Seq::empty());
        }
        while i < self.entries.len()
            invariant
                i <= self.entries@.len(),
                all == self.lines(),
                lower@ == lower_case(filter@),
                r.deep_view() == shown_lines(all.take(i as int), filter@),
            decreases self.entries@.len() - i,
        {
            let ghost before = r.deep_view();
            let e = &self.entries[i];
            proof {
                assert(all.take(i + 1).drop_last() =~= all.take(i as int));
                assert(all.take(i + 1).last() == e@);
            }
            if is_shown(make_lower_case(e.as_str()).as_str(), lower.as_str()) {
                r.push(e.clone());
                assert(r.deep_view() =~= before.push(e@));
            }
            i = i + 1;
        }
        assert(all.take(all.len() as int) =~= all);
        r
    }
}

proof fn lemma_write_in_parts(a: Seq<u8>, b: Seq<u8>)
    ensures
        unfinished(unfinished(a) + b) == unfinished(a + b),
        finished_lines(a + b) == finished_lines(a) + finished_lines(unfinished(a) + b),
    decreases a.len(),
{
    let i = line_end(a) as int;
    lemma_line_end(a);
    if i >= a.len() {
        assert(finished_lines(a) + finished_lines(a + b) =~= finished_lines(a + b));
    } else {
        let all = a + b;
        assert forall|j: int| 0 <= j < i implies all[j] != 10 by {
            assert(all[j] == a[j]);
        }
        lemma_line_end_unique(all, i);
        assert(all.take(i) =~= a.take(i));
        assert(all.skip(i + 1) =~= a.skip(i + 1) + b);
        lemma_write_in_parts(a.skip(i + 1), b);
        let first = line_texts(a.take(i));
        let second = finished_lines(a.skip(i + 1));
        let third = finished_lines(unfinished(a) + b);
        assert(first + (second + third) =~= (first + second) + third);
    }
}

/// It does not matter how what is written is cut into pieces: two writes come to the same as one.
pub proof fn law_pieces_do_not_matter(
    pending: Seq<u8>,
    lines: Seq<Seq<char>>,
    a: Seq<u8>,
    b: Seq<u8>,
)
    ensures
        unfinished(unfinished(pending + a) + b) == unfinished(pending + (a + b)),
        newest(
            newest(lines + finished_lines(pending + a)) + finished_lines(
                unfinished(pending + a) + b,
            ),
        ) == newest(lines + finished_lines(pending + (a + b))),
{
    lemma_write_in_parts(pending + a, b);
    assert((pending + a) + b =~= pending + (a + b));
    lemma_newest_add(
        lines + finished_lines(pending + a),
        finished_lines(unfinished(pending + a) + b),
    );
    assert((lines + finished_lines(pending + a)) + finished_lines(unfinished(pending + a) + b)
        =~= lines + finished_lines(pending + (a + b)));
}

proof fn lemma_unfinished(b: Seq<u8>)
    ensures
        forall|i: int| 0 <= i < unfinished(b).len() ==> unfinished(b)[i] != 10,
    decreases b.len(),
{
    let i = line_end(b) as int;
    lemma_line_end(b);
    if i < b.len() {
        lemma_unfinished(b.skip(i + 1));
        assert(unfinished(b) == unfinished(b.skip(i + 1)));
    } else {
        assert(unfinished(b) == b);
    }
}

/// A line that was not finished when the log was cleared is not lost: whatever was written before,
/// once the rest of the line and a line feed follow, the log holds that line and nothing else.
pub proof fn law_cleared_log_keeps_the_unfinished_line(written: Seq<u8>, rest: Seq<u8>)
    requires
        unfinished(written).len() + rest.len() > 0,
        !rest.contains(10u8),
    ensures
        ({
            let line = unfinished(written) + rest;
            let cleared = Seq::<Seq<char>>::empty();
            &&& newest(cleared + finished_lines(unfinished(written) + rest.push(10))) == seq![
                text_of(line),
            ]
            &&& unfinished(unfinished(written) + rest.push(10)) == Seq::<u8>::empty()
        }),
{
    let line = unfinished(written) + rest;
    let all = unfinished(written) + rest.push(10);
    lemma_unfinished(written);
    assert(all =~= line.push(10));
    assert forall|j: int| 0 <= j < line.len() implies all[j] != 10 by {
        if j >= unfinished(written).len() {
            assert(rest.contains(rest[j - unfinished(written).len()]));
        }
    }
    lemma_line_end_unique(all, line.len() as int);
    assert(all.take(line.len() as int) =~= line);
    assert(all.skip(line.len() as int + 1) =~= Seq::<u8>::empty());
    assert(finished_lines(Seq::<u8>::empty()) == Seq::<Seq<char>>::empty());
    assert(unfinished(Seq::<u8>::empty()) == Seq::<u8>::empty());
    assert(Seq::<Seq<char>>::empty() + (line_texts(line) + Seq::<Seq<char>>::empty()) =~= seq![
        text_of(line),
    ]);
}

/// The two parts of a line of text make up the text of the line.
pub proof fn law_parts_of_a_line_join(a: Seq<char>, b: Seq<char>)
    ensures
        text_of(encode_utf8(a) + encode_utf8(b)) == a + b,
{
    lemma_encode_joined(a, b);
    encode_utf8_valid_utf8(a + b);
    encode_utf8_decode_utf8(a + b);
}

/// The parts of a text encoded one after the other are the text encoded.
pub proof fn lemma_encode_joined(a: Seq<char>, b: Seq<char>)
    ensures
        encode_utf8(a) + encode_utf8(b) == encode_utf8(a + b),
    decreases a.len(),
{
    if a.len() == 0 {
        assert(a + b =~= b);
        assert(encode_utf8(a) + encode_utf8(b) =~= encode_utf8(b));
    } else {
        let first = encode_scalar(a[0] as u32);
        lemma_encode_joined(a.drop_first(), b);
        assert((a + b).drop_first() =~= a.drop_first() + b);
        assert((a + b)[0] == a[0]);
        assert(first + (encode_utf8(a.drop_first()) + encode_utf8(b)) =~= (first + encode_utf8(
            a.drop_first(),
        )) + encode_utf8(b));
    }
}

proof fn lemma_high_bytes(v: u32)
    by (bit_vector)
    ensures
        (0xC0 | ((v >> 6) & 0x1F) as u8) >= 0x80u8,
        (0xE0 | ((v >> 12) & 0x0F) as u8) >= 0x80u8,
        (0xF0 | ((v >> 18) & 0x7) as u8) >= 0x80u8,
        (0x80 | (v & 0x3F) as u8) >= 0x80u8,
        (0x80 | ((v >> 6) & 0x3F) as u8) >= 0x80u8,
        (0x80 | ((v >> 12) & 0x3F) as u8) >= 0x80u8,
{
}

proof fn lemma_no_line_feed(text: Seq<char>)
    requires
        !text.contains('\n'),
    ensures
        forall|i: int| 0 <= i < encode_utf8(text).len() ==> encode_utf8(text)[i] != 10,
    decreases text.len(),
{
    if text.len() > 0 {
        let v = text[0] as u32;
        let first = encode_scalar(v);
        let rest = text.drop_first();
        assert(text.contains(text[0]));
        char_u32_cast(text[0], v);
        assert(10u32 as char == '\n');
        assert(v != 10);
        assert forall|c: char| rest.contains(c) implies text.contains(c) by {
            let i = choose|i: int| 0 <= i < rest.len() && rest[i] == c;
            assert(text[i + 1] == c);
        }
        lemma_no_line_feed(rest);
        assert(v <= 0x7f ==> (v & 0x7f) as u8 != 10u8) by (bit_vector)
            requires
                v != 10,
        ;
        assert forall|i: int| 0 <= i < first.len() implies first[i] != 10 by {
            lemma_high_bytes(v);
        }
        assert(encode_utf8(text) == first + encode_utf8(rest));
    }
}

/// What is written as a line of text is kept as that line: nothing of it is lost or changed.
pub proof fn law_lines_are_kept(text: Seq<char>)
    requires
        text.len() > 0,
        !text.contains('\n'),
    ensures
        finished_lines(encode_utf8(text).push(10)) == seq![text],
        unfinished(encode_utf8(text).push(10)) == Seq::<u8>::empty(),
{
    let bytes = encode_utf8(text);
    let written = bytes.push(10);
    lemma_no_line_feed(text);
    encode_utf8_valid_utf8(text);
    encode_utf8_decode_utf8(text);
    lemma_line_end_unique(written, bytes.len() as int);
    assert(written.take(bytes.len() as int) =~= bytes);
    assert(written.skip(bytes.len() as int + 1) =~= Seq::<u8>::empty());
    assert(bytes.len() > 0) by {
        if bytes.len() == 0 {
            assert(decode_utf8(bytes).len() == 0);
        }
    }
    assert(finished_lines(Seq::<u8>::empty()) == Seq::<Seq<char>>::empty());
    assert(unfinished(Seq::<u8>::empty()) == Seq::<u8>::empty());
    assert(line_texts(bytes) + Seq::<Seq<char>>::empty() =~= seq![text]);
}

/// The log keeps the newest lines, in their order: all of them up to five thousand, and of more the
/// last five thousand.
pub proof fn law_newest_lines_are_kept(lines: Seq<Seq<char>>)
    ensures
        lines.len() <= 5000 ==> newest(lines) == lines,
        lines.len() > 5000 ==> newest(lines).len() == 5000,
        forall|i: int|
            0 <= i < newest(lines).len() ==> #[trigger] newest(lines)[i] == lines[lines.len()
                - newest(lines).len() + i],
{
}

/// A line of text is kept as it is, and before what follows it. Empty lines are not kept.
pub proof fn law_lines_come_one_by_one(text: Seq<char>, rest: Seq<u8>)
    requires
        !text.contains('\n'),
    ensures
        text.len() > 0 ==> finished_lines(encode_utf8(text).push(10) + rest) == seq![text]
            + finished_lines(rest),
        finished_lines(seq![10u8] + rest) == finished_lines(rest),
        unfinished(encode_utf8(text).push(10) + rest) == unfinished(rest),
{
    let none = Seq::<u8>::empty();
    assert(unfinished(none) == none);
    assert(none + rest =~= rest);
    if text.len() > 0 {
        law_lines_are_kept(text);
        lemma_write_in_parts(encode_utf8(text).push(10), rest);
    } else {
        encode_utf8_decode_utf8(text);
        assert(encode_utf8(text) =~= none);
        assert(encode_utf8(text).push(10) =~= seq![10u8]);
        lemma_first_line_empty(rest);
    }
    lemma_first_line_empty(rest);
}

proof fn lemma_first_line_empty(rest: Seq<u8>)
    ensures
        finished_lines(seq![10u8] + rest) == finished_lines(rest),
        unfinished(seq![10u8] + rest) == unfinished(rest),
{
    let all = seq![10u8] + rest;
    lemma_line_end_unique(all, 0);
    assert(all.take(0) =~= Seq::<u8>::empty());
    assert(all.skip(1) =~= rest);
    assert(Seq::<Seq<char>>::empty() + finished_lines(rest) =~= finished_lines(rest));
}

/// What has no line feed yet is held back whole, and is no line.
pub proof fn law_unfinished_lines_wait(b: Seq<u8>)
    requires
        forall|i: int| 0 <= i < b.len() ==> b[i] != 10,
    ensures
        finished_lines(b) == Seq::<Seq<char>>::empty(),
        unfinished(b) == b,
{
    lemma_line_end_unique(b, b.len() as int);
}

/// A filter shows the lines that hold it somewhere, and an empty one shows all.
pub proof fn law_filter_shows_what_holds_it(a: Seq<char>, filter: Seq<char>, b: Seq<char>, line: Seq<char>)
    ensures
        passes(a + filter + b, filter),
        filter.len() == 0 ==> passes(line, filter),
        filter.len() > 0 && passes(line, filter) ==> exists|x: Seq<char>, y: Seq<char>|
            line == #[trigger] (x + filter + y),
{
    let all = a + filter + b;
    let i = a.len() as int;
    assert(all.subrange(i, i + filter.len()) =~= filter);
    if filter.len() > 0 && passes(line, filter) {
        let k = choose|k: int|
            0 <= k <= line.len() - filter.len() && #[trigger] line.subrange(k, k + filter.len())
                == filter;
        let x = line.take(k);
        let y = line.skip(k + filter.len());
        assert(line =~= x + filter + y);
    }
}

/// Which lines are shown is decided line by line, without regard to case, and their order stays.
pub proof fn law_lines_are_shown_one_by_one(
    before: Seq<Seq<char>>,
    line: Seq<char>,
    after: Seq<Seq<char>>,
    filter: Seq<char>,
)
    ensures
        shown_lines(before + seq![line] + after, filter) == shown_lines(before, filter) + (if passes(
            lower_case(line),
            lower_case(filter),
        ) {
            seq![line]
        } else {
            Seq::empty()
        }) + shown_lines(after, filter),
    decreases after.len(),
{
    let all = before + seq![line] + after;
    let own = if passes(lower_case(line), lower_case(filter)) {
        seq![line]
    } else {
        Seq::empty()
    };
    if after.len() == 0 {
        assert(all.drop_last() =~= before);
        assert(all.last() == line);
    } else {
        law_lines_are_shown_one_by_one(before, line, after.drop_last(), filter);
        assert(all.drop_last() =~= before + seq![line] + after.drop_last());
        assert(all.last() == after.last());
    }
    assert(shown_lines(all, filter) =~= shown_lines(before, filter) + own + shown_lines(
        after,
        filter,
    ));
}

} // verus!

//! Reading the messages of a language server out of the bytes that it writes.

use crate::framing::{
    frame, frame_header, frame_round_trip, header_step, lemma_encode_concat, read_header_line,
    HeaderStep,
};
use crate::text::{decimal, is_digit, lemma_decimal_digits, utf8_text};
use vstd::prelude::*;
use vstd::utf8::*;

verus! {

/// The length of the first line of some bytes, with its line feed, if the line
/// is complete.
pub open spec fn line_length(bytes: Seq<u8>) -> Option<nat>
    decreases bytes.len(),
{
    if bytes.len() == 0 {
        None
    } else if bytes[0] == 10 {
        Some(1)
    } else {
        match line_length(bytes.drop_first()) {
            Some(n) => Some(n + 1),
            None => None,
        }
    }
}

/// What reading comes to.
#[derive(Debug)]
pub enum ReadStep<B> {
    /// There is no whole message yet.
    Pending,
    /// The body of a message.
    Message { body: B },
    /// What was read is no message, and nothing can be read behind it.
    Malformed,
}

impl View for ReadStep<Vec<u8>> {
    type V = ReadStep<Seq<u8>>;

    open spec fn view(&self) -> ReadStep<Seq<u8>> {
        match self {
            ReadStep::Pending => ReadStep::Pending,
            ReadStep::Message { body } => ReadStep::Message { body: body@ },
            ReadStep::Malformed => ReadStep::Malformed,
        }
    }
}

/// The model of what was read and not yet handed out.
pub struct ReaderView {
    /// The length that a line of the present header has told.
    pub told: Option<usize>,
    /// The length of the body that is due, if the header is over.
    pub due: Option<usize>,
    pub bytes: Seq<u8>,
}

impl ReaderView {
    /// Nothing was read, or only whole messages were.
    pub open spec fn at(bytes: Seq<u8>) -> ReaderView {
        ReaderView { told: None, due: None, bytes }
    }

    /// The state when more was read.
    pub open spec fn fed(self, more: Seq<u8>) -> ReaderView {
        ReaderView { bytes: self.bytes + more, ..self }
    }

    /// The state behind a line of a header, or nothing, if the line is none.
    pub open spec fn behind(self, line: Seq<u8>, rest: Seq<u8>) -> Option<ReaderView> {
        if !valid_utf8(line) {
            None
        } else {
            match header_step(self.told, decode_utf8(line)) {
                HeaderStep::More { told } => Some(ReaderView { told, due: None, bytes: rest }),
                HeaderStep::Body { length } => Some(
                    ReaderView { told: None, due: Some(length), bytes: rest },
                ),
                HeaderStep::NoLength => Some(ReaderView::at(rest)),
                HeaderStep::Malformed => None,
            }
        }
    }

    /// The next message: the lines of its header are read, then its body.
    pub open spec fn next(self) -> (ReaderView, ReadStep<Seq<u8>>)
        decreases
            self.bytes.len(),
            (if self.due is None {
                1int
            } else {
                0int
            }),
    {
        proof {
            lemma_line_length(self.bytes);
        }
        match self.due {
            Some(length) => if self.bytes.len() < length {
                (self, ReadStep::Pending)
            } else {
                (
                    ReaderView::at(self.bytes.skip(length as int)),
                    ReadStep::Message { body: self.bytes.take(length as int) },
                )
            },
            None => match line_length(self.bytes) {
                Some(n) => {
                    let rest = self.bytes.skip(n as int);
                    match self.behind(self.bytes.take(n as int), rest) {
                        Some(reader) => reader.next(),
                        None => (ReaderView { bytes: rest, ..self }, ReadStep::Malformed),
                    }
                },
                None => (self, ReadStep::Pending),
            },
        }
    }

    /// Whether the bytes may end here: not within a body, and not with a line
    /// that is none.
    pub open spec fn may_end(self) -> bool {
        match self.due {
            Some(_) => false,
            None => self.bytes.len() > 0 ==> match self.behind(self.bytes, Seq::empty()) {
                Some(reader) => reader.due matches Some(length) ==> length == 0,
                None => false,
            },
        }
    }
}

/// A line ends with its line feed.
pub proof fn lemma_line_length(bytes: Seq<u8>)
    ensures
        line_length(bytes) matches Some(n) ==> 0 < n <= bytes.len() && bytes[n - 1] == 10,
    decreases bytes.len(),
{
    if bytes.len() > 0 && bytes[0] != 10 {
        lemma_line_length(bytes.drop_first());
    }
}

/// What is read of the messages of a language server.
#[derive(Debug)]
pub struct FrameReader {
    told: Option<usize>,
    due: Option<usize>,
    bytes: Vec<u8>,
}

impl View for FrameReader {
    type V = ReaderView;

    closed spec fn view(&self) -> ReaderView {
        ReaderView { told: self.told, due: self.due, bytes: self.bytes@ }
    }
}

impl FrameReader {
    /// Nothing was read.
    pub fn new() -> (reader: FrameReader)
        ensures
            reader@ == ReaderView::at(Seq::empty()),
    {
        FrameReader { told: None, due: None, bytes: Vec::new() }
    }

    /// Takes bytes that were read.
    pub fn push(&mut self, chunk: &[u8])
        ensures
            final(self)@ == old(self)@.fed(chunk@),
    {
        let ghost before = self.bytes@;
        self.bytes.extend_from_slice(chunk);
        assert(self.bytes@ =~= before + chunk@);
    }

    /// Takes off the first bytes.
    fn cut(&mut self, length: usize) -> (front: Vec<u8>)
        requires
            length <= old(self).bytes@.len(),
        ensures
            front@ == old(self).bytes@.take(length as int),
            final(self).bytes@ == old(self).bytes@.skip(length as int),
            final(self).told == old(self).told,
            final(self).due == old(self).due,
    {
        let ghost before = self.bytes@;
        let mut front: Vec<u8> = self.bytes.split_off(length);
        std::mem::swap(&mut front, &mut self.bytes);
        assert(front@ =~= before.take(length as int));
        assert(self.bytes@ =~= before.skip(length as int));
        front
    }

    /// The length of the first line, if it is complete.
    fn find_line(&self) -> (length: Option<usize>)
        ensures
            match length {
                Some(n) => line_length(self.bytes@) == Some(n as nat),
                None => line_length(self.bytes@) is None,
            },
    {
        let ghost bytes = self.bytes@;
        assert(bytes.skip(0) =~= bytes);
        for i in 0..self.bytes.len()
            invariant
                bytes == self.bytes@,
                line_length(bytes) == match line_length(bytes.skip(i as int)) {
                    Some(n) => Some(n + i as nat),
                    None => None,
                },
        {
            assert(bytes.skip(i as int)[0] == bytes[i as int]);
            if self.bytes[i] == 10 {
                return Some(i + 1);
            }
            assert(bytes.skip(i as int).drop_first() =~= bytes.skip(i + 1));
        }
        None
    }

    /// The next message.
    pub fn next(&mut self) -> (step: ReadStep<Vec<u8>>)
        ensures
            (final(self)@, step@) == old(self)@.next(),
    {
        let ghost goal = self@.next();
        loop
            invariant
                goal == old(self)@.next(),
                goal == self@.next(),
            decreases
                    self.bytes@.len(),
                    (if self.due is None {
                        1int
                    } else {
                        0int
                    }),
        {
            if let Some(length) = self.due {
                if self.bytes.len() < length {
                    return ReadStep::Pending;
                }
                let body = self.cut(length);
                self.told = None;
                self.due = None;
                return ReadStep::Message { body };
            }
            let length: usize = match self.find_line() {
                Some(length) => length,
                None => {
                    return ReadStep::Pending;
                },
            };
            proof {
                lemma_line_length(self.bytes@);
            }
            let line = match utf8_text(self.cut(length)) {
                Some(line) => line,
                None => {
                    return ReadStep::Malformed;
                },
            };
            match read_header_line(self.told, line.as_str()) {
                HeaderStep::More { told } => {
                    self.told = told;
                },
                HeaderStep::Body { length } => {
                    self.told = None;
                    self.due = Some(length);
                },
                HeaderStep::NoLength => {
                    self.told = None;
                },
                HeaderStep::Malformed => {
                    return ReadStep::Malformed;
                },
            }
        }
    }

    /// Whether the bytes may end here.
    pub fn finish(self) -> (b: bool)
        ensures
            b == self@.may_end(),
    {
        if self.due.is_some() {
            return false;
        }
        if self.bytes.len() == 0 {
            return true;
        }
        match utf8_text(self.bytes) {
            Some(line) => match read_header_line(self.told, line.as_str()) {
                HeaderStep::Body { length } => length == 0,
                HeaderStep::Malformed => false,
                _ => true,
            },
            None => false,
        }
    }
}

/// A message is taken off the bytes, or its header is.
pub proof fn lemma_next_shrinks(reader: ReaderView)
    ensures
        ({
            let (after, step) = reader.next();
            &&& after.bytes.len() <= reader.bytes.len()
            &&& step is Message ==> after.told is None && after.due is None && (
            after.bytes.len() < reader.bytes.len() || reader.due is Some)
        }),
    decreases
            reader.bytes.len(),
            (if reader.due is None {
                1int
            } else {
                0int
            }),
{
    lemma_line_length(reader.bytes);
    if reader.due is None && line_length(reader.bytes) is Some {
        let n = line_length(reader.bytes)->0 as int;
        match reader.behind(reader.bytes.take(n), reader.bytes.skip(n)) {
            Some(next) => {
                lemma_next_shrinks(next);
            },
            None => {},
        }
    }
}

/// The messages that are read out of bytes, and how the reading ends.
pub open spec fn drained(reader: ReaderView) -> (ReaderView, Seq<Seq<u8>>, bool)
    decreases
            reader.bytes.len(),
            (if reader.due is None {
                0int
            } else {
                1int
            }),
{
    proof {
        lemma_next_shrinks(reader);
    }
    let (after, step) = reader.next();
    match step {
        ReadStep::Pending => (after, Seq::empty(), true),
        ReadStep::Malformed => (after, Seq::empty(), false),
        ReadStep::Message { body } => {
            let (end, bodies, sound) = drained(after);
            (end, seq![body] + bodies, sound)
        },
    }
}

/// The messages that are read out of bytes that come in chunks, each of which
/// is read before the next one comes. The reading stops at what is no message.
pub open spec fn drained_in_chunks(reader: ReaderView, chunks: Seq<Seq<u8>>) -> (
    ReaderView,
    Seq<Seq<u8>>,
    bool,
)
    decreases chunks.len(),
{
    if chunks.len() == 0 {
        drained(reader)
    } else {
        let (before, bodies, sound) = drained(reader);
        if sound {
            let (after, more, sound) = drained_in_chunks(
                before.fed(chunks[0]),
                chunks.drop_first(),
            );
            (after, bodies + more, sound)
        } else {
            (before, bodies, sound)
        }
    }
}

/// Chunks of bytes in a row.
pub open spec fn flattened(chunks: Seq<Seq<u8>>) -> Seq<u8>
    decreases chunks.len(),
{
    if chunks.len() == 0 {
        Seq::empty()
    } else {
        chunks[0] + flattened(chunks.drop_first())
    }
}

/// What was read of a whole line or message stays as it is when more comes.
proof fn lemma_line_fed(bytes: Seq<u8>, more: Seq<u8>)
    ensures
        line_length(bytes) is Some ==> line_length(bytes + more) == line_length(bytes),
    decreases bytes.len(),
{
    if bytes.len() > 0 {
        lemma_line_fed(bytes.drop_first(), more);
        assert((bytes + more).drop_first() =~= bytes.drop_first() + more);
    }
}

/// The next message does not depend on what comes behind it, and where there
/// is none yet, it is found as well from what is left of the bytes.
proof fn lemma_next_fed(reader: ReaderView, more: Seq<u8>)
    ensures
        ({
            let (after, step) = reader.next();
            match step {
                ReadStep::Pending => reader.fed(more).next() == after.fed(more).next(),
                ReadStep::Message { .. } => reader.fed(more).next() == (after.fed(more), step),
                ReadStep::Malformed => reader.fed(more).next().1 is Malformed,
            }
        }),
    decreases
            reader.bytes.len(),
            (if reader.due is None {
                1int
            } else {
                0int
            }),
{
    let bytes = reader.bytes;
    lemma_line_length(bytes);
    lemma_line_fed(bytes, more);
    match reader.due {
        Some(length) => {
            if bytes.len() >= length {
                assert((bytes + more).skip(length as int) =~= bytes.skip(length as int) + more);
                assert((bytes + more).take(length as int) =~= bytes.take(length as int));
            }
        },
        None => {
            if line_length(bytes) is Some {
                let n = line_length(bytes)->0 as int;
                assert((bytes + more).skip(n) =~= bytes.skip(n) + more);
                assert((bytes + more).take(n) =~= bytes.take(n));
                match reader.behind(bytes.take(n), bytes.skip(n)) {
                    Some(next) => {
                        lemma_next_fed(next, more);
                        assert(reader.fed(more).behind(bytes.take(n), bytes.skip(n) + more)
                            == Some(next.fed(more)));
                    },
                    None => {},
                }
            }
        },
    }
}

/// Reading what there is, and then more, reads the same as reading all.
proof fn lemma_drained_fed(reader: ReaderView, more: Seq<u8>)
    ensures
        ({
            let (before, bodies, sound) = drained(reader);
            let (after, rest, end) = drained(before.fed(more));
            if sound {
                drained(reader.fed(more)) == (after, bodies + rest, end)
            } else {
                drained(reader.fed(more)).1 == bodies && !drained(reader.fed(more)).2
            }
        }),
    decreases
            reader.bytes.len(),
            (if reader.due is None {
                0int
            } else {
                1int
            }),
{
    lemma_next_shrinks(reader);
    lemma_next_fed(reader, more);
    let (next, step) = reader.next();
    match step {
        ReadStep::Pending => {
            let rest = drained(next.fed(more)).1;
            assert(Seq::<Seq<u8>>::empty() + rest =~= rest);
        },
        ReadStep::Malformed => {},
        ReadStep::Message { body } => {
            lemma_drained_fed(next, more);
            let (before, bodies, _) = drained(next);
            let rest = drained(before.fed(more)).1;
            assert((seq![body] + bodies) + rest =~= seq![body] + (bodies + rest));
        },
    }
}

/// The same messages are read in whatever chunks the bytes come, and the
/// reading ends in the same way.
pub proof fn chunks_do_not_matter(reader: ReaderView, chunks: Seq<Seq<u8>>)
    ensures
        ({
            let (after, bodies, sound) = drained_in_chunks(reader, chunks);
            let whole = drained(reader.fed(flattened(chunks)));
            &&& whole.1 == bodies
            &&& whole.2 == sound
            &&& sound ==> whole.0 == after
        }),
    decreases chunks.len(),
{
    lemma_drained_fed(reader, flattened(chunks));
    if chunks.len() == 0 {
        assert(reader.bytes + Seq::<u8>::empty() =~= reader.bytes);
    } else {
        let (before, bodies, sound) = drained(reader);
        if sound {
            chunks_do_not_matter(before.fed(chunks[0]), chunks.drop_first());
            assert(before.bytes + flattened(chunks) =~= (before.bytes + chunks[0]) + flattened(
                chunks.drop_first(),
            ));
        }
    }
}

/// A line without a line feed in it ends with the line feed behind it.
proof fn lemma_line_found(line: Seq<u8>, rest: Seq<u8>)
    requires
        line.len() > 0,
        line.last() == 10,
        forall|i: int| 0 <= i < line.len() - 1 ==> (#[trigger] line[i]) != 10,
    ensures
        line_length(line + rest) == Some(line.len()),
    decreases line.len(),
{
    assert((line + rest)[0] == line[0]);
    if line.len() > 1 {
        let tail = line.drop_first();
        assert((line + rest).drop_first() =~= tail + rest);
        assert forall|i: int| 0 <= i < tail.len() - 1 implies (#[trigger] tail[i]) != 10 by {
            assert(line[i + 1] != 10);
        }
        lemma_line_found(tail, rest);
    }
}

/// A text in ASCII that ends in its only line feed is one line.
proof fn lemma_text_line(text: Seq<char>, rest: Seq<u8>)
    requires
        is_ascii_chars(text),
        text.len() > 0,
        text.last() == '\n',
        forall|i: int| 0 <= i < text.len() - 1 ==> (#[trigger] text[i]) != '\n',
    ensures
        line_length(encode_utf8(text) + rest) == Some(encode_utf8(text).len()),
        (encode_utf8(text) + rest).take(encode_utf8(text).len() as int) == encode_utf8(text),
        (encode_utf8(text) + rest).skip(encode_utf8(text).len() as int) == rest,
        valid_utf8(encode_utf8(text)),
        decode_utf8(encode_utf8(text)) == text,
{
    let line = encode_utf8(text);
    is_ascii_chars_encode_utf8(text);
    encode_utf8_valid_utf8(text);
    encode_utf8_decode_utf8(text);
    assert forall|i: int| 0 <= i < line.len() - 1 implies (#[trigger] line[i]) != 10 by {
        assert(line[i] == text[i] as u8);
        assert(text[i] != '\n');
    }
    assert(line[line.len() - 1] == text[text.len() - 1] as u8);
    lemma_line_found(line, rest);
    assert((line + rest).take(line.len() as int) =~= line);
    assert((line + rest).skip(line.len() as int) =~= rest);
}

/// The header of a written message is read back, whatever follows it.
proof fn lemma_header_read(body: Seq<u8>, rest: Seq<u8>)
    requires
        body.len() <= usize::MAX,
    ensures
        ReaderView::at(encode_utf8(frame_header(body.len())) + rest).next() == (ReaderView {
            told: None,
            due: Some(body.len() as usize),
            bytes: rest,
        }).next(),
{
    let first = "Content-Length: "@ + decimal(body.len()) + "\r\n"@;
    let second = "\r\n"@;
    frame_round_trip(body, None);
    reveal_strlit("Content-Length: ");
    reveal_strlit("\r\n");
    reveal_strlit("\r\n\r\n");
    lemma_decimal_digits(body.len());
    let number = decimal(body.len());
    assert forall|i: int| 0 <= i < first.len() implies '\0' <= #[trigger] first[i] <= '\u{7f}' && (
    first[i] == '\n' ==> i == first.len() - 1) by {
        if i < 16 {
        } else if i < 16 + number.len() {
            assert(first[i] == number[i - 16]);
            assert(is_digit(number[i - 16]));
        }
    }
    let behind = encode_utf8(second) + rest;
    lemma_text_line(first, behind);
    lemma_text_line(second, rest);
    assert(frame_header(body.len()) =~= first + second);
    lemma_encode_concat(first, second);
    let whole = encode_utf8(frame_header(body.len())) + rest;
    assert(whole =~= encode_utf8(first) + behind);
    let told = ReaderView { told: Some(body.len() as usize), due: None, bytes: behind };
    let due = ReaderView { told: None, due: Some(body.len() as usize), bytes: rest };
    assert(ReaderView::at(whole).behind(encode_utf8(first), behind) == Some(told));
    assert(told.behind(encode_utf8(second), rest) == Some(due));
    assert(ReaderView::at(whole).next() == told.next());
    assert(told.next() == due.next());
}

/// A written message is read back, whatever follows it.
proof fn lemma_frame_read(body: Seq<u8>, rest: Seq<u8>)
    requires
        body.len() <= usize::MAX,
    ensures
        ReaderView::at(frame(body) + rest).next() == (
            ReaderView::at(rest),
            ReadStep::Message { body },
        ),
{
    lemma_header_read(body, body + rest);
    assert(frame(body) + rest =~= encode_utf8(frame_header(body.len())) + (body + rest));
    assert((body + rest).take(body.len() as int) =~= body);
    assert((body + rest).skip(body.len() as int) =~= rest);
}

/// Messages in a row, as they are written.
pub open spec fn frames(bodies: Seq<Seq<u8>>) -> Seq<u8>
    decreases bodies.len(),
{
    if bodies.len() == 0 {
        Seq::empty()
    } else {
        frame(bodies[0]) + frames(bodies.drop_first())
    }
}

/// Messages in a row are read back before what follows them.
proof fn lemma_frames_read(bodies: Seq<Seq<u8>>, rest: Seq<u8>)
    requires
        forall|i: int| 0 <= i < bodies.len() ==> (#[trigger] bodies[i]).len() <= usize::MAX,
    ensures
        ({
            let (after, more, sound) = drained(ReaderView::at(rest));
            drained(ReaderView::at(frames(bodies) + rest)) == (after, bodies + more, sound)
        }),
    decreases bodies.len(),
{
    let more = drained(ReaderView::at(rest)).1;
    if bodies.len() > 0 {
        let others = bodies.drop_first();
        assert forall|i: int| 0 <= i < others.len() implies (#[trigger] others[i]).len()
            <= usize::MAX by {
            assert(others[i] == bodies[i + 1]);
        }
        lemma_frames_read(others, rest);
        lemma_frame_read(bodies[0], frames(others) + rest);
        assert(frames(bodies) + rest =~= frame(bodies[0]) + (frames(others) + rest));
        assert(seq![bodies[0]] + (others + more) =~= bodies + more);
    } else {
        assert(frames(bodies) + rest =~= rest);
        assert(bodies + more =~= more);
    }
}

/// Messages that are written in a row are read back one by one, each as it
/// was, and nothing is left; the bytes may end behind them.
pub proof fn frames_are_read_back(bodies: Seq<Seq<u8>>)
    requires
        forall|i: int| 0 <= i < bodies.len() ==> (#[trigger] bodies[i]).len() <= usize::MAX,
    ensures
        drained(ReaderView::at(frames(bodies))) == (
            ReaderView::at(Seq::empty()),
            bodies,
            true,
        ),
        ReaderView::at(Seq::empty()).may_end(),
{
    lemma_frames_read(bodies, Seq::empty());
    assert(frames(bodies) + Seq::<u8>::empty() =~= frames(bodies));
    assert(bodies + Seq::<Seq<u8>>::empty() =~= bodies);
}

/// The messages before one whose body is cut short are read back, and then the
/// bytes may not end.
pub proof fn cut_body_is_told(bodies: Seq<Seq<u8>>, body: Seq<u8>, part: Seq<u8>)
    requires
        forall|i: int| 0 <= i < bodies.len() ==> (#[trigger] bodies[i]).len() <= usize::MAX,
        body.len() <= usize::MAX,
        part.len() < body.len(),
    ensures
        ({
            let cut = encode_utf8(frame_header(body.len())) + part;
            let (after, read, sound) = drained(ReaderView::at(frames(bodies) + cut));
            read == bodies && sound && !after.may_end()
        }),
{
    lemma_frames_read(bodies, encode_utf8(frame_header(body.len())) + part);
    lemma_header_read(body, part);
    assert(bodies + Seq::<Seq<u8>>::empty() =~= bodies);
}

/// The messages before a line that is no line of a header are read back, and
/// nothing behind it is.
pub proof fn malformed_line_is_told(bodies: Seq<Seq<u8>>, line: Seq<u8>, rest: Seq<u8>)
    requires
        forall|i: int| 0 <= i < bodies.len() ==> (#[trigger] bodies[i]).len() <= usize::MAX,
        line_length(line) == Some(line.len()),
        ReaderView::at(line).behind(line, Seq::empty()) is None,
    ensures
        ({
            let (_, read, sound) = drained(ReaderView::at(frames(bodies) + (line + rest)));
            read == bodies && !sound
        }),
{
    lemma_frames_read(bodies, line + rest);
    lemma_line_fed(line, rest);
    assert((line + rest).take(line.len() as int) =~= line);
    assert(bodies + Seq::<Seq<u8>>::empty() =~= bodies);
}

/// A line of a header leads on to what follows it: with the length that it
/// tells, or that a line before it told; to the body, where it ends the header;
/// to another header, where none told a length. Nothing is read behind one that
/// is no line of a header.
pub proof fn header_lines_lead_on(told: Option<usize>, line: Seq<u8>, rest: Seq<u8>)
    requires
        line_length(line) == Some(line.len()),
    ensures
        ({
            let next = (ReaderView { told, due: None, bytes: line + rest }).next();
            if !valid_utf8(line) {
                next.1 is Malformed
            } else {
                match header_step(told, decode_utf8(line)) {
                    HeaderStep::More { told } => next == (ReaderView {
                        told,
                        due: None,
                        bytes: rest,
                    }).next(),
                    HeaderStep::Body { length } => next == (ReaderView {
                        told: None,
                        due: Some(length),
                        bytes: rest,
                    }).next(),
                    HeaderStep::NoLength => next == (ReaderView {
                        told: None,
                        due: None,
                        bytes: rest,
                    }).next(),
                    HeaderStep::Malformed => next.1 is Malformed,
                }
            }
        }),
{
    lemma_line_fed(line, rest);
    assert((line + rest).take(line.len() as int) =~= line);
    assert((line + rest).skip(line.len() as int) =~= rest);
}

/// A header line that is not complete is kept until more comes.
pub proof fn cut_lines_are_kept(told: Option<usize>, bytes: Seq<u8>)
    requires
        !bytes.contains(10),
    ensures
        ({
            let reader = ReaderView { told, due: None, bytes };
            reader.next().0 == reader && reader.next().1 is Pending
        }),
{
    lines_end_with_a_line_feed(bytes, Seq::empty());
}

/// A body is handed out when all of it has come, and exactly that much of the
/// bytes is taken; before that nothing is handed out and nothing is lost.
pub proof fn bodies_have_their_length(length: usize, bytes: Seq<u8>)
    ensures
        ({
            let reader = ReaderView { told: None, due: Some(length), bytes };
            let (after, step) = reader.next();
            &&& bytes.len() < length ==> after == reader && step is Pending
            &&& bytes.len() >= length ==> {
                &&& step matches ReadStep::Message { body } && body.len() == length
                    && body + after.bytes == bytes
                &&& after.told is None
                &&& after.due is None
            }
        }),
{
    if bytes.len() >= length {
        assert(bytes.take(length as int) + bytes.skip(length as int) =~= bytes);
    }
}

/// Where the bytes end within a body, they end too early. Else they may end
/// behind whole messages, and behind a last line without a line feed that is a
/// line of a header, unless a body is still due.
pub proof fn ends_are_told(reader: ReaderView)
    ensures
        reader.due is Some ==> !reader.may_end(),
        reader.due is None && reader.bytes.len() == 0 ==> reader.may_end(),
        reader.due is None && reader.bytes.len() > 0 ==> (reader.may_end() <==> valid_utf8(
            reader.bytes,
        ) && match header_step(reader.told, decode_utf8(reader.bytes)) {
            HeaderStep::More { .. } | HeaderStep::NoLength => true,
            HeaderStep::Body { length } => length == 0,
            HeaderStep::Malformed => false,
        }),
{
}

/// The first line of some bytes ends with their first line feed.
pub proof fn lines_end_with_a_line_feed(line: Seq<u8>, rest: Seq<u8>)
    requires
        !line.contains(10),
    ensures
        line_length(line.push(10) + rest) == Some(line.len() + 1),
        line_length(line) is None,
    decreases line.len(),
{
    if line.len() == 0 {
        assert((line.push(10) + rest)[0] == 10);
    } else {
        let others = line.drop_first();
        assert(line.contains(line[0]));
        assert forall|i: int| 0 <= i < others.len() implies others[i] != 10 by {
            assert(line.contains(line[i + 1]));
        }
        lines_end_with_a_line_feed(others, rest);
        assert((line.push(10) + rest).drop_first() =~= others.push(10) + rest);
        assert((line.push(10) + rest)[0] == line[0]);
    }
}

}

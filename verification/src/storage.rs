//! The event file: records on lines of their own, repair of a torn tail, and writes that fail.
use vstd::prelude::*;
use vstd::utf8::*;
use crate::digits;
use crate::events;
use crate::events::{LiveEvent, LiveEventView};
use crate::text;
use crate::wire;

verus! {

/// The bytes that are read at once while the start of the last record is looked for.
pub const SCAN_CHUNK_SIZE: u64 = 8192;

/// The byte that ends a record.
pub const NEWLINE: u8 = 10;

/// Position of the first newline, or the length of the bytes.
pub open spec fn first_newline(bytes: Seq<u8>) -> int
    decreases bytes.len(),
{
    if bytes.len() == 0 || bytes[0] == NEWLINE {
        0
    } else {
        1 + first_newline(bytes.drop_first())
    }
}

/// Position behind the last newline, or zero.
pub open spec fn line_start(bytes: Seq<u8>) -> int
    decreases bytes.len(),
{
    if bytes.len() == 0 {
        0
    } else if bytes.last() == NEWLINE {
        bytes.len() as int
    } else {
        line_start(bytes.drop_last())
    }
}

/// The records that end in a newline, without it.
pub open spec fn complete_lines(bytes: Seq<u8>) -> Seq<Seq<u8>>
    decreases bytes.len(),
    via complete_lines_terminates
{
    let i = first_newline(bytes);
    if i < bytes.len() {
        seq![bytes.take(i)] + complete_lines(bytes.skip(i + 1))
    } else {
        Seq::empty()
    }
}

#[via_fn]
proof fn complete_lines_terminates(bytes: Seq<u8>) {
    lemma_first_newline(bytes);
}

/// Whether the bytes are empty or end in a newline.
pub open spec fn terminated(bytes: Seq<u8>) -> bool {
    bytes.len() == 0 || bytes.last() == NEWLINE
}

proof fn lemma_first_newline(bytes: Seq<u8>)
    ensures
        0 <= first_newline(bytes) <= bytes.len(),
        first_newline(bytes) < bytes.len() ==> bytes[first_newline(bytes)] == NEWLINE,
        forall|j: int| 0 <= j < first_newline(bytes) ==> bytes[j] != NEWLINE,
    decreases bytes.len(),
{
    if bytes.len() > 0 && bytes[0] != NEWLINE {
        let rest = bytes.drop_first();
        lemma_first_newline(rest);
        assert forall|j: int| 0 <= j < first_newline(bytes) implies bytes[j] != NEWLINE by {
            if j > 0 {
                assert(bytes[j] == rest[j - 1]);
            }
        }
        if first_newline(bytes) < bytes.len() {
            assert(rest[first_newline(rest)] == bytes[first_newline(bytes)]);
        }
    }
}

proof fn lemma_first_newline_is(bytes: Seq<u8>, i: int)
    requires
        0 <= i <= bytes.len(),
        i < bytes.len() ==> bytes[i] == NEWLINE,
        forall|j: int| 0 <= j < i ==> bytes[j] != NEWLINE,
    ensures
        first_newline(bytes) == i,
{
    lemma_first_newline(bytes);
    let k = first_newline(bytes);
    if k < i {
        assert(bytes[k] == NEWLINE);
    }
    if i < k {
        assert(bytes[i] == NEWLINE);
    }
}

proof fn lemma_line_start(bytes: Seq<u8>)
    ensures
        0 <= line_start(bytes) <= bytes.len(),
        line_start(bytes) > 0 ==> bytes[line_start(bytes) - 1] == NEWLINE,
        forall|j: int| line_start(bytes) <= j < bytes.len() ==> bytes[j] != NEWLINE,
        terminated(bytes.take(line_start(bytes))),
    decreases bytes.len(),
{
    if bytes.len() > 0 && bytes.last() != NEWLINE {
        let init = bytes.drop_last();
        lemma_line_start(init);
        assert forall|j: int| line_start(bytes) <= j < bytes.len() implies bytes[j] != NEWLINE by {
            if j < init.len() {
                assert(bytes[j] == init[j]);
            }
        }
        assert(bytes.take(line_start(bytes)) =~= init.take(line_start(bytes)));
    } else {
        assert(bytes.take(bytes.len() as int) =~= bytes);
    }
}

proof fn lemma_line_start_is(bytes: Seq<u8>, i: int)
    requires
        0 <= i <= bytes.len(),
        i > 0 ==> bytes[i - 1] == NEWLINE,
        forall|j: int| i <= j < bytes.len() ==> bytes[j] != NEWLINE,
    ensures
        line_start(bytes) == i,
{
    lemma_line_start(bytes);
    let k = line_start(bytes);
    if k < i {
        assert(bytes[i - 1] != NEWLINE);
    }
    if i < k {
        assert(bytes[k - 1] != NEWLINE);
    }
}

/// The complete records of terminated bytes followed by others are those of both, in turn.
pub proof fn lemma_lines_in_turn(a: Seq<u8>, b: Seq<u8>)
    requires
        terminated(a),
    ensures
        complete_lines(a + b) == complete_lines(a) + complete_lines(b),
    decreases a.len(),
{
    if a.len() == 0 {
        assert(a + b =~= b);
        assert(complete_lines(a) + complete_lines(b) =~= complete_lines(b));
    } else {
        lemma_first_newline(a);
        let i = first_newline(a);
        if i == a.len() {
            assert(a[a.len() - 1] == NEWLINE);
        }
        assert forall|j: int| 0 <= j < i implies (a + b)[j] != NEWLINE by {
            assert((a + b)[j] == a[j]);
        }
        lemma_first_newline_is(a + b, i);
        assert((a + b).take(i) =~= a.take(i));
        assert((a + b).skip(i + 1) =~= a.skip(i + 1) + b);
        let rest = a.skip(i + 1);
        if rest.len() > 0 {
            assert(rest.last() == a.last());
        }
        lemma_lines_in_turn(rest, b);
        assert(seq![a.take(i)] + (complete_lines(rest) + complete_lines(b)) =~= (seq![a.take(i)]
            + complete_lines(rest)) + complete_lines(b));
    }
}

/// What is left at the end of a file.
pub enum TailState {
    Terminated,
    Torn,
}

/// What is left at the end of a file, from its length and its last byte.
pub fn tail_state(file_len: u64, final_byte: u8) -> (res: TailState)
    ensures
        res == (if file_len == 0 || final_byte == NEWLINE {
            TailState::Terminated
        } else {
            TailState::Torn
        }),
{
    if file_len == 0 || final_byte == NEWLINE {
        TailState::Terminated
    } else {
        TailState::Torn
    }
}

/// A search from the end of a file for the start of its last record.
pub struct TailScan {
    pub search_end: u64,
}

/// What a piece of the file tells about the start of the last record.
pub enum ScanStep {
    Found { line_start: u64 },
    Continue,
}

/// The start of the last record as the search finds it, piece by piece from `end` backwards.
pub open spec fn scanned(file: Seq<u8>, end: int) -> int
    decreases end,
{
    if end <= 0 {
        0
    } else {
        let len = if end < SCAN_CHUNK_SIZE {
            end
        } else {
            SCAN_CHUNK_SIZE as int
        };
        let piece = file.subrange(end - len, end);
        if line_start(piece) > 0 {
            end - len + line_start(piece)
        } else {
            scanned(file, end - len)
        }
    }
}

impl TailScan {
    /// Starts at the end of a file.
    pub fn new(file_len: u64) -> (res: TailScan)
        ensures
            res.search_end == file_len,
    {
        TailScan { search_end: file_len }
    }

    /// The next piece to read, as its start and length; none where the whole file was searched.
    pub fn next_chunk(&self) -> (res: Option<(u64, u64)>)
        ensures
            res == (if self.search_end == 0 {
                None::<(u64, u64)>
            } else if self.search_end < SCAN_CHUNK_SIZE {
                Some((0u64, self.search_end))
            } else {
                Some(((self.search_end - SCAN_CHUNK_SIZE) as u64, SCAN_CHUNK_SIZE))
            }),
    {
        if self.search_end == 0 {
            None
        } else if self.search_end < SCAN_CHUNK_SIZE {
            Some((0, self.search_end))
        } else {
            Some((self.search_end - SCAN_CHUNK_SIZE, SCAN_CHUNK_SIZE))
        }
    }

    /// Takes the piece that was read: where it holds a newline the last record starts behind it,
    /// else the search goes on before the piece.
    pub fn feed(&mut self, chunk: &[u8]) -> (res: ScanStep)
        requires
            chunk@.len() <= old(self).search_end,
        ensures
            line_start(chunk@) > 0 ==> res == (ScanStep::Found {
                line_start: (old(self).search_end - chunk@.len() + line_start(chunk@)) as u64,
            }) && final(self).search_end == old(self).search_end,
            line_start(chunk@) == 0 ==> res is Continue && final(self).search_end == old(self).search_end - chunk@.len(),
    {
        let n = chunk.len();
        let start: u64 = self.search_end - n as u64;
        let mut i: usize = n;
        while i > 0
            invariant
                i <= n,
                n == chunk@.len(),
                start + n == self.search_end,
                self.search_end == old(self).search_end,
                forall|j: int| i <= j < n ==> chunk@[j] != NEWLINE,
            decreases i,
        {
            if chunk[i - 1] == NEWLINE {
                proof {
                    lemma_line_start_is(chunk@, i as int);
                }
                return ScanStep::Found { line_start: start + i as u64 };
            }
            i -= 1;
        }
        proof {
            lemma_line_start_is(chunk@, 0);
        }
        self.search_end = start;
        ScanStep::Continue
    }
}

/// The search finds the start of the last record, wherever it lies.
pub proof fn law_the_scan_finds_the_last_record(file: Seq<u8>, end: int)
    requires
        0 <= end <= file.len(),
        forall|j: int| end <= j < file.len() ==> file[j] != NEWLINE,
    ensures
        scanned(file, end) == line_start(file),
    decreases end,
{
    if end == 0 {
        lemma_line_start_is(file, 0);
    } else {
        let len = if end < SCAN_CHUNK_SIZE {
            end
        } else {
            SCAN_CHUNK_SIZE as int
        };
        let start = end - len;
        let piece = file.subrange(start, end);
        lemma_line_start(piece);
        let k = line_start(piece);
        if k > 0 {
            assert(file[start + k - 1] == piece[k - 1]);
            assert forall|j: int| start + k <= j < file.len() implies file[j] != NEWLINE by {
                if j < end {
                    assert(file[j] == piece[j - start]);
                }
            }
            lemma_line_start_is(file, start + k);
        } else {
            assert forall|j: int| start <= j < file.len() implies file[j] != NEWLINE by {
                if j < end {
                    assert(file[j] == piece[j - start]);
                }
            }
            law_the_scan_finds_the_last_record(file, start);
        }
    }
}

/// The text of a torn record, without carriage returns at its end, where it is text at all.
pub open spec fn torn_text(tail: Seq<u8>) -> Option<Seq<char>> {
    if valid_utf8(tail) {
        Some(text::strip_end(decode_utf8(tail), text::equals('\r')))
    } else {
        None
    }
}

/// The text of a torn record.
pub fn tail_text(tail: Vec<u8>) -> (res: Option<String>)
    ensures
        res.deep_view() == torn_text(tail@),
{
    match text::string_from_utf8(tail) {
        Some(s) => Some(text::trim_end_matches(s.as_str(), '\r')),
        None => None,
    }
}

/// What is done about a torn record.
pub enum TailRepair {
    Terminate,
    Truncate,
}

/// Whether a torn record is complete but for its newline.
pub open spec fn torn_record_is_whole(line: Option<Seq<char>>, decoded: Option<LiveEventView>) -> bool {
    match line {
        Some(s) => events::line_event(s, decoded) is Some,
        None => false,
    }
}

/// What is done about a torn record: one that reads as an event gets its newline, any other is
/// cut off. `decoded` is the event that the record's JSON holds, if it holds one.
pub fn tail_repair(line: Option<String>, decoded: Option<LiveEvent>) -> (res: TailRepair)
    ensures
        res == (if torn_record_is_whole(line.deep_view(), decoded.deep_view()) {
            TailRepair::Terminate
        } else {
            TailRepair::Truncate
        }),
{
    match line {
        Some(s) => match events::parse_event_line(s.as_str(), decoded) {
            Some(_) => TailRepair::Terminate,
            None => TailRepair::Truncate,
        },
        None => TailRepair::Truncate,
    }
}

/// A file after its torn tail is repaired; `whole` tells whether the torn record is complete but
/// for its newline.
pub open spec fn repaired(file: Seq<u8>, whole: bool) -> Seq<u8> {
    if terminated(file) {
        file
    } else if whole {
        file.push(NEWLINE)
    } else {
        file.take(line_start(file))
    }
}

/// Repairing a file keeps every complete record, adds at most the torn one, and leaves the file
/// ready for the next record.
pub proof fn law_repair_keeps_complete_records(file: Seq<u8>, whole: bool)
    ensures
        terminated(repaired(file, whole)),
        complete_lines(repaired(file, whole)) == (if terminated(file) || !whole {
            complete_lines(file)
        } else {
            complete_lines(file).push(file.skip(line_start(file)))
        }),
        repaired(repaired(file, whole), whole) == repaired(file, whole),
{
    lemma_line_start(file);
    if !terminated(file) {
        let k = line_start(file);
        let head = file.take(k);
        let tail = file.skip(k);
        assert(file =~= head + tail);
        assert forall|j: int| 0 <= j < tail.len() implies tail[j] != NEWLINE by {
            assert(tail[j] == file[k + j]);
        }
        lemma_first_newline_is(tail, tail.len() as int);
        lemma_lines_in_turn(head, tail);
        assert(complete_lines(tail) =~= Seq::<Seq<u8>>::empty());
        assert(complete_lines(head) + complete_lines(tail) =~= complete_lines(head));
        if whole {
            lemma_record_line(tail);
            assert(file.push(NEWLINE) =~= head + tail.push(NEWLINE));
            lemma_lines_in_turn(head, tail.push(NEWLINE));
            assert(complete_lines(head) + seq![tail] =~= complete_lines(head).push(tail));
        }
    }
}

proof fn lemma_record_line(record: Seq<u8>)
    requires
        forall|j: int| 0 <= j < record.len() ==> record[j] != NEWLINE,
    ensures
        complete_lines(record.push(NEWLINE)) == seq![record],
{
    let line = record.push(NEWLINE);
    let n = record.len() as int;
    lemma_first_newline_is(line, n);
    assert(line.take(n) =~= record);
    assert(line.skip(n + 1) =~= Seq::<u8>::empty());
    assert(complete_lines(line.skip(n + 1)) =~= Seq::<Seq<u8>>::empty());
    assert(seq![record] + Seq::<Seq<u8>>::empty() =~= seq![record]);
}

/// The bytes of a record: its text and a newline.
pub open spec fn framed(line: Seq<char>) -> Seq<u8> {
    encode_utf8(line).push(NEWLINE)
}

/// The bytes of a record.
pub fn frame_record(line: &str) -> (res: Vec<u8>)
    ensures
        res@ == framed(line@),
{
    let mut bytes = wire::bytes_of(line);
    bytes.push(NEWLINE);
    bytes
}

proof fn lemma_no_newline_byte(line: Seq<char>)
    requires
        !line.contains('\n'),
    ensures
        forall|j: int| 0 <= j < encode_utf8(line).len() ==> encode_utf8(line)[j] != NEWLINE,
    decreases line.len(),
{
    if line.len() > 0 {
        let rest = line.drop_first();
        assert forall|i: int| 0 <= i < rest.len() implies rest[i] != '\n' by {
            assert(line[i + 1] == rest[i]);
            assert(line.contains(line[i + 1]));
        }
        lemma_no_newline_byte(rest);
        let c = line[0] as u32;
        assert(line.contains(line[0]));
        assert(line[0] != '\n');
        char_is_scalar(line[0]);
        if c == 10 {
            char_u32_cast(line[0], c);
            char_u32_cast('\n', 10);
        }
        assert(c != 10);
        assert(c <= 0x7f && c != 10 ==> (c & 0x7f) as u8 != 10u8) by (bit_vector);
        assert(0xC0u8 | ((c >> 6) & 0x1F) as u8 >= 0x80u8) by (bit_vector);
        assert(0xE0u8 | ((c >> 12) & 0x0F) as u8 >= 0x80u8) by (bit_vector);
        assert(0xF0u8 | ((c >> 18) & 0x7) as u8 >= 0x80u8) by (bit_vector);
        assert(0x80u8 | (c & 0x3F) as u8 >= 0x80u8) by (bit_vector);
        assert(0x80u8 | ((c >> 6) & 0x3F) as u8 >= 0x80u8) by (bit_vector);
        assert(0x80u8 | ((c >> 12) & 0x3F) as u8 >= 0x80u8) by (bit_vector);
        let head = encode_scalar(c);
        let bytes = encode_utf8(line);
        assert(bytes == head + encode_utf8(rest));
        assert forall|j: int| 0 <= j < bytes.len() implies bytes[j] != NEWLINE by {
            if j < head.len() {
                assert(bytes[j] == head[j]);
            } else {
                assert(bytes[j] == encode_utf8(rest)[j - head.len()]);
            }
        }
    }
}

/// A record that is appended to a repaired file becomes its last complete record, and the records
/// before it stay as they are.
pub proof fn law_an_appended_record_is_the_last(file: Seq<u8>, line: Seq<char>)
    requires
        terminated(file),
        !line.contains('\n'),
    ensures
        complete_lines(file + framed(line)) == complete_lines(file).push(encode_utf8(line)),
        terminated(file + framed(line)),
{
    lemma_no_newline_byte(line);
    lemma_record_line(encode_utf8(line));
    lemma_lines_in_turn(file, framed(line));
    assert(complete_lines(file) + seq![encode_utf8(line)] =~= complete_lines(file).push(
        encode_utf8(line),
    ));
}

/// The text of a line as it is read: without the carriage return at its end.
pub open spec fn line_text(bytes: Seq<u8>) -> Seq<char> {
    let line = decode_utf8(bytes);
    if line.len() > 0 && line.last() == '\r' {
        line.drop_last()
    } else {
        line
    }
}

/// Whether every complete line of a file is text.
pub open spec fn is_readable(file: Seq<u8>) -> bool {
    forall|i: int|
        0 <= i < complete_lines(file).len() ==> valid_utf8(#[trigger] complete_lines(file)[i])
}

/// The complete lines of a file, each with the event that its JSON holds: `decode` says which one
/// that is.
pub open spec fn decoded_lines(
    file: Seq<u8>,
    decode: spec_fn(Seq<char>) -> Option<LiveEventView>,
) -> Seq<(Seq<char>, Option<LiveEventView>)> {
    complete_lines(file).map_values(|b: Seq<u8>| (line_text(b), decode(line_text(b))))
}

/// The events that are read from the complete lines of a file.
pub open spec fn file_events(
    file: Seq<u8>,
    decode: spec_fn(Seq<char>) -> Option<LiveEventView>,
) -> Seq<LiveEventView> {
    events::line_events(decoded_lines(file, decode))
}

/// Reading a file after a record was appended gives the events from before, and then the one that
/// the record holds.
pub proof fn law_an_appended_event_is_read_last(
    file: Seq<u8>,
    line: Seq<char>,
    event: LiveEventView,
    decode: spec_fn(Seq<char>) -> Option<LiveEventView>,
)
    requires
        terminated(file),
        is_readable(file),
        !line.contains('\n'),
        line.len() > 0 && line.last() != '\r',
        decode(line) == Some(event),
    ensures
        is_readable(file + framed(line)),
        file_events(file + framed(line), decode) == file_events(file, decode).push(event),
{
    law_an_appended_record_is_the_last(file, line);
    encode_utf8_valid_utf8(line);
    encode_utf8_decode_utf8(line);
    let before = complete_lines(file);
    let after = complete_lines(file + framed(line));
    assert forall|i: int| 0 <= i < after.len() implies valid_utf8(#[trigger] after[i]) by {
        if i < before.len() {
            assert(after[i] == before[i]);
        }
    }
    assert(line_text(encode_utf8(line)) == line);
    assert(decoded_lines(file + framed(line), decode) =~= decoded_lines(file, decode).push(
        (line, Some(event)),
    ));
    let lines = decoded_lines(file + framed(line), decode);
    assert(lines.drop_last() =~= decoded_lines(file, decode));
}

/// Whether reading a file after these bytes were appended to it gives the events from before, and
/// then this one.
pub open spec fn is_read_last(file: Seq<u8>, appended: Seq<u8>, event: LiveEventView) -> bool {
    let decode = |line: Seq<char>| events::recorded_event(line);
    exists|read: LiveEventView| #[trigger]
        read.same_as(event) && file_events(file + appended, decode) == file_events(
            file,
            decode,
        ).push(read)
}

proof fn lemma_read_last(file: Seq<u8>, line: Seq<char>, event: LiveEventView)
    requires
        events::is_line_of(line, event),
        event.is_recordable(),
        terminated(file),
        is_readable(file),
    ensures
        is_read_last(file, framed(line), event),
        is_readable(file + framed(line)),
{
    let decode = |line: Seq<char>| events::recorded_event(line);
    let read = events::recorded_event(line)->0;
    assert(decode(line) == Some(read));
    law_an_appended_event_is_read_last(file, line, read, decode);
    assert(read.same_as(event));
}

/// The bytes that are appended to a file for an event. Whatever whole records stand in the file,
/// reading it then gives the events from before and this one behind them.
pub fn frame_event(event: &LiveEvent) -> (res: Vec<u8>)
    ensures
        res@ == framed(event.deep_view().line()),
        event.deep_view().is_recordable() ==> forall|file: Seq<u8>|
            #![trigger is_read_last(file, res@, event.deep_view())]
            terminated(file) && is_readable(file) ==> is_read_last(
                file,
                res@,
                event.deep_view(),
            ),
{
    let line = events::event_line(event);
    let bytes = frame_record(line.as_str());
    proof {
        let e = event.deep_view();
        if e.is_recordable() {
            assert forall|file: Seq<u8>|
                #![trigger is_read_last(file, bytes@, e)]
                terminated(file) && is_readable(file) implies is_read_last(file, bytes@, e) by {
                lemma_read_last(file, line@, e);
            }
        }
    }
    bytes
}

/// A writer of records. After a record was torn and could not be cut off again, it keeps the
/// length up to which the file is sound.
pub struct DanmuWriter {
    pub poisoned_at: Option<u64>,
}

/// The writer's state after it tried to cut off a torn record.
pub open spec fn after_recovery(poisoned: Option<u64>, truncated: bool) -> Option<u64> {
    if truncated {
        None
    } else {
        poisoned
    }
}

/// The writer's state after a write failed at a length and it tried to cut off what was written.
pub open spec fn after_failure(length: u64, rolled_back: bool) -> Option<u64> {
    if rolled_back {
        None
    } else {
        Some(length)
    }
}

impl DanmuWriter {
    /// A writer for a sound file.
    pub fn new() -> (res: DanmuWriter)
        ensures
            res.poisoned_at is None,
    {
        DanmuWriter { poisoned_at: None }
    }

    /// The length to which the file must be cut before anything else is done to it.
    pub fn must_truncate_to(&self) -> (res: Option<u64>)
        ensures
            res == self.poisoned_at,
    {
        self.poisoned_at
    }

    /// Takes note of the attempt to cut the file; tells whether writing may go on.
    pub fn recover_if_poisoned(&mut self, truncated: bool) -> (res: bool)
        ensures
            final(self).poisoned_at == after_recovery(old(self).poisoned_at, truncated),
            res == (final(self).poisoned_at is None),
    {
        if truncated {
            self.poisoned_at = None;
        }
        self.poisoned_at.is_none()
    }

    /// Takes note of a write that failed after `original_len` bytes of sound file, and of the
    /// attempt to cut off what was written. Gives the message of the failure.
    pub fn write_failed(
        &mut self,
        original_len: u64,
        write_error: &str,
        rollback: Result<(), String>,
    ) -> (res: String)
        requires
            old(self).poisoned_at is None,
        ensures
            final(self).poisoned_at == after_failure(original_len, rollback is Ok),
            match rollback {
                Ok(_) => res@ == write_error@,
                Err(e) => res@ == "danmu write failed ("@ + write_error@ + ") and rollback to "@
                    + digits::signed_decimal(original_len as int) + " bytes failed ("@ + e@ + ")"@,
            },
    {
        match rollback {
            Ok(_) => text::copy(write_error),
            Err(e) => {
                self.poisoned_at = Some(original_len);
                let mut message = text::copy("danmu write failed (");
                message.append(write_error);
                message.append(") and rollback to ");
                let length = digits::u64_text(original_len);
                message.append(length.as_str());
                message.append(" bytes failed (");
                message.append(e.as_str());
                message.append(")");
                message
            },
        }
    }
}

/// A file together with the state of its writer.
pub struct FileView {
    pub bytes: Seq<u8>,
    pub poisoned: Option<u64>,
}

impl FileView {
    /// The part of the file that holds nothing but whole records.
    pub open spec fn sound(self) -> Seq<u8> {
        match self.poisoned {
            Some(n) => self.bytes.take(n as int),
            None => self.bytes,
        }
    }

    /// Whether the writer's state fits the file.
    pub open spec fn valid(self) -> bool {
        &&& self.bytes.len() <= u64::MAX
        &&& match self.poisoned {
            Some(n) => n <= self.bytes.len(),
            None => true,
        }
    }

    /// The file after the torn part is cut off, where that works.
    pub open spec fn recovered(self, truncated: bool) -> FileView {
        FileView {
            bytes: if truncated {
                self.sound()
            } else {
                self.bytes
            },
            poisoned: after_recovery(self.poisoned, truncated),
        }
    }

    /// The file after an attempt to append a record, of which `written` bytes reach it.
    pub open spec fn appended(self, record: Seq<u8>, written: int, rolled_back: bool) -> FileView {
        if written == record.len() {
            FileView { bytes: self.bytes + record, ..self }
        } else {
            FileView {
                bytes: if rolled_back {
                    self.bytes
                } else {
                    self.bytes + record.take(written)
                },
                poisoned: after_failure(self.bytes.len() as u64, rolled_back),
            }
        }
    }
}

/// However a write goes, the sound part of the file keeps its records: it grows by the whole
/// record or by nothing, and nothing is appended behind a torn record.
pub proof fn law_writes_never_tear_records(
    file: FileView,
    truncated: bool,
    record: Seq<u8>,
    written: int,
    rolled_back: bool,
)
    requires
        file.valid(),
        0 <= written <= record.len(),
        file.bytes.len() + record.len() <= u64::MAX,
    ensures
        file.recovered(truncated).sound() == file.sound(),
        file.recovered(truncated).valid(),
        file.recovered(truncated).poisoned is None ==> {
            let after = file.recovered(truncated).appended(record, written, rolled_back);
            &&& after.valid()
            &&& after.sound() == (if written == record.len() {
                file.sound() + record
            } else {
                file.sound()
            })
        },
{
    let ready = file.recovered(truncated);
    if ready.poisoned is None {
        assert(ready.bytes =~= file.sound());
        let after = ready.appended(record, written, rolled_back);
        if written < record.len() && !rolled_back {
            assert(after.bytes.take(ready.bytes.len() as int) =~= ready.bytes);
        }
    }
}

/// However the writing of an event goes, the sound part of the file reads as before, with the event
/// behind all others where it was written whole; and it is ready for the next one.
pub proof fn law_a_written_event_is_read_last(
    file: FileView,
    truncated: bool,
    line: Seq<char>,
    event: LiveEventView,
    decode: spec_fn(Seq<char>) -> Option<LiveEventView>,
    written: int,
    rolled_back: bool,
)
    requires
        file.valid(),
        terminated(file.sound()),
        is_readable(file.sound()),
        !line.contains('\n'),
        line.len() > 0 && line.last() != '\r',
        decode(line) == Some(event),
        file.recovered(truncated).poisoned is None,
        0 <= written <= framed(line).len(),
        file.bytes.len() + framed(line).len() <= u64::MAX,
    ensures
        ({
            let after = file.recovered(truncated).appended(framed(line), written, rolled_back);
            &&& terminated(after.sound())
            &&& is_readable(after.sound())
            &&& file_events(after.sound(), decode) == (if written == framed(line).len() {
                file_events(file.sound(), decode).push(event)
            } else {
                file_events(file.sound(), decode)
            })
        }),
{
    law_writes_never_tear_records(file, truncated, framed(line), written, rolled_back);
    law_an_appended_event_is_read_last(file.sound(), line, event, decode);
    law_an_appended_record_is_the_last(file.sound(), line);
}

/// What comes of adding an event to a sound file. Where its record is written whole, the file is the
/// old one with the record behind it, and reads as before with the event behind all others. Where
/// that fails, the file is the old one, or the writer keeps its length, and cutting the file to that
/// length, which comes before anything else, gives the old one.
pub proof fn law_adding_an_event(
    file: FileView,
    line: Seq<char>,
    event: LiveEventView,
    written: int,
    rolled_back: bool,
)
    requires
        file.valid(),
        file.poisoned is None,
        terminated(file.bytes),
        is_readable(file.bytes),
        events::is_line_of(line, event),
        event.is_recordable(),
        0 <= written <= framed(line).len(),
        file.bytes.len() + framed(line).len() <= u64::MAX,
    ensures
        ({
            let after = file.appended(framed(line), written, rolled_back);
            if written == framed(line).len() {
                &&& after.poisoned is None
                &&& after.bytes == file.bytes + framed(event.line())
                &&& terminated(after.bytes)
                &&& is_readable(after.bytes)
                &&& is_read_last(file.bytes, framed(line), event)
            } else if rolled_back {
                after == file
            } else {
                &&& after.poisoned == Some(file.bytes.len() as u64)
                &&& after.recovered(true) == file
            }
        }),
{
    lemma_read_last(file.bytes, line, event);
    law_an_appended_record_is_the_last(file.bytes, line);
    let after = file.appended(framed(line), written, rolled_back);
    if written < framed(line).len() && !rolled_back {
        assert(after.recovered(true).bytes =~= file.bytes);
    }
}

/// The lines of a file are what stands before each newline; what follows the last one is no line.
pub proof fn law_lines_end_in_newlines(line: Seq<u8>, rest: Seq<u8>)
    requires
        !line.contains(NEWLINE),
    ensures
        complete_lines(line).len() == 0,
        complete_lines(line + seq![NEWLINE] + rest) == seq![line] + complete_lines(rest),
{
    let s = line + seq![NEWLINE] + rest;
    lemma_first_newline(line);
    lemma_first_newline(s);
    assert forall|j: int| 0 <= j < line.len() implies #[trigger] s[j] != NEWLINE by {
        assert(s[j] == line[j] && line.contains(line[j]));
    }
    assert(s[line.len() as int] == NEWLINE);
    assert(first_newline(s) == line.len());
    if first_newline(line) < line.len() {
        assert(line.contains(line[first_newline(line)]));
    }
    assert(s.take(line.len() as int) =~= line);
    assert(s.skip((line.len() + 1) as int) =~= rest);
}

/// The last line of a file starts behind its last newline, and at the very start where there is none.
/// A file is whole where it is empty or ends in a newline: then nothing is left behind the last one.
pub proof fn law_the_last_line_starts_behind_a_newline(bytes: Seq<u8>)
    ensures
        0 <= line_start(bytes) <= bytes.len(),
        line_start(bytes) > 0 ==> bytes[line_start(bytes) - 1] == NEWLINE,
        forall|j: int| line_start(bytes) <= j < bytes.len() ==> #[trigger] bytes[j] != NEWLINE,
        terminated(bytes) <==> line_start(bytes) == bytes.len(),
    decreases bytes.len(),
{
    if bytes.len() > 0 && bytes.last() != NEWLINE {
        let init = bytes.drop_last();
        law_the_last_line_starts_behind_a_newline(init);
        assert forall|j: int| line_start(bytes) <= j < bytes.len() implies #[trigger] bytes[j]
            != NEWLINE by {
            if j < init.len() {
                assert(bytes[j] == init[j]);
            }
        }
    }
}

/// Repairing a file never changes what stands before its last newline, and what stands behind it stays
/// whole or goes whole.
pub proof fn law_repair_touches_the_last_line_alone(file: Seq<u8>, whole: bool)
    ensures
        repaired(file, whole).take(line_start(file)) == file.take(line_start(file)),
        terminated(file) ==> repaired(file, whole) == file,
        !terminated(file) && whole ==> repaired(file, whole) == file.push(NEWLINE),
        !terminated(file) && !whole ==> repaired(file, whole).len() == line_start(file),
{
    law_the_last_line_starts_behind_a_newline(file);
    let n = line_start(file);
    assert(file.push(NEWLINE).take(n) =~= file.take(n));
    assert(file.take(n).take(n) =~= file.take(n));
}

/// A torn record is kept exactly where it can be read: as text at all, and then as an event in either
/// form.
pub proof fn law_torn_records_are_kept_where_they_can_be_read(
    tail: Seq<u8>,
    line: Option<Seq<char>>,
    decoded: Option<LiveEventView>,
)
    ensures
        torn_text(tail) is Some <==> valid_utf8(tail),
        line is None ==> !torn_record_is_whole(line, decoded),
        line is Some && decoded is Some ==> torn_record_is_whole(line, decoded),
        line is Some && decoded is None ==> (torn_record_is_whole(line, decoded)
            <==> events::legacy_line(line->0, "unknown"@, Seq::empty()) is Some),
{
}

/// A record is written as its text and one newline behind it, and a line is read without that newline
/// and without the carriage return that may stand before it.
pub proof fn law_records_are_framed_by_newlines(line: Seq<char>)
    ensures
        framed(line).len() == encode_utf8(line).len() + 1,
        framed(line).last() == NEWLINE,
        framed(line).drop_last() == encode_utf8(line),
        !(line.len() > 0 && line.last() == '\r') ==> line_text(encode_utf8(line)) == line,
        line_text(encode_utf8(line.push('\r'))) == line,
{
    encode_utf8_decode_utf8(line);
    encode_utf8_decode_utf8(line.push('\r'));
    assert(framed(line).drop_last() =~= encode_utf8(line));
    assert(line.push('\r').drop_last() =~= line);
}

/// What a failed write leaves is sound up to where it began: once rolled back nothing is wrong, and
/// else the place is remembered until the file could be cut there.
pub proof fn law_failed_writes_are_remembered(
    length: u64,
    poisoned: Option<u64>,
    truncated: bool,
    rolled_back: bool,
)
    ensures
        rolled_back ==> after_failure(length, rolled_back) is None,
        !rolled_back ==> after_failure(length, rolled_back) == Some(length),
        truncated ==> after_recovery(poisoned, truncated) is None,
        !truncated ==> after_recovery(poisoned, truncated) == poisoned,
{
}

} // verus!

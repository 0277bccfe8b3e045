//! Runtime telemetry batches: JSON Lines framing with size limits, and the validation of
//! each decoded record before any of the batch is stored.
use vstd::prelude::*;
use crate::scan::{parse_u128, parse_u128_spec};
use crate::storage::{all_hex, is_hex_digit};
use crate::strset::{set_contains, str_lt};
use crate::text::{views, chars_of, push_decimal, push_str, str_equal, trim, trim_chars, decimal};

verus! {

broadcast use vstd::string::group_string_axioms;

/// Largest accepted batch, in bytes.
pub const MAX_BATCH_BYTES: usize = 67108864;
/// Largest accepted line, in bytes.
pub const MAX_LINE_BYTES: usize = 1048576;
/// Most records in one batch.
pub const MAX_RECORDS: usize = 100000;

/// The lifecycle state a process status record reports.
#[derive(Clone, Copy, Debug, PartialEq, Eq, Structural)]
pub enum ProcessState {
    Running,
    Exited,
    Signaled,
}

/// One decoded runtime telemetry record. JSON bodies, attributes and statuses are
/// carried through unexamined.
pub enum RuntimeRecord {
    ApplicationLog {
        timestamp_unix_nano: Option<String>,
        severity_text: Option<String>,
        body: serde_json::Value,
        trace_id: Option<String>,
        span_id: Option<String>,
        attributes: serde_json::Value,
    },
    Span {
        trace_id: String,
        span_id: String,
        parent_span_id: Option<String>,
        name: String,
        start_time_unix_nano: String,
        end_time_unix_nano: String,
        status: serde_json::Value,
        attributes: serde_json::Value,
    },
    ProcessStatus {
        process_id: u32,
        state: ProcessState,
        exit_code: Option<i32>,
        signal: Option<i32>,
        executable: Option<String>,
    },
    ProfileSample {
        timestamp_unix_nano: String,
        process_id: u32,
        thread_id: Option<u32>,
        stack: Vec<String>,
        weight: Option<u64>,
    },
}

/// Which timestamp of a record failed to parse.
#[derive(Clone, Copy, Debug, PartialEq, Eq, Structural)]
pub enum TimestampField {
    Timestamp,
    Start,
    End,
}

/// Which identifier of a record is malformed.
#[derive(Clone, Copy, Debug, PartialEq, Eq, Structural)]
pub enum IdField {
    TraceId,
    SpanId,
    ParentSpanId,
}

/// Why a decoded record was refused.
#[derive(Clone, Copy, Debug, PartialEq, Eq, Structural)]
pub enum RecordFault {
    InvalidTimestamp { field: TimestampField },
    BadId { field: IdField, length: usize },
    UnpairedTraceContext,
    OwnParent,
    EmptySpanName,
    EndsBeforeStart,
    RunningWithOutcome,
    ExitedWithoutCode,
    SignaledWithoutSignal,
    EmptyStack,
    StackTooDeep,
}

pub open spec fn id_field_name(f: IdField) -> Seq<char> {
    match f {
        IdField::TraceId => "traceId"@,
        IdField::SpanId => "spanId"@,
        IdField::ParentSpanId => "parentSpanId"@,
    }
}

impl RecordFault {
    /// The human-readable description; for a timestamp the offending value follows it.
    pub open spec fn text(&self) -> Seq<char> {
        match *self {
            RecordFault::InvalidTimestamp { .. } => "invalid Unix nanosecond timestamp"@,
            RecordFault::BadId { field, length } => id_field_name(field) + " must be exactly "@
                + decimal(length as nat) + " hexadecimal characters"@,
            RecordFault::UnpairedTraceContext => "application log traceId and spanId must appear together"@,
            RecordFault::OwnParent => "span cannot be its own parent"@,
            RecordFault::EmptySpanName => "span name is empty"@,
            RecordFault::EndsBeforeStart => "span ends before it starts"@,
            RecordFault::RunningWithOutcome => "running process cannot have exitCode or signal"@,
            RecordFault::ExitedWithoutCode => "exited process requires exitCode and no signal"@,
            RecordFault::SignaledWithoutSignal => "signaled process requires signal and no exitCode"@,
            RecordFault::EmptyStack => "profile sample stack is empty"@,
            RecordFault::StackTooDeep => "profile sample stack exceeds 1024 frames"@,
        }
    }

    /// Renders the description.
    pub fn message(&self) -> (r: String)
        ensures
            r@ == self.text(),
    {
        let mut s = String::new();
        match *self {
            RecordFault::InvalidTimestamp { .. } => push_str(&mut s, "invalid Unix nanosecond timestamp"),
            RecordFault::BadId { field, length } => {
                match field {
                    IdField::TraceId => push_str(&mut s, "traceId"),
                    IdField::SpanId => push_str(&mut s, "spanId"),
                    IdField::ParentSpanId => push_str(&mut s, "parentSpanId"),
                }
                push_str(&mut s, " must be exactly ");
                push_decimal(&mut s, length as u64);
                push_str(&mut s, " hexadecimal characters");
            },
            RecordFault::UnpairedTraceContext => push_str(
                &mut s,
                "application log traceId and spanId must appear together",
            ),
            RecordFault::OwnParent => push_str(&mut s, "span cannot be its own parent"),
            RecordFault::EmptySpanName => push_str(&mut s, "span name is empty"),
            RecordFault::EndsBeforeStart => push_str(&mut s, "span ends before it starts"),
            RecordFault::RunningWithOutcome => push_str(&mut s, "running process cannot have exitCode or signal"),
            RecordFault::ExitedWithoutCode => push_str(&mut s, "exited process requires exitCode and no signal"),
            RecordFault::SignaledWithoutSignal => push_str(&mut s, "signaled process requires signal and no exitCode"),
            RecordFault::EmptyStack => push_str(&mut s, "profile sample stack is empty"),
            RecordFault::StackTooDeep => push_str(&mut s, "profile sample stack exceeds 1024 frames"),
        }
        s
    }
}

/// Exactly `length` hexadecimal characters.
pub open spec fn hex_id(v: Seq<char>, length: nat) -> bool {
    v.len() == length && forall|i: int| 0 <= i < v.len() ==> is_hex_digit(#[trigger] v[i])
}

/// The fault of an identifier that must be `length` hexadecimal characters.
pub open spec fn id_fault(v: Seq<char>, length: usize, field: IdField) -> Option<RecordFault> {
    if hex_id(v, length as nat) {
        None
    } else {
        Some(RecordFault::BadId { field, length })
    }
}

/// The first fault of a record, in the order the checks are made; `None` when it is valid.
pub open spec fn record_fault(r: RuntimeRecord) -> Option<RecordFault> {
    match r {
        RuntimeRecord::ApplicationLog { timestamp_unix_nano, trace_id, span_id, .. } => {
            if timestamp_unix_nano matches Some(t) && parse_u128_spec(t@) is None {
                Some(RecordFault::InvalidTimestamp { field: TimestampField::Timestamp })
            } else {
                match (trace_id, span_id) {
                    (Some(t), Some(s)) => if !hex_id(t@, 32) {
                        Some(RecordFault::BadId { field: IdField::TraceId, length: 32 })
                    } else if !hex_id(s@, 16) {
                        Some(RecordFault::BadId { field: IdField::SpanId, length: 16 })
                    } else {
                        None
                    },
                    (None, None) => None,
                    _ => Some(RecordFault::UnpairedTraceContext),
                }
            }
        },
        RuntimeRecord::Span {
            trace_id,
            span_id,
            parent_span_id,
            name,
            start_time_unix_nano,
            end_time_unix_nano,
            ..
        } => {
            if !hex_id(trace_id@, 32) {
                Some(RecordFault::BadId { field: IdField::TraceId, length: 32 })
            } else if !hex_id(span_id@, 16) {
                Some(RecordFault::BadId { field: IdField::SpanId, length: 16 })
            } else if parent_span_id matches Some(p) && !hex_id(p@, 16) {
                Some(RecordFault::BadId { field: IdField::ParentSpanId, length: 16 })
            } else if parent_span_id matches Some(p) && p@ == span_id@ {
                Some(RecordFault::OwnParent)
            } else if trim(name@).len() == 0 {
                Some(RecordFault::EmptySpanName)
            } else if parse_u128_spec(start_time_unix_nano@) is None {
                Some(RecordFault::InvalidTimestamp { field: TimestampField::Start })
            } else if parse_u128_spec(end_time_unix_nano@) is None {
                Some(RecordFault::InvalidTimestamp { field: TimestampField::End })
            } else if parse_u128_spec(end_time_unix_nano@)->0 < parse_u128_spec(
                start_time_unix_nano@,
            )->0 {
                Some(RecordFault::EndsBeforeStart)
            } else {
                None
            }
        },
        RuntimeRecord::ProcessStatus { state, exit_code, signal, .. } => match state {
            ProcessState::Running => if exit_code is None && signal is None {
                None
            } else {
                Some(RecordFault::RunningWithOutcome)
            },
            ProcessState::Exited => if exit_code is Some && signal is None {
                None
            } else {
                Some(RecordFault::ExitedWithoutCode)
            },
            ProcessState::Signaled => if signal is Some && exit_code is None {
                None
            } else {
                Some(RecordFault::SignaledWithoutSignal)
            },
        },
        RuntimeRecord::ProfileSample { timestamp_unix_nano, stack, .. } => {
            if parse_u128_spec(timestamp_unix_nano@) is None {
                Some(RecordFault::InvalidTimestamp { field: TimestampField::Timestamp })
            } else if stack.len() == 0 {
                Some(RecordFault::EmptyStack)
            } else if stack.len() > 1024 {
                Some(RecordFault::StackTooDeep)
            } else {
                None
            }
        },
    }
}

/// A process status is valid exactly when its outcome fits its state: it has an exit
/// code just when the process exited, and a signal just when a signal ended it.
pub proof fn law_process_outcome_fits_state(record: RuntimeRecord)
    requires
        record is ProcessStatus,
    ensures
        record_fault(record) is None <==> ((record->ProcessStatus_exit_code is Some) == (record->ProcessStatus_state
            == ProcessState::Exited) && (record->ProcessStatus_signal is Some) == (record->ProcessStatus_state
            == ProcessState::Signaled)),
{
}

/// A span is valid exactly when its trace identifier is 32 hexadecimal characters, its
/// span identifier 16, its parent (if any) 16 and another span, its name is not blank,
/// and both times are decimal nanoseconds with the end no earlier than the start.
pub proof fn law_valid_spans(record: RuntimeRecord)
    requires
        record is Span,
    ensures
        record_fault(record) is None <==> {
            &&& hex_id(record->Span_trace_id@, 32)
            &&& hex_id(record->Span_span_id@, 16)
            &&& (record->Span_parent_span_id matches Some(p) ==> hex_id(p@, 16) && p@ != record->Span_span_id@)
            &&& trim(record->Span_name@).len() > 0
            &&& parse_u128_spec(record->Span_start_time_unix_nano@) is Some
            &&& parse_u128_spec(record->Span_end_time_unix_nano@) is Some
            &&& parse_u128_spec(record->Span_start_time_unix_nano@)->0 <= parse_u128_spec(record->Span_end_time_unix_nano@)->0
        },
{
}

/// An application log is valid exactly when its timestamp, if any, is decimal
/// nanoseconds and its trace context is absent or complete: a trace identifier of 32
/// hexadecimal characters together with a span identifier of 16.
pub proof fn law_valid_logs(record: RuntimeRecord)
    requires
        record is ApplicationLog,
    ensures
        record_fault(record) is None <==> {
            &&& (record->ApplicationLog_timestamp_unix_nano matches Some(t) ==> parse_u128_spec(t@) is Some)
            &&& (record->ApplicationLog_trace_id is Some <==> record->ApplicationLog_span_id is Some)
            &&& (record->ApplicationLog_trace_id matches Some(t) ==> hex_id(t@, 32))
            &&& (record->ApplicationLog_span_id matches Some(t) ==> hex_id(t@, 16))
        },
{
}

/// A profile sample is valid exactly when its timestamp is decimal nanoseconds and its
/// stack holds between one and 1024 frames.
pub proof fn law_valid_samples(record: RuntimeRecord)
    requires
        record is ProfileSample,
    ensures
        record_fault(record) is None <==> {
            &&& parse_u128_spec(record->ProfileSample_timestamp_unix_nano@) is Some
            &&& 1 <= record->ProfileSample_stack.len() <= 1024
        },
{
}

/// A Unix nanosecond timestamp written in decimal.
pub fn parse_timestamp(value: &str) -> (r: Option<u128>)
    ensures
        r == parse_u128_spec(value@),
{
    let c = chars_of(value);
    parse_u128(c.as_slice())
}

/// Whether `value` is exactly `length` hexadecimal characters.
pub fn validate_hex_id(value: &str, length: usize) -> (r: bool)
    ensures
        r == hex_id(value@, length as nat),
{
    all_hex(value, length)
}

fn id_check(value: &str, length: usize, field: IdField) -> (r: Result<(), RecordFault>)
    ensures
        match id_fault(value@, length, field) {
            Some(f) => r == Err::<(), RecordFault>(f),
            None => r is Ok,
        },
{
    if validate_hex_id(value, length) {
        Ok(())
    } else {
        Err(RecordFault::BadId { field, length })
    }
}

/// Checks one decoded record.
pub fn validate_record(record: &RuntimeRecord) -> (r: Result<(), RecordFault>)
    ensures
        match record_fault(*record) {
            Some(f) => r == Err::<(), RecordFault>(f),
            None => r is Ok,
        },
{
    match record {
        RuntimeRecord::ApplicationLog { timestamp_unix_nano, trace_id, span_id, .. } => {
            if let Some(t) = timestamp_unix_nano {
                if parse_timestamp(t.as_str()).is_none() {
                    return Err(RecordFault::InvalidTimestamp { field: TimestampField::Timestamp });
                }
            }
            match (trace_id, span_id) {
                (Some(t), Some(s)) => {
                    id_check(t.as_str(), 32, IdField::TraceId)?;
                    id_check(s.as_str(), 16, IdField::SpanId)?;
                    Ok(())
                },
                (None, None) => Ok(()),
                _ => Err(RecordFault::UnpairedTraceContext),
            }
        },
        RuntimeRecord::Span {
            trace_id,
            span_id,
            parent_span_id,
            name,
            start_time_unix_nano,
            end_time_unix_nano,
            ..
        } => {
            id_check(trace_id.as_str(), 32, IdField::TraceId)?;
            id_check(span_id.as_str(), 16, IdField::SpanId)?;
            if let Some(p) = parent_span_id {
                id_check(p.as_str(), 16, IdField::ParentSpanId)?;
                if str_equal(p.as_str(), span_id.as_str()) {
                    return Err(RecordFault::OwnParent);
                }
            }
            let n = chars_of(name.as_str());
            if trim_chars(n.as_slice()).len() == 0 {
                return Err(RecordFault::EmptySpanName);
            }
            let start = match parse_timestamp(start_time_unix_nano.as_str()) {
                Some(v) => v,
                None => return Err(RecordFault::InvalidTimestamp { field: TimestampField::Start }),
            };
            let end = match parse_timestamp(end_time_unix_nano.as_str()) {
                Some(v) => v,
                None => return Err(RecordFault::InvalidTimestamp { field: TimestampField::End }),
            };
            if end < start {
                return Err(RecordFault::EndsBeforeStart);
            }
            Ok(())
        },
        RuntimeRecord::ProcessStatus { state, exit_code, signal, .. } => match state {
            ProcessState::Running => if exit_code.is_none() && signal.is_none() {
                Ok(())
            } else {
                Err(RecordFault::RunningWithOutcome)
            },
            ProcessState::Exited => if exit_code.is_some() && signal.is_none() {
                Ok(())
            } else {
                Err(RecordFault::ExitedWithoutCode)
            },
            ProcessState::Signaled => if signal.is_some() && exit_code.is_none() {
                Ok(())
            } else {
                Err(RecordFault::SignaledWithoutSignal)
            },
        },
        RuntimeRecord::ProfileSample { timestamp_unix_nano, stack, .. } => {
            if parse_timestamp(timestamp_unix_nano.as_str()).is_none() {
                return Err(RecordFault::InvalidTimestamp { field: TimestampField::Timestamp });
            }
            if stack.len() == 0 {
                return Err(RecordFault::EmptyStack);
            }
            if stack.len() > 1024 {
                return Err(RecordFault::StackTooDeep);
            }
            Ok(())
        },
    }
}

/// Position of the first line feed byte in `b` (or its length).
pub open spec fn newline_byte_pos(b: Seq<u8>) -> nat
    decreases b.len(),
{
    if b.len() == 0 || b[0] == 10 {
        0
    } else {
        1 + newline_byte_pos(b.drop_first())
    }
}

pub proof fn lemma_newline_byte_pos_bound(b: Seq<u8>)
    ensures
        newline_byte_pos(b) <= b.len(),
    decreases b.len(),
{
    if b.len() > 0 && b[0] != 10 {
        lemma_newline_byte_pos_bound(b.drop_first());
    }
}

/// The pieces of `b` between line feeds, as `<[u8]>::split` yields them: there is always
/// at least one, and a final line feed leaves an empty last piece.
pub open spec fn byte_segments(b: Seq<u8>) -> Seq<Seq<u8>>
    decreases b.len(),
{
    proof {
        lemma_newline_byte_pos_bound(b);
    }
    let k = newline_byte_pos(b);
    if k >= b.len() {
        seq![b]
    } else {
        seq![b.take(k as int)] + byte_segments(b.skip(k + 1 as int))
    }
}

/// ASCII whitespace as `u8::is_ascii_whitespace` defines it.
pub open spec fn ascii_space(c: u8) -> bool {
    c == 32 || c == 9 || c == 10 || c == 12 || c == 13
}

/// A line that holds nothing but ASCII whitespace (or nothing at all).
pub open spec fn blank_line(l: Seq<u8>) -> bool {
    forall|i: int| 0 <= i < l.len() ==> ascii_space(#[trigger] l[i])
}

/// The non-blank lines with their 1-based line numbers; `before` lines precede `segs`.
pub open spec fn kept_lines(segs: Seq<Seq<u8>>, before: nat) -> Seq<(nat, Seq<u8>)>
    decreases segs.len(),
{
    if segs.len() == 0 {
        seq![]
    } else if blank_line(segs[0]) {
        kept_lines(segs.drop_first(), before + 1)
    } else {
        seq![(before + 1, segs[0])] + kept_lines(segs.drop_first(), before + 1)
    }
}

/// A non-blank line of a batch and its 1-based number.
#[derive(Clone, Debug)]
pub struct RuntimeLine {
    pub number: usize,
    pub bytes: Vec<u8>,
}

pub open spec fn line_view(l: RuntimeLine) -> (nat, Seq<u8>) {
    (l.number as nat, l.bytes@)
}

/// Why a telemetry batch was refused.
#[derive(Clone, Debug, PartialEq, Eq)]
pub enum RuntimeError {
    Empty,
    TooLarge,
    LineTooLong { line: usize },
    TooManyRecords,
    Decode { line: usize, message: String },
    Invalid { line: usize, fault: RecordFault },
    NoRecords,
}

fn is_space_byte(c: u8) -> (r: bool)
    ensures
        r == ascii_space(c),
{
    c == 32 || c == 9 || c == 10 || c == 12 || c == 13
}

/// Splits a batch into its non-blank lines, after refusing an empty or oversized batch.
pub fn runtime_batch_lines(bytes: &[u8]) -> (r: Result<Vec<RuntimeLine>, RuntimeError>)
    ensures
        bytes@.len() == 0 ==> r == Err::<Vec<RuntimeLine>, RuntimeError>(RuntimeError::Empty),
        bytes@.len() > MAX_BATCH_BYTES ==> r == Err::<Vec<RuntimeLine>, RuntimeError>(
            RuntimeError::TooLarge,
        ),
        0 < bytes@.len() <= MAX_BATCH_BYTES ==> (r matches Ok(v) && v@.map_values(
            |l: RuntimeLine| line_view(l),
        ) == kept_lines(byte_segments(bytes@), 0)),
{
    let n = bytes.len();
    if n == 0 {
        return Err(RuntimeError::Empty);
    }
    if n > MAX_BATCH_BYTES {
        return Err(RuntimeError::TooLarge);
    }
    let mut out: Vec<RuntimeLine> = Vec::new();
    let mut pos: usize = 0;
    let mut index: usize = 0;
    let ghost whole = kept_lines(byte_segments(bytes@), 0);
    assert(bytes@.skip(0) =~= bytes@);
    assert(out@.map_values(|l: RuntimeLine| line_view(l)) + kept_lines(byte_segments(bytes@.skip(0)), 0) =~= whole);
    loop
        invariant
            n == bytes@.len(),
            0 < n <= MAX_BATCH_BYTES,
            pos <= n,
            index <= pos,
            whole == kept_lines(byte_segments(bytes@), 0),
            out@.map_values(|l: RuntimeLine| line_view(l)) + kept_lines(
                byte_segments(bytes@.skip(pos as int)),
                index as nat,
            ) == whole,
        decreases n - pos,
    {
        let ghost rest = bytes@.skip(pos as int);
        let mut j: usize = pos;
        let mut blank = true;
        let mut line: Vec<u8> = Vec::new();
        while j < n && bytes[j] != 10
            invariant
                n == bytes@.len(),
                pos <= j <= n,
                rest == bytes@.skip(pos as int),
                line@ == bytes@.subrange(pos as int, j as int),
                blank == blank_line(line@),
                newline_byte_pos(rest) == (j - pos) + newline_byte_pos(bytes@.skip(j as int)),
            decreases n - j,
        {
            assert(bytes@.skip(j as int).drop_first() =~= bytes@.skip(j + 1));
            let x = bytes[j];
            let ghost prev = line@;
            if !is_space_byte(x) {
                blank = false;
            }
            line.push(x);
            proof {
                if blank {
                    assert forall|i: int| 0 <= i < line@.len() implies ascii_space(#[trigger] line@[i]) by {
                        if i < prev.len() {
                            assert(line@[i] == prev[i]);
                        }
                    }
                } else if !ascii_space(x) {
                    assert(!ascii_space(line@[prev.len() as int]));
                } else {
                    let i = choose|i: int| 0 <= i < prev.len() && !ascii_space(#[trigger] prev[i]);
                    assert(line@[i] == prev[i]);
                }
            }
            assert(line@ =~= bytes@.subrange(pos as int, j + 1));
            j = j + 1;
        }
        assert(newline_byte_pos(bytes@.skip(j as int)) == 0);
        assert(rest.take(newline_byte_pos(rest) as int) =~= line@);
        let ghost before = out@.map_values(|l: RuntimeLine| line_view(l));
        let ghost lv = line@;
        if !blank {
            let ghost item = (index as nat + 1, line@);
            out.push(RuntimeLine { number: index + 1, bytes: line });
            assert(out@.map_values(|l: RuntimeLine| line_view(l)) =~= before.push(item));
        }
        if j == n {
            assert(rest =~= rest.take(newline_byte_pos(rest) as int));
            assert(byte_segments(rest) == seq![rest]);
            assert(seq![rest].drop_first() =~= Seq::<Seq<u8>>::empty());
            assert(lv =~= rest);
            assert(blank == blank_line(rest));
            assert(kept_lines(Seq::<Seq<u8>>::empty(), index as nat + 1) =~= Seq::<(nat, Seq<u8>)>::empty());
            if blank {
                assert(kept_lines(seq![rest], index as nat) =~= Seq::<(nat, Seq<u8>)>::empty());
            } else {
                assert(kept_lines(seq![rest], index as nat) =~= seq![(index as nat + 1, rest)]);
            }
            assert(out@.map_values(|l: RuntimeLine| line_view(l)) =~= whole);
            return Ok(out);
        }
        assert(rest.skip(newline_byte_pos(rest) + 1 as int) =~= bytes@.skip(j + 1));
        assert(byte_segments(rest).drop_first() =~= byte_segments(bytes@.skip(j + 1)));
        assert(out@.map_values(|l: RuntimeLine| line_view(l)) + kept_lines(
            byte_segments(bytes@.skip(j + 1)),
            index as nat + 1,
        ) =~= whole);
        pos = j + 1;
        index = index + 1;
    }
}

/// What is wrong with the `k`-th kept line, checked in order: its size, the record
/// limit, its decoding, then the record.
pub open spec fn line_fault(
    lines: Seq<RuntimeLine>,
    decoded: Seq<Result<RuntimeRecord, String>>,
    k: int,
) -> Option<RuntimeError> {
    let l = lines[k];
    if l.bytes@.len() > MAX_LINE_BYTES {
        Some(RuntimeError::LineTooLong { line: l.number })
    } else if k >= MAX_RECORDS {
        Some(RuntimeError::TooManyRecords)
    } else {
        match decoded[k] {
            Err(m) => Some(RuntimeError::Decode { line: l.number, message: m }),
            Ok(rec) => match record_fault(rec) {
                Some(f) => Some(RuntimeError::Invalid { line: l.number, fault: f }),
                None => None,
            },
        }
    }
}

/// The first fault among lines `k..`.
pub open spec fn first_fault(
    lines: Seq<RuntimeLine>,
    decoded: Seq<Result<RuntimeRecord, String>>,
    k: int,
) -> Option<RuntimeError>
    decreases lines.len() - k,
{
    if k < 0 || k >= lines.len() {
        None
    } else {
        match line_fault(lines, decoded, k) {
            Some(e) => Some(e),
            None => first_fault(lines, decoded, k + 1),
        }
    }
}

/// Checks the whole batch, line by line, before any of it is stored: each line's size,
/// the record limit, the decoding the caller made of it, and the record itself.
pub fn check_runtime_batch(lines: &[RuntimeLine], decoded: &[Result<RuntimeRecord, String>]) -> (r:
    Result<(), RuntimeError>)
    requires
        decoded@.len() == lines@.len(),
    ensures
        match first_fault(lines@, decoded@, 0) {
            Some(e) => r == Err::<(), RuntimeError>(e),
            None => if lines@.len() == 0 {
                r == Err::<(), RuntimeError>(RuntimeError::NoRecords)
            } else {
                r is Ok
            },
        },
{
    let mut k: usize = 0;
    while k < lines.len()
        invariant
            decoded@.len() == lines@.len(),
            k <= lines@.len(),
            first_fault(lines@, decoded@, 0) == first_fault(lines@, decoded@, k as int),
        decreases lines@.len() - k,
    {
        let l = &lines[k];
        if l.bytes.len() > MAX_LINE_BYTES {
            return Err(RuntimeError::LineTooLong { line: l.number });
        }
        if k >= MAX_RECORDS {
            return Err(RuntimeError::TooManyRecords);
        }
        match &decoded[k] {
            Err(m) => {
                return Err(RuntimeError::Decode { line: l.number, message: m.clone() });
            },
            Ok(rec) => match validate_record(rec) {
                Err(f) => {
                    return Err(RuntimeError::Invalid { line: l.number, fault: f });
                },
                Ok(()) => {},
            },
        }
        k = k + 1;
    }
    if lines.len() == 0 {
        return Err(RuntimeError::NoRecords);
    }
    Ok(())
}

/// The event kind a record becomes.
pub open spec fn kind_of(r: RuntimeRecord) -> Seq<char> {
    match r {
        RuntimeRecord::ApplicationLog { .. } => "runtime.application.log"@,
        RuntimeRecord::Span { .. } => "runtime.span"@,
        RuntimeRecord::ProcessStatus { .. } => "runtime.process.status"@,
        RuntimeRecord::ProfileSample { .. } => "runtime.profile.sample"@,
    }
}

/// The event kind a record becomes.
pub fn record_kind(r: &RuntimeRecord) -> (s: &'static str)
    ensures
        s@ == kind_of(*r),
{
    match r {
        RuntimeRecord::ApplicationLog { .. } => "runtime.application.log",
        RuntimeRecord::Span { .. } => "runtime.span",
        RuntimeRecord::ProcessStatus { .. } => "runtime.process.status",
        RuntimeRecord::ProfileSample { .. } => "runtime.profile.sample",
    }
}

/// The distinct values of `s`, each where it first appears.
pub open spec fn distinct_in_order(s: Seq<Seq<char>>) -> Seq<Seq<char>>
    decreases s.len(),
{
    if s.len() == 0 {
        seq![]
    } else {
        let d = distinct_in_order(s.drop_last());
        if d.contains(s.last()) {
            d
        } else {
            d.push(s.last())
        }
    }
}

/// The kinds of the records, in order.
pub open spec fn record_kinds(records: Seq<RuntimeRecord>) -> Seq<Seq<char>> {
    records.map_values(|r: RuntimeRecord| kind_of(r))
}

/// What an accepted batch produced: how many events, the artifact holding the raw batch,
/// and the distinct event kinds in order of first appearance.
pub struct RuntimeImportResult {
    pub event_count: usize,
    pub artifact_ref: String,
    pub kinds: Vec<String>,
}

/// Summarises an accepted batch stored as `artifact_ref`.
pub fn import_result(records: &[RuntimeRecord], artifact_ref: String) -> (r: RuntimeImportResult)
    ensures
        r.event_count == records@.len(),
        r.artifact_ref == artifact_ref,
        views(r.kinds@) == distinct_in_order(record_kinds(records@)),
{
    let mut kinds: Vec<String> = Vec::new();
    let ghost all = record_kinds(records@);
    let mut i: usize = 0;
    while i < records.len()
        invariant
            i <= records@.len(),
            all == record_kinds(records@),
            views(kinds@) == distinct_in_order(all.take(i as int)),
        decreases records@.len() - i,
    {
        let kind = record_kind(&records[i]);
        let ghost d = views(kinds@);
        assert(all.take(i + 1).drop_last() =~= all.take(i as int));
        assert(all.take(i + 1).last() == kind@);
        let mut found = false;
        let mut j: usize = 0;
        while j < kinds.len()
            invariant
                j <= kinds@.len(),
                d == views(kinds@),
                found == exists|m: int| 0 <= m < j && d[m] == kind@,
            decreases kinds@.len() - j,
        {
            assert(d[j as int] == kinds@[j as int]@);
            if str_equal(kinds[j].as_str(), kind) {
                found = true;
                assert(d[j as int] == kind@);
            }
            j = j + 1;
        }
        if !found {
            let mut k = String::new();
            push_str(&mut k, kind);
            kinds.push(k);
            assert(views(kinds@) =~= d.push(kind@));
        } else {
            assert(d.contains(kind@));
        }
        i = i + 1;
    }
    assert(all.take(i as int) =~= all);
    RuntimeImportResult { event_count: records.len(), artifact_ref, kinds }
}

} // verus!

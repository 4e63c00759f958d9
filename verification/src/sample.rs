//! Process samples and the events published for them.
//!
//! A process table arrives as raw rows: an identifier, the name as the bytes
//! the operating system reported, and the CPU usage as the bit pattern of a
//! single-precision number. A row whose name is valid UTF-8 becomes a sample;
//! a sample becomes the event that is pushed to the sink. The CPU usage is
//! carried through untouched, bit for bit.

use vstd::prelude::*;
use vstd::utf8::{decode_utf8, valid_utf8};

verus! {

/// One row of the process table, as the host read it.
#[derive(Clone, Debug, PartialEq, Eq)]
pub struct RawProcess {
    pub pid: u32,
    pub name: Vec<u8>,
    pub cpu_bits: u32,
}

/// What a [`RawProcess`] holds.
pub struct RawProcessView {
    pub pid: u32,
    pub name: Seq<u8>,
    pub cpu_bits: u32,
}

impl View for RawProcess {
    type V = RawProcessView;

    open spec fn view(&self) -> RawProcessView {
        RawProcessView { pid: self.pid, name: self.name@, cpu_bits: self.cpu_bits }
    }
}

/// The metrics of one process within one refresh cycle.
#[derive(Clone, Debug, PartialEq, Eq)]
pub struct ProcessSample {
    pub pid: u32,
    pub name: String,
    pub cpu_bits: u32,
}

/// What a [`ProcessSample`] holds.
pub struct SampleView {
    pub pid: u32,
    pub name: Seq<char>,
    pub cpu_bits: u32,
}

impl View for ProcessSample {
    type V = SampleView;

    open spec fn view(&self) -> SampleView {
        SampleView { pid: self.pid, name: self.name@, cpu_bits: self.cpu_bits }
    }
}

/// The payload pushed to the sink for one sample. The identifier travels as
/// its decimal numeral.
#[derive(Clone, Debug, PartialEq, Eq)]
pub struct ProcessUpdatedEvent {
    pub pid: String,
    pub name: String,
    pub cpu_bits: u32,
}

/// What a [`ProcessUpdatedEvent`] holds.
pub struct EventView {
    pub pid: Seq<char>,
    pub name: Seq<char>,
    pub cpu_bits: u32,
}

impl View for ProcessUpdatedEvent {
    type V = EventView;

    open spec fn view(&self) -> EventView {
        EventView { pid: self.pid@, name: self.name@, cpu_bits: self.cpu_bits }
    }
}

/// The name of process `pid` is not valid UTF-8, so the row yields no sample.
#[derive(Clone, Copy, Debug, PartialEq, Eq, Structural)]
pub struct DecodeError {
    pub pid: u32,
}

/// Whether a row's name can be decoded.
pub open spec fn decodable(row: RawProcessView) -> bool {
    valid_utf8(row.name)
}

/// The sample that a decodable row stands for.
pub open spec fn sample_of(row: RawProcessView) -> SampleView {
    SampleView { pid: row.pid, name: decode_utf8(row.name), cpu_bits: row.cpu_bits }
}

/// The event published for a sample.
pub open spec fn event_of(sample: SampleView) -> EventView {
    EventView {
        pid: decimal_text(sample.pid as nat),
        name: sample.name,
        cpu_bits: sample.cpu_bits,
    }
}

/// The samples of a vector, each by its view.
pub open spec fn sample_views(samples: Seq<ProcessSample>) -> Seq<SampleView> {
    samples.map_values(|sample: ProcessSample| sample@)
}

/// The events published for a sequence of samples: one for each, in order.
pub open spec fn events_of(samples: Seq<SampleView>) -> Seq<EventView> {
    samples.map_values(|sample: SampleView| event_of(sample))
}

/// The character for one decimal digit.
pub open spec fn digit_char(d: int) -> char {
    if d == 0 {
        '0'
    } else if d == 1 {
        '1'
    } else if d == 2 {
        '2'
    } else if d == 3 {
        '3'
    } else if d == 4 {
        '4'
    } else if d == 5 {
        '5'
    } else if d == 6 {
        '6'
    } else if d == 7 {
        '7'
    } else if d == 8 {
        '8'
    } else {
        '9'
    }
}

/// The decimal numeral of `n`: no sign, no padding, no leading zero except
/// for zero itself.
pub open spec fn decimal_text(n: nat) -> Seq<char>
    decreases n,
{
    if n < 10 {
        seq![digit_char(n as int)]
    } else {
        decimal_text(n / 10).push(digit_char((n % 10) as int))
    }
}

fn digit_str(d: u32) -> (s: &'static str)
    requires
        d < 10,
    ensures
        s@ == seq![digit_char(d as int)],
{
    proof {
        reveal_strlit("0");
        reveal_strlit("1");
        reveal_strlit("2");
        reveal_strlit("3");
        reveal_strlit("4");
        reveal_strlit("5");
        reveal_strlit("6");
        reveal_strlit("7");
        reveal_strlit("8");
        reveal_strlit("9");
    }
    let s = if d == 0 {
        "0"
    } else if d == 1 {
        "1"
    } else if d == 2 {
        "2"
    } else if d == 3 {
        "3"
    } else if d == 4 {
        "4"
    } else if d == 5 {
        "5"
    } else if d == 6 {
        "6"
    } else if d == 7 {
        "7"
    } else if d == 8 {
        "8"
    } else {
        "9"
    };
    assert(s@ =~= seq![digit_char(d as int)]);
    s
}

fn append_decimal(text: &mut String, n: u32)
    ensures
        final(text)@ == old(text)@ + decimal_text(n as nat),
    decreases n,
{
    if n >= 10 {
        append_decimal(text, n / 10);
    }
    text.append(digit_str(n % 10));
}

/// Renders a process identifier the way it travels in an event: as its
/// decimal numeral.
pub fn pid_text(pid: u32) -> (text: String)
    ensures
        text@ == decimal_text(pid as nat),
{
    let mut text = String::new();
    append_decimal(&mut text, pid);
    text
}

#[verifier::external_type_specification]
#[verifier::external_body]
pub struct ExFromUtf8Error(std::string::FromUtf8Error);

/// `String::from_utf8`, taken on trust: it succeeds exactly on valid UTF-8,
/// and the string it then returns is the text those bytes encode.
#[verifier::external_body]
fn string_from_utf8(bytes: Vec<u8>) -> (decoded: Result<String, std::string::FromUtf8Error>)
    ensures
        decoded is Ok <==> valid_utf8(bytes@),
        decoded matches Ok(text) ==> text@ == decode_utf8(bytes@),
{
    String::from_utf8(bytes)
}

/// Decodes a process name from the bytes the operating system reported.
/// Nothing is replaced or dropped: bytes that are not valid UTF-8 give `None`.
pub fn decode_name(bytes: Vec<u8>) -> (name: Option<String>)
    ensures
        name is Some <==> valid_utf8(bytes@),
        name matches Some(text) ==> text@ == decode_utf8(bytes@),
{
    match string_from_utf8(bytes) {
        Ok(text) => Some(text),
        Err(_) => None,
    }
}

impl ProcessSample {
    /// Turns a raw row into a sample, or says whose name could not be decoded.
    pub fn decode(row: &RawProcess) -> (decoded: Result<ProcessSample, DecodeError>)
        ensures
            match decoded {
                Ok(sample) => decodable(row@) && sample@ == sample_of(row@),
                Err(error) => !decodable(row@) && error.pid == row.pid,
            },
    {
        match decode_name(row.name.clone()) {
            Some(name) => Ok(ProcessSample { pid: row.pid, name, cpu_bits: row.cpu_bits }),
            None => Err(DecodeError { pid: row.pid }),
        }
    }
}

impl DecodeError {
    /// A line for the log.
    pub fn describe(&self) -> (line: String)
        ensures
            line@ == "process "@ + decimal_text(self.pid as nat) + ": name is not valid UTF-8"@,
    {
        let mut line = String::from_str("process ");
        append_decimal(&mut line, self.pid);
        line.append(": name is not valid UTF-8");
        line
    }
}

impl ProcessUpdatedEvent {
    /// The event published for `sample`.
    pub fn from_sample(sample: &ProcessSample) -> (event: ProcessUpdatedEvent)
        ensures
            event@ == event_of(sample@),
    {
        ProcessUpdatedEvent {
            pid: pid_text(sample.pid),
            name: sample.name.clone(),
            cpu_bits: sample.cpu_bits,
        }
    }
}

/// The topic under which every event is published.
pub fn event_topic() -> (topic: &'static str)
    ensures
        topic@ == "process-updated"@,
{
    "process-updated"
}

} // verus!

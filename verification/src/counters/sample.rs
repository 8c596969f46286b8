//! Turning `EventCounters` events into counter samples.
//!
//! Display names and units come off the wire rather than from a hardcoded table: the runtime
//! sends them in every payload.
use vstd::prelude::*;
use vstd::slice::slice_subrange;

use crate::nettrace::blocks::{EventModel, RawEvent};
use crate::nettrace::metadata::{EventMetadata, MetadataModel};
use crate::nettrace::payload::{decode_flat, flat, lookup, Entries, FlatPayload, Number, ValueModel};
use crate::nettrace::reader::{Fault, Result};
use crate::ipc::commands::text_view;
use crate::text::{before_first, chars_of, find_char, first_place, first_place_unique, same_text, text_of};

verus! {

/// The event name every EventCounter payload arrives under, regardless of provider.
pub const EVENT_COUNTERS: &'static str = "EventCounters";

#[derive(Debug, Clone, Copy, PartialEq, Eq, Structural)]
pub enum CounterKind {
    /// A gauge: `EventCounter` and `PollingCounter` report an average over the interval.
    Mean,
    /// A rate: `IncrementingEventCounter` and `IncrementingPollingCounter` report an increment
    /// per `rate_time_scale`.
    Rate,
}

#[derive(Debug, Clone)]
pub struct CounterSample {
    pub provider: String,
    pub name: String,
    pub display_name: String,
    pub display_units: String,
    pub value: Number,
    pub kind: CounterKind,
    /// The interval the reading covers, in seconds; zero if the runtime does not say.
    pub interval_sec: Number,
    /// For rate counters: the window the increment covers, e.g. "00:00:01" or "00:01:00".
    /// The GC collection counters use a minute here while everything else uses a second.
    pub rate_time_scale: Option<String>,
    /// QPC timestamp from the event header.
    pub timestamp: u64,
}

/// A [`CounterSample`] over sequences.
pub struct SampleModel {
    pub provider: Seq<char>,
    pub name: Seq<char>,
    pub display_name: Seq<char>,
    pub display_units: Seq<char>,
    pub value: Number,
    pub kind: CounterKind,
    pub interval_sec: Number,
    pub rate_time_scale: Option<Seq<char>>,
    pub timestamp: u64,
}

impl View for CounterSample {
    type V = SampleModel;

    open spec fn view(&self) -> SampleModel {
        SampleModel {
            provider: self.provider@,
            name: self.name@,
            display_name: self.display_name@,
            display_units: self.display_units@,
            value: self.value,
            kind: self.kind,
            interval_sec: self.interval_sec,
            rate_time_scale: text_view(self.rate_time_scale),
            timestamp: self.timestamp,
        }
    }
}

impl SampleModel {
    /// The label a counter goes by.
    pub open spec fn label(self) -> Seq<char> {
        if self.display_name.len() == 0 {
            self.name
        } else {
            self.display_name
        }
    }

    /// The units a counter is shown in.
    pub open spec fn units(self) -> Seq<char> {
        if self.display_units.len() > 0 {
            self.display_units
        } else if self.kind == CounterKind::Rate {
            "count"@
        } else {
            ""@
        }
    }

    /// The hours, minutes and seconds of a rate's window, as they are spelled.
    pub open spec fn rate_parts(self) -> Option<(Seq<char>, Seq<char>, Seq<char>)> {
        if self.kind != CounterKind::Rate {
            None
        } else {
            match self.rate_time_scale {
                None => None,
                Some(scale) => time_parts(scale),
            }
        }
    }
}

/// The first three parts of a text that colons separate.
pub open spec fn time_parts(scale: Seq<char>) -> Option<(Seq<char>, Seq<char>, Seq<char>)> {
    let first = first_place(scale, ':');
    if first == scale.len() {
        None
    } else {
        let rest = scale.skip(first + 1);
        let second = first_place(rest, ':');
        if second == rest.len() {
            None
        } else {
            Some(
                (
                    before_first(scale, ':'),
                    before_first(rest, ':'),
                    before_first(rest.skip(second + 1), ':'),
                ),
            )
        }
    }
}

/// The hours, minutes and seconds of a time span, as they are spelled.
#[derive(Debug, Clone)]
pub struct TimeParts {
    pub hours: String,
    pub minutes: String,
    pub seconds: String,
}

fn split_time(scale: &str) -> (parts: Option<TimeParts>)
    ensures
        match (parts, time_parts(scale@)) {
            (Some(p), Some((h, m, s))) => p.hours@ == h && p.minutes@ == m && p.seconds@ == s,
            (None, None) => true,
            _ => false,
        },
{
    let chars = chars_of(scale);
    let all = chars.as_slice();
    let first: usize = find_char(all, ':');
    if first == all.len() {
        return None;
    }
    let hours = slice_subrange(all, 0, first);
    let rest = slice_subrange(all, first + 1, all.len());
    assert(hours@ =~= before_first(scale@, ':'));
    assert(rest@ =~= scale@.skip(first + 1));
    let second: usize = find_char(rest, ':');
    if second == rest.len() {
        return None;
    }
    let minutes = slice_subrange(rest, 0, second);
    let last = slice_subrange(rest, second + 1, rest.len());
    assert(minutes@ =~= before_first(rest@, ':'));
    assert(last@ =~= rest@.skip(second + 1));
    let seconds = slice_subrange(last, 0, find_char(last, ':'));
    assert(seconds@ =~= before_first(last@, ':'));
    Some(
        TimeParts { hours: text_of(hours), minutes: text_of(minutes), seconds: text_of(seconds) },
    )
}

impl CounterSample {
    /// Label for display, falling back to the counter's raw name when the runtime sends none.
    pub fn label(&self) -> (s: &str)
        ensures
            s@ == self@.label(),
    {
        if self.display_name.as_str().is_empty() {
            self.name.as_str()
        } else {
            self.display_name.as_str()
        }
    }

    /// Units for display. Rate counters with no declared units are counts.
    pub fn units(&self) -> (s: &str)
        ensures
            s@ == self@.units(),
    {
        if !self.display_units.as_str().is_empty() {
            self.display_units.as_str()
        } else if self.kind == CounterKind::Rate {
            "count"
        } else {
            ""
        }
    }

    /// The window this counter's rate is expressed over, for rate counters: the hours, minutes and
    /// seconds of a .NET `TimeSpan` in "c" format ("00:01:00"). Returns `None` for gauges.
    pub fn rate_parts(&self) -> (parts: Option<TimeParts>)
        ensures
            match (parts, self@.rate_parts()) {
                (Some(p), Some((h, m, s))) => p.hours@ == h && p.minutes@ == m && p.seconds@ == s,
                (None, None) => true,
                _ => false,
            },
    {
        if self.kind != CounterKind::Rate {
            return None;
        }
        match &self.rate_time_scale {
            None => None,
            Some(scale) => split_time(scale.as_str()),
        }
    }
}

// ---------------------------------------------------------------------------------------------
// Extraction

/// The text under a name, or nothing where there is none.
pub open spec fn text_field(fields: Entries, key: Seq<char>) -> Seq<char> {
    match lookup(fields, key) {
        Some(ValueModel::Text(s)) => s,
        _ => Seq::empty(),
    }
}

/// The number under a name.
pub open spec fn number_field(fields: Entries, key: Seq<char>) -> Option<Number> {
    match lookup(fields, key) {
        Some(ValueModel::Number(n)) => Some(n),
        _ => None,
    }
}

/// The kind of a counter and its reading: "Mean" reads the mean, "Sum" reads the increment and is
/// a rate. Any other type would mean reporting the wrong field.
pub open spec fn reading_of(fields: Entries) -> Option<(CounterKind, Number)> {
    let counter_type = text_field(fields, "CounterType"@);
    if counter_type == "Mean"@ {
        match number_field(fields, "Mean"@) {
            Some(n) => Some((CounterKind::Mean, n)),
            None => None,
        }
    } else if counter_type == "Sum"@ {
        match number_field(fields, "Increment"@) {
            Some(n) => Some((CounterKind::Rate, n)),
            None => None,
        }
    } else {
        None
    }
}

/// The sample in a decoded counter payload.
pub open spec fn sample_of(
    provider: Seq<char>,
    fields: Entries,
    timestamp: u64,
) -> Option<SampleModel> {
    match reading_of(fields) {
        None => None,
        Some((kind, value)) => {
            let name = text_field(fields, "Name"@);
            let scale = text_field(fields, "DisplayRateTimeScale"@);
            if name.len() == 0 {
                None
            } else {
                Some(
                    SampleModel {
                        provider,
                        name,
                        display_name: text_field(fields, "DisplayName"@),
                        display_units: text_field(fields, "DisplayUnits"@),
                        value,
                        kind,
                        interval_sec: match number_field(fields, "IntervalSec"@) {
                            Some(n) => n,
                            None => Number::Int(0),
                        },
                        rate_time_scale: if kind == CounterKind::Rate && scale.len() > 0 {
                            Some(scale)
                        } else {
                            None
                        },
                        timestamp,
                    },
                )
            }
        },
    }
}

/// The sample in an event, if it is a counter's.
pub open spec fn extracted(metadata: MetadataModel, event: EventModel) -> core::result::Result<
    Option<SampleModel>,
    Fault,
> {
    if metadata.event_name != EVENT_COUNTERS@ {
        Ok(None)
    } else {
        match flat(metadata.fields, event.payload) {
            Err(f) => Err(f),
            Ok(fields) => Ok(sample_of(metadata.provider_name, fields, event.timestamp)),
        }
    }
}

fn string_field(fields: &FlatPayload, key: &str) -> (s: String)
    requires
        fields.wf(),
    ensures
        s@ == text_field(fields@, key@),
{
    match fields.get(key) {
        Some(value) => match value.as_str() {
            Some(s) => s.to_owned(),
            None => String::new(),
        },
        None => String::new(),
    }
}

fn read_number(fields: &FlatPayload, key: &str) -> (n: Option<Number>)
    requires
        fields.wf(),
    ensures
        n == number_field(fields@, key@),
{
    match fields.get(key) {
        Some(value) => value.as_number(),
        None => None,
    }
}

fn read_reading(fields: &FlatPayload) -> (reading: Option<(CounterKind, Number)>)
    requires
        fields.wf(),
    ensures
        reading == reading_of(fields@),
{
    let counter_type = string_field(fields, "CounterType");
    if same_text(counter_type.as_str(), "Mean") {
        match read_number(fields, "Mean") {
            Some(n) => Some((CounterKind::Mean, n)),
            None => None,
        }
    } else if same_text(counter_type.as_str(), "Sum") {
        match read_number(fields, "Increment") {
            Some(n) => Some((CounterKind::Rate, n)),
            None => None,
        }
    } else {
        None
    }
}

/// Extract a counter sample from an event, or `None` if the event is not an EventCounters payload.
///
/// A provider registers several distinct metadata ids all named `EventCounters`, one per counter
/// wrapper type, with different field lists, so this reads fields by name from the event's own
/// metadata rather than assuming a fixed shape.
pub fn extract(metadata: &EventMetadata, event: &RawEvent) -> (sample: Result<
    Option<CounterSample>,
>)
    ensures
        match (sample, extracted(metadata@, event@)) {
            (Ok(Some(s)), Ok(Some(m))) => s@ == m,
            (Ok(None), Ok(None)) => true,
            (Err(e), Err(f)) => e@ == f,
            _ => false,
        },
{
    if !same_text(metadata.event_name.as_str(), EVENT_COUNTERS) {
        return Ok(None);
    }
    let fields = decode_flat(metadata.fields.as_slice(), event.payload.as_slice())?;
    let (kind, value) = match read_reading(&fields) {
        Some(reading) => reading,
        None => {
            return Ok(None);
        },
    };
    let name = string_field(&fields, "Name");
    if name.as_str().is_empty() {
        return Ok(None);
    }
    let rate_time_scale = match kind {
        CounterKind::Rate => {
            let scale = string_field(&fields, "DisplayRateTimeScale");
            if scale.as_str().is_empty() {
                None
            } else {
                Some(scale)
            }
        },
        CounterKind::Mean => None,
    };
    let interval_sec = match read_number(&fields, "IntervalSec") {
        Some(n) => n,
        None => Number::Int(0),
    };
    Ok(
        Some(
            CounterSample {
                provider: metadata.provider_name.clone(),
                name,
                display_name: string_field(&fields, "DisplayName"),
                display_units: string_field(&fields, "DisplayUnits"),
                value,
                kind,
                interval_sec,
                rate_time_scale,
                timestamp: event.timestamp,
            },
        ),
    )
}

/// A window that is spelled as hours, minutes and seconds with colons between them has those parts,
/// whatever follows another colon. With fewer than two colons it has none.
pub proof fn windows_have_three_parts(
    hours: Seq<char>,
    minutes: Seq<char>,
    seconds: Seq<char>,
    more: Seq<char>,
)
    requires
        !hours.contains(':'),
        !minutes.contains(':'),
        !seconds.contains(':'),
        more.len() > 0 ==> more[0] == ':',
    ensures
        time_parts(hours + seq![':'] + minutes + seq![':'] + seconds + more) == Some(
            (hours, minutes, seconds),
        ),
        time_parts(hours + seq![':'] + minutes) is None,
        time_parts(hours) is None,
{
    let last = seconds + more;
    let rest = minutes + seq![':'] + last;
    let whole = hours + seq![':'] + minutes + seq![':'] + seconds + more;
    assert(whole =~= hours + seq![':'] + rest);
    stops_at_the_colon(hours, rest);
    stops_at_the_colon(minutes, last);
    assert(last.take(seconds.len() as int) =~= seconds);
    assert forall|i: int| 0 <= i < seconds.len() implies last[i] != ':' by {
        assert(seconds.contains(seconds[i]));
    }
    first_place_unique(last, ':', seconds.len() as int);
    assert(whole.skip((hours.len() + 1) as int) =~= rest);
    assert(rest.skip((minutes.len() + 1) as int) =~= last);
    stops_at_the_colon(hours, minutes);
    assert((hours + seq![':'] + minutes).skip((hours.len() + 1) as int) =~= minutes);
    has_no_colon(minutes);
    has_no_colon(hours);
}

proof fn has_no_colon(s: Seq<char>)
    requires
        !s.contains(':'),
    ensures
        first_place(s, ':') == s.len(),
{
    assert forall|i: int| 0 <= i < s.len() implies s[i] != ':' by {
        assert(s.contains(s[i]));
    }
    first_place_unique(s, ':', s.len() as int);
}

proof fn stops_at_the_colon(front: Seq<char>, rest: Seq<char>)
    requires
        !front.contains(':'),
    ensures
        first_place(front + seq![':'] + rest, ':') == front.len(),
        before_first(front + seq![':'] + rest, ':') == front,
{
    let all = front + seq![':'] + rest;
    assert forall|i: int| 0 <= i < front.len() implies all[i] != ':' by {
        assert(front.contains(front[i]));
    }
    first_place_unique(all, ':', front.len() as int);
    assert(all.take(front.len() as int) =~= front);
}

/// A gauge has no window, whatever it says, and a rate has the one that it says.
pub proof fn only_rates_have_windows(s: SampleModel)
    ensures
        s.kind == CounterKind::Mean ==> s.rate_parts() is None,
        s.rate_time_scale is None ==> s.rate_parts() is None,
        s.kind == CounterKind::Rate && s.rate_time_scale is Some ==> s.rate_parts() == time_parts(
            s.rate_time_scale->0,
        ),
{
}

/// A counter goes by the name that it is to be shown under, and by its own name where there is
/// none. Its units are those it gives; a rate that gives none is in counts, and a gauge in nothing.
pub proof fn counters_are_labelled(s: SampleModel)
    ensures
        s.display_name.len() > 0 ==> s.label() == s.display_name,
        s.display_name.len() == 0 ==> s.label() == s.name,
        s.display_units.len() > 0 ==> s.units() == s.display_units,
        s.display_units.len() == 0 && s.kind == CounterKind::Rate ==> s.units() == "count"@,
        s.display_units.len() == 0 && s.kind == CounterKind::Mean ==> s.units().len() == 0,
{
    reveal_strlit("");
}

/// A counter of the type "Mean" reads the number under "Mean" and is a gauge. One of the type "Sum"
/// reads the number under "Increment" and is a rate, with the window under "DisplayRateTimeScale"
/// unless that is empty. Its names and units are the texts under their own keys, nothing where
/// there are none. A payload without a name, of any other type, or without the number that its type
/// asks for, is no sample.
pub proof fn readings_are_found_by_name(provider: Seq<char>, fields: Entries, timestamp: u64)
    ensures
        ({
            let read = sample_of(provider, fields, timestamp);
            let kind = lookup(fields, "CounterType"@);
            let is_gauge = kind == Some(ValueModel::Text("Mean"@));
            let is_rate = kind == Some(ValueModel::Text("Sum"@));
            let name = lookup(fields, "Name"@);
            let mean = lookup(fields, "Mean"@);
            let increment = lookup(fields, "Increment"@);
            let window = lookup(fields, "DisplayRateTimeScale"@);
            let interval = lookup(fields, "IntervalSec"@);
            let shown = lookup(fields, "DisplayName"@);
            let units = lookup(fields, "DisplayUnits"@);
            let named = name is Some && name->0 is Text && name->0->Text_0.len() > 0;
            &&& read is Some <==> named && (is_gauge && mean is Some && mean->0 is Number || is_rate
                && increment is Some && increment->0 is Number)
            &&& read is Some ==> {
                let s = read->0;
                &&& s.provider == provider
                &&& s.timestamp == timestamp
                &&& s.name == name->0->Text_0
                &&& is_gauge ==> s.kind == CounterKind::Mean && s.value == mean->0->Number_0
                    && s.rate_time_scale is None
                &&& is_rate ==> s.kind == CounterKind::Rate && s.value == increment->0->Number_0
                &&& is_rate && window is Some && window->0 is Text && window->0->Text_0.len() > 0
                    ==> s.rate_time_scale == Some(window->0->Text_0)
                &&& is_rate && (window is None || !(window->0 is Text)
                    || window->0->Text_0.len() == 0) ==> s.rate_time_scale is None
                &&& shown is Some && shown->0 is Text ==> s.display_name == shown->0->Text_0
                &&& shown is None || !(shown->0 is Text) ==> s.display_name.len() == 0
                &&& units is Some && units->0 is Text ==> s.display_units == units->0->Text_0
                &&& units is None || !(units->0 is Text) ==> s.display_units.len() == 0
                &&& interval is Some && interval->0 is Number ==> s.interval_sec
                    == interval->0->Number_0
                &&& interval is None || !(interval->0 is Number) ==> s.interval_sec == Number::Int(
                    0,
                )
            }
        }),
{
    reveal_strlit("Mean");
    reveal_strlit("Sum");
    assert("Mean"@.len() == 4 && "Sum"@.len() == 3);
}

/// Only events that go by the name of counters are samples. Such an event's sample is that of its
/// payload, read as its own metadata says, for the provider that its metadata names.
pub proof fn counters_go_by_their_event(metadata: MetadataModel, event: EventModel)
    ensures
        metadata.event_name != "EventCounters"@ ==> extracted(metadata, event) == Ok::<_, Fault>(
            None::<SampleModel>,
        ),
        metadata.event_name == "EventCounters"@ ==> match flat(metadata.fields, event.payload) {
            Ok(fields) => extracted(metadata, event) == Ok::<_, Fault>(
                sample_of(metadata.provider_name, fields, event.timestamp),
            ),
            Err(f) => extracted(metadata, event) == Err::<Option<SampleModel>, _>(f),
        },
{
}

} // verus!

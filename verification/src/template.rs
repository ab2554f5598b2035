//! Templates: texts in which placeholders stand for parts of the current path
//! and for the current date and time.

use crate::paths::{
    extension, extension_of, file_name, file_stem, name_of, parent, parent_of, stem_of,
};
use crate::text::{replace, replaced};
use std::fmt::Write;
use vstd::prelude::*;
use vstd::string::*;

verus! {

/// The layout of `{date}`.
pub open spec fn date_layout() -> Seq<char> {
    "%Y-%m-%d"@
}

/// The layout of `{time}`.
pub open spec fn time_layout() -> Seq<char> {
    "%H:%M:%S"@
}

/// The layout of `{datetime}`.
pub open spec fn datetime_layout() -> Seq<char> {
    "%Y-%m-%d_%H:%M:%S"@
}

/// What `chrono::DateTime::from_timestamp` and `format` make of the instant
/// `secs` seconds and `nanos` nanoseconds after the start of 1970, in UTC,
/// and of `layout`: the instant written out in the layout.  There is no such
/// text where the instant is beyond the dates that chrono holds, or where
/// the layout cannot be written.
pub uninterp spec fn utc_text(secs: i64, nanos: u32, layout: Seq<char>) -> Option<Seq<char>>;

/// Reads the clock of the host with `std::time::SystemTime::now` and measures
/// it from the start of 1970 with `duration_since`: seconds and nanoseconds.
/// Nothing is claimed of the reading, which changes with the clock; there is
/// none where the clock stands before 1970 or the seconds do not fit.
#[verifier::external_body]
fn clock_reading() -> (reading: Option<(i64, u32)>) {
    match std::time::SystemTime::now().duration_since(std::time::UNIX_EPOCH) {
        Ok(since) => match i64::try_from(since.as_secs()) {
            Ok(secs) => Some((secs, since.subsec_nanos())),
            Err(_) => None,
        },
        Err(_) => None,
    }
}

/// Makes the instant with `chrono::DateTime::from_timestamp` and writes it
/// out with `format` in `layout`.  Neither call unwinds: an instant that
/// chrono does not hold gives no instant, and a layout that cannot be written
/// gives an error, which is read here.  Not proved: that the text is
/// `utc_text`, which is a name for just this text.
#[verifier::external_body]
fn utc_text_of(secs: i64, nanos: u32, layout: &str) -> (r: Option<String>)
    ensures
        match r {
            Some(text) => utc_text(secs, nanos, layout@) == Some(text@),
            None => utc_text(secs, nanos, layout@) is None,
        },
{
    match chrono::DateTime::from_timestamp(secs, nanos) {
        Some(instant) => {
            let mut text = String::new();
            match write!(text, "{}", instant.format(layout)) {
                Ok(()) => Some(text),
                Err(_) => None,
            }
        },
        None => None,
    }
}

/// `reading` is what the clock of the host showed when it was read.
pub closed spec fn clock_showed(reading: Option<(i64, u32)>) -> bool {
    call_ensures(clock_reading, (), reading)
}

/// The text for a reading of the clock in `layout`: the instant written out;
/// nothing where the clock could not be read or the instant cannot be
/// written.
pub open spec fn stamp(reading: Option<(i64, u32)>, layout: Seq<char>) -> Seq<char> {
    match reading {
        Some((secs, nanos)) => or_empty(utc_text(secs, nanos, layout)),
        None => Seq::empty(),
    }
}

/// The text for a reading of the clock in `layout`.
pub fn stamp_of(reading: Option<(i64, u32)>, layout: &str) -> (text: String)
    ensures
        text@ == stamp(reading, layout@),
{
    match reading {
        Some((secs, nanos)) => match utc_text_of(secs, nanos, layout) {
            Some(text) => text,
            None => String::new(),
        },
        None => String::new(),
    }
}

/// The date and time that a rendering uses, as text.
#[derive(Debug, Clone)]
pub struct Stamps {
    /// The date, as `YYYY-MM-DD`.
    pub date: String,
    /// The time, as `HH:MM:SS`.
    pub time: String,
    /// Both, as `YYYY-MM-DD_HH:MM:SS`.
    pub datetime: String,
}

impl Stamps {
    /// The texts are those of three readings of the clock: `both` for the
    /// date and time together, `day` for the date, `hour` for the time.
    pub open spec fn shows(
        &self,
        both: Option<(i64, u32)>,
        day: Option<(i64, u32)>,
        hour: Option<(i64, u32)>,
    ) -> bool {
        &&& self.datetime@ == stamp(both, datetime_layout())
        &&& self.date@ == stamp(day, date_layout())
        &&& self.time@ == stamp(hour, time_layout())
    }

    /// The texts are those of three readings that the clock of the host
    /// showed.
    pub open spec fn from_clock(&self) -> bool {
        exists|both: Option<(i64, u32)>, day: Option<(i64, u32)>, hour: Option<(i64, u32)>|
            {
                &&& clock_showed(both)
                &&& clock_showed(day)
                &&& clock_showed(hour)
                &&& #[trigger] self.shows(both, day, hour)
            }
    }

    /// The date and time of one reading of the clock, in the three layouts.
    /// Where there is no reading, or chrono does not hold the instant, the
    /// texts are empty.
    pub fn at(reading: Option<(i64, u32)>) -> (r: Stamps)
        ensures
            r.shows(reading, reading, reading),
    {
        let datetime = stamp_of(reading, "%Y-%m-%d_%H:%M:%S");
        let date = stamp_of(reading, "%Y-%m-%d");
        let time = stamp_of(reading, "%H:%M:%S");
        Stamps { date, time, datetime }
    }

    /// Reads the clock, once for each text, and writes each reading out in
    /// its layout: the UTC date and time together, the date, the time.  A
    /// text is empty where the clock could not be read.
    pub fn now() -> (r: Stamps)
        ensures
            r.from_clock(),
    {
        let both = clock_reading();
        let datetime = stamp_of(both, "%Y-%m-%d_%H:%M:%S");
        let day = clock_reading();
        let date = stamp_of(day, "%Y-%m-%d");
        let hour = clock_reading();
        let time = stamp_of(hour, "%H:%M:%S");
        let r = Stamps { date, time, datetime };
        assert(clock_showed(both) && clock_showed(day) && clock_showed(hour) && r.shows(
            both,
            day,
            hour,
        ));
        r
    }
}

/// The text of a part of a path; a part that is missing reads as nothing.
pub open spec fn or_empty(part: Option<Seq<char>>) -> Seq<char> {
    match part {
        Some(text) => text,
        None => Seq::empty(),
    }
}

/// `value` with its placeholders replaced, one kind after the other:
/// `{datetime}`, `{date}`, `{time}`, `{filename}`, `{name}`, `{ext}`,
/// `{parent}`, `{path}`.
pub open spec fn rendered(value: Seq<char>, path: Seq<char>, stamps: Stamps) -> Seq<char> {
    let a = replaced(value, "{datetime}"@, stamps.datetime@);
    let b = replaced(a, "{date}"@, stamps.date@);
    let c = replaced(b, "{time}"@, stamps.time@);
    let d = replaced(c, "{filename}"@, or_empty(name_of(path)));
    let e = replaced(d, "{name}"@, or_empty(stem_of(path)));
    let f = replaced(e, "{ext}"@, or_empty(extension_of(path)));
    let g = replaced(f, "{parent}"@, or_empty(parent_of(path)));
    replaced(g, "{path}"@, path)
}

/// The text of an optional part of a path.
fn text_or_empty(part: Option<String>) -> (r: String)
    ensures
        r@ == or_empty(
            match part {
                Some(text) => Some(text@),
                None => None,
            },
        ),
{
    match part {
        Some(text) => text,
        None => String::new(),
    }
}

/// A text with placeholders.
#[derive(Debug, Clone)]
pub struct Template {
    pub value: String,
}

impl Template {
    /// The template that reads `value`.
    pub fn new(value: String) -> (r: Self)
        ensures
            r.value == value,
    {
        Template { value }
    }

    /// The template filled in for `path`, with the given date and time.
    pub fn render_at(&self, path: &str, stamps: &Stamps) -> (r: String)
        ensures
            r@ == rendered(self.value@, path@, *stamps),
    {
        let filename = text_or_empty(file_name(path));
        let name = text_or_empty(file_stem(path));
        let ext = text_or_empty(extension(path));
        let dir = text_or_empty(parent(path));
        let a = replace(self.value.as_str(), "{datetime}", stamps.datetime.as_str());
        let b = replace(a.as_str(), "{date}", stamps.date.as_str());
        let c = replace(b.as_str(), "{time}", stamps.time.as_str());
        let d = replace(c.as_str(), "{filename}", filename.as_str());
        let e = replace(d.as_str(), "{name}", name.as_str());
        let f = replace(e.as_str(), "{ext}", ext.as_str());
        let g = replace(f.as_str(), "{parent}", dir.as_str());
        replace(g.as_str(), "{path}", path)
    }

    /// The template filled in for `path`, with the date and time that the
    /// clock shows during the call.
    pub fn render(&self, path: &str) -> (r: String)
        ensures
            exists|stamps: Stamps|
                stamps.from_clock() && r@ == #[trigger] rendered(self.value@, path@, stamps),
    {
        let stamps = Stamps::now();
        let r = self.render_at(path, &stamps);
        assert(stamps.from_clock() && r@ == rendered(self.value@, path@, stamps));
        r
    }
}

} // verus!

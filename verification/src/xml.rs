//! XML elements written with `quick-xml`, and RFC 2822 dates written with
//! `chrono`, for the feed and the sitemap.

use crate::date::{decimal, is_calendar_date, padded, Date};
use chrono::{NaiveDate, NaiveTime};
use quick_xml::events::{BytesEnd, BytesStart, BytesText, Event};
use quick_xml::Writer;
use vstd::prelude::*;

verus! {

/// What `quick_xml::escape::escape` writes for the character `c`: one of
/// six entities, or `c` itself.
pub open spec fn xml_char_escape(c: char) -> Seq<char> {
    if c == '<' {
        "&lt;"@
    } else if c == '>' {
        "&gt;"@
    } else if c == '&' {
        "&amp;"@
    } else if c == '\'' {
        "&apos;"@
    } else if c == '"' {
        "&quot;"@
    } else if c == '\r' {
        "&#13;"@
    } else {
        seq![c]
    }
}

/// `s` with each character escaped as `quick_xml::escape::escape` does.
pub open spec fn xml_escaped(s: Seq<char>) -> Seq<char>
    decreases s.len(),
{
    if s.len() == 0 {
        Seq::empty()
    } else {
        xml_escaped(s.drop_last()) + xml_char_escape(s.last())
    }
}

/// What quick-xml writes for the character `c` of an attribute's value: as
/// in text, and also line feeds and tabs as character references.
pub open spec fn xml_attr_char_escape(c: char) -> Seq<char> {
    if c == '\n' {
        "&#10;"@
    } else if c == '\t' {
        "&#9;"@
    } else {
        xml_char_escape(c)
    }
}

/// `s` escaped as the value of an attribute.
pub open spec fn xml_attr_escaped(s: Seq<char>) -> Seq<char>
    decreases s.len(),
{
    if s.len() == 0 {
        Seq::empty()
    } else {
        xml_attr_escaped(s.drop_last()) + xml_attr_char_escape(s.last())
    }
}

/// The element `name` holding the text `text`, escaped.
pub open spec fn xml_text_element(name: Seq<char>, text: Seq<char>) -> Seq<char> {
    "<"@ + name + ">"@ + xml_escaped(text) + "</"@ + name + ">"@
}

/// The attribute written inside a start tag: a space, the key, `=` and the
/// escaped value in double quotes; nothing where there is none.
pub open spec fn xml_attr_text(attr: Option<(Seq<char>, Seq<char>)>) -> Seq<char> {
    match attr {
        Some((k, v)) => " "@ + k + "=\""@ + xml_attr_escaped(v) + "\""@,
        None => Seq::empty(),
    }
}

/// The element `name`, with at most one attribute, around the markup
/// `inner`, which is written as it is.
pub open spec fn xml_element(
    name: Seq<char>,
    attr: Option<(Seq<char>, Seq<char>)>,
    inner: Seq<char>,
) -> Seq<char> {
    "<"@ + name + xml_attr_text(attr) + ">"@ + inner + "</"@ + name + ">"@
}

/// The plain value of an attribute.
pub open spec fn attr_view(attr: Option<(&str, &str)>) -> Option<(Seq<char>, Seq<char>)> {
    match attr {
        Some((k, v)) => Some((k@, v@)),
        None => None,
    }
}

/// Writes the element `name` holding `text` with quick-xml's
/// `ElementWriter::write_text_content` and `BytesText::new` on a `Writer`
/// over a `Vec<u8>`, and reads the bytes back as text. Claimed, as
/// quick-xml's source shows: the start tag, the text escaped by
/// `quick_xml::escape::escape` (its table of six characters), and the end
/// tag, with no indentation. Writing into a `Vec` does not fail.
#[verifier::external_body]
pub(crate) fn text_element(name: &str, text: &str) -> (r: String)
    ensures
        r@ == xml_text_element(name@, text@),
{
    let mut writer = Writer::new(Vec::new());
    let _ = writer.create_element(name).write_text_content(BytesText::new(text));
    String::from_utf8_lossy(&writer.into_inner()).into_owned()
}

/// Writes the element `name` around the markup `inner` with quick-xml's
/// `Writer::write_event`: a `BytesStart` with the attribute `attr`, if
/// any, a `BytesText::from_escaped` of `inner`, and a `BytesEnd`. Claimed,
/// as quick-xml's source shows: the start tag with the attribute's value
/// escaped (the characters of `escape`, line feeds and tabs), `inner`
/// unchanged, and the end tag. Writing into a `Vec` does not fail.
#[verifier::external_body]
pub(crate) fn element(name: &str, attr: Option<(&str, &str)>, inner: &str) -> (r: String)
    ensures
        r@ == xml_element(name@, attr_view(attr), inner@),
{
    let mut writer = Writer::new(Vec::new());
    let _ = writer.write_event(Event::Start(BytesStart::new(name).with_attributes(attr)));
    let _ = writer.write_event(Event::Text(BytesText::from_escaped(inner)));
    let _ = writer.write_event(Event::End(BytesEnd::new(name)));
    String::from_utf8_lossy(&writer.into_inner()).into_owned()
}

/// The day of the week of a date of the proleptic Gregorian calendar, as
/// days since Sunday.
pub open spec fn weekday_of(year: int, month: int, day: int) -> int {
    let shift: int = if month == 1 {
        0
    } else if month == 2 {
        3
    } else if month == 3 {
        2
    } else if month == 4 {
        5
    } else if month == 5 {
        0
    } else if month == 6 {
        3
    } else if month == 7 {
        5
    } else if month == 8 {
        1
    } else if month == 9 {
        4
    } else if month == 10 {
        6
    } else if month == 11 {
        2
    } else {
        4
    };
    let y = if month < 3 {
        year - 1
    } else {
        year
    };
    (y + y / 4 - y / 100 + y / 400 + shift + day) % 7
}

/// The English abbreviation of the day `w` days after Sunday.
pub open spec fn weekday_name(w: int) -> Seq<char> {
    if w == 0 {
        "Sun"@
    } else if w == 1 {
        "Mon"@
    } else if w == 2 {
        "Tue"@
    } else if w == 3 {
        "Wed"@
    } else if w == 4 {
        "Thu"@
    } else if w == 5 {
        "Fri"@
    } else {
        "Sat"@
    }
}

/// The English abbreviation of `month`.
pub open spec fn month_name(month: int) -> Seq<char> {
    if month == 1 {
        "Jan"@
    } else if month == 2 {
        "Feb"@
    } else if month == 3 {
        "Mar"@
    } else if month == 4 {
        "Apr"@
    } else if month == 5 {
        "May"@
    } else if month == 6 {
        "Jun"@
    } else if month == 7 {
        "Jul"@
    } else if month == 8 {
        "Aug"@
    } else if month == 9 {
        "Sep"@
    } else if month == 10 {
        "Oct"@
    } else if month == 11 {
        "Nov"@
    } else {
        "Dec"@
    }
}

/// Midnight UTC at the start of this day as an RFC 2822 time, such as
/// `Tue, 5 May 2026 00:00:00 +0000`: the weekday, the day without padding,
/// the month, the year as four digits, the time and the offset; empty where
/// the fields name no day of the calendar.
pub open spec fn rfc2822_text(year: int, month: int, day: int) -> Seq<char> {
    if is_calendar_date(year, month, day) && year >= 0 {
        weekday_name(weekday_of(year, month, day)) + ", "@ + decimal(day as nat) + " "@
            + month_name(month) + " "@ + padded(year as nat, 4) + " 00:00:00 +0000"@
    } else {
        Seq::empty()
    }
}

/// Writes midnight UTC at the start of `date` with chrono's
/// `NaiveDate::from_ymd_opt`, `and_time(NaiveTime::MIN)`, `and_utc` and
/// `to_rfc2822`; empty where chrono knows no such day. Claimed, as chrono's
/// `write_rfc2822` shows with its English day and month names: the
/// weekday (chrono's calendar is the proleptic Gregorian one), the day
/// without padding, the month, the year as four digits, `00:00:00` and
/// the offset `+0000`. chrono panics on a negative year or one of more
/// than four digits, which `requires` leaves out.
#[verifier::external_body]
pub(crate) fn rfc2822(date: &Date) -> (r: String)
    requires
        0 <= date.year <= 9999,
    ensures
        r@ == rfc2822_text(date.year as int, date.month as int, date.day as int),
{
    match NaiveDate::from_ymd_opt(date.year, date.month, date.day) {
        Some(d) => d.and_time(NaiveTime::MIN).and_utc().to_rfc2822(),
        None => String::new(),
    }
}

} // verus!

//! Names of the files a recording or a screenshot is written to:
//! `capto-<stamp>-<id>.<ext>` and `capto-shot-<stamp>-<id>.png`, where the
//! stamp is the local time as `YYYYmmdd-HHMMSS` and the id the first eight
//! characters of a random UUID.

use vstd::prelude::*;
use crate::settings::{extension_of, output_extension, OutputFormat};
use crate::text::{chars_of, extend_range, extend_str, string_from};

verus! {

/// A lower-case hexadecimal digit.
pub open spec fn is_lower_hex(c: char) -> bool {
    ('0' <= c <= '9') || ('a' <= c <= 'f')
}

/// The local time as `YYYYmmdd-HHMMSS` (`chrono::Local::now` formatted);
/// it depends on the clock and the time zone, so nothing is stated of it.
#[verifier::external_body]
fn local_stamp() -> String {
    chrono::Local::now().format("%Y%m%d-%H%M%S").to_string()
}

/// A fresh random UUID in its hyphenated text form
/// (`uuid::Uuid::new_v4().to_string()`): 36 characters, the first eight
/// lower-case hexadecimal digits followed by a hyphen.
#[verifier::external_body]
fn random_uuid_text() -> (r: String)
    ensures
        r@.len() == 36,
        forall|i: int| 0 <= i < 8 ==> is_lower_hex(#[trigger] r@[i]),
        r@[8] == '-',
{
    uuid::Uuid::new_v4().to_string()
}

/// The name of a recording: `capto-<stamp>-<id>.<ext>`.
pub open spec fn recording_name(stamp: Seq<char>, id: Seq<char>, format: OutputFormat) -> Seq<char> {
    "capto-"@ + stamp + seq!['-'] + id + seq!['.'] + extension_of(format)
}

/// The name of a screenshot: `capto-shot-<stamp>-<id>.png`.
pub open spec fn screenshot_name(stamp: Seq<char>, id: Seq<char>) -> Seq<char> {
    "capto-shot-"@ + stamp + seq!['-'] + id + ".png"@
}

/// The name of a recording in `format`, stamped `stamp`, with id `id`.
pub fn recording_file_name(stamp: &str, id: &str, format: OutputFormat) -> (r: String)
    ensures
        r@ == recording_name(stamp@, id@, format),
{
    let mut out = chars_of("capto-");
    extend_str(&mut out, stamp);
    out.push('-');
    extend_str(&mut out, id);
    out.push('.');
    extend_str(&mut out, output_extension(format));
    proof {
        assert(out@ =~= recording_name(stamp@, id@, format));
    }
    string_from(out.as_slice())
}

/// The name of a screenshot stamped `stamp`, with id `id`.
pub fn screenshot_file_name(stamp: &str, id: &str) -> (r: String)
    ensures
        r@ == screenshot_name(stamp@, id@),
{
    let mut out = chars_of("capto-shot-");
    extend_str(&mut out, stamp);
    out.push('-');
    extend_str(&mut out, id);
    extend_str(&mut out, ".png");
    proof {
        assert(out@ =~= screenshot_name(stamp@, id@));
    }
    string_from(out.as_slice())
}

/// The first eight characters of a fresh random UUID: eight lower-case
/// hexadecimal digits.
pub fn short_random_id() -> (r: String)
    ensures
        r@.len() == 8,
        forall|i: int| 0 <= i < 8 ==> is_lower_hex(#[trigger] r@[i]),
{
    let full = random_uuid_text();
    let cs = chars_of(full.as_str());
    let mut out: Vec<char> = Vec::new();
    extend_range(&mut out, cs.as_slice(), 0, 8);
    proof {
        assert forall|i: int| 0 <= i < 8 implies is_lower_hex(#[trigger] out@[i]) by {
            assert(out@[i] == full@[i]);
        }
    }
    string_from(out.as_slice())
}

/// A fresh name for a recording in `format`.
pub fn new_recording_name(format: OutputFormat) -> (r: String)
    ensures
        exists|stamp: Seq<char>, id: Seq<char>|
            id.len() == 8 && (forall|i: int| 0 <= i < 8 ==> is_lower_hex(#[trigger] id[i])) && r@
                == recording_name(stamp, id, format),
{
    let stamp = local_stamp();
    let id = short_random_id();
    let r = recording_file_name(stamp.as_str(), id.as_str(), format);
    proof {
        assert(r@ == recording_name(stamp@, id@, format));
    }
    r
}

/// A fresh name for a screenshot.
pub fn new_screenshot_name() -> (r: String)
    ensures
        exists|stamp: Seq<char>, id: Seq<char>|
            id.len() == 8 && (forall|i: int| 0 <= i < 8 ==> is_lower_hex(#[trigger] id[i])) && r@
                == screenshot_name(stamp, id),
{
    let stamp = local_stamp();
    let id = short_random_id();
    let r = screenshot_file_name(stamp.as_str(), id.as_str());
    proof {
        assert(r@ == screenshot_name(stamp@, id@));
    }
    r
}

/// A crash report: which build panicked, where, when, and how.
#[derive(Debug)]
pub struct CrashReport {
    pub app: String,
    pub version: String,
    pub os: String,
    pub timestamp_ms: u64,
    pub subject: String,
    pub backtrace: String,
}

/// The name of a crash report written at `timestamp_ms`:
/// `crash-<ms>.json`.
pub open spec fn crash_report_name(timestamp_ms: u64) -> Seq<char> {
    "crash-"@ + crate::text::decimal(timestamp_ms as nat) + ".json"@
}

pub fn crash_file_name(timestamp_ms: u64) -> (r: String)
    ensures
        r@ == crash_report_name(timestamp_ms),
{
    let mut out = chars_of("crash-");
    crate::text::push_decimal(&mut out, timestamp_ms);
    extend_str(&mut out, ".json");
    proof {
        assert(out@ =~= crash_report_name(timestamp_ms));
    }
    string_from(out.as_slice())
}

} // verus!

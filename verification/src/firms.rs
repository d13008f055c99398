//! The fire-detection feed read by its header: each column found by name,
//! and what a detection's confidence and time come to.
//!
//! Numeric columns (coordinates, brightness, scan, track, radiative power)
//! are floating point in the feed and are handed on as their text.
use vstd::prelude::*;
use crate::feeds::{char_views, field_at, field_opt, field_or, field_text, parse_utc_seconds, parsed_utc_seconds};
use crate::text::{chars_eq, chars_of, concat_strs, lines_of, split_chars, split_on, str_eq, text_lines, trim_chars, trimmed};

verus! {

/// The first position in `headers` of a column named exactly `name`.
pub open spec fn column_exact(headers: Seq<Seq<char>>, name: Seq<char>) -> Option<usize> {
    if exists|i: int| 0 <= i < headers.len() && #[trigger] headers[i] == name {
        let i = choose|i: int| 0 <= i < headers.len() && #[trigger] headers[i] == name
            && forall|j: int| 0 <= j < i ==> headers[j] != name;
        Some(i as usize)
    } else {
        None
    }
}

/// Where the fire-detection CSV keeps each field, by the names in its header.
pub struct FireColumns {
    pub latitude: Option<usize>,
    pub longitude: Option<usize>,
    pub brightness: Option<usize>,
    pub scan: Option<usize>,
    pub track: Option<usize>,
    pub acq_date: Option<usize>,
    pub acq_time: Option<usize>,
    pub satellite: Option<usize>,
    pub confidence: Option<usize>,
    pub version: Option<usize>,
    pub bright_t31: Option<usize>,
    pub frp: Option<usize>,
    pub daynight: Option<usize>,
}

/// The columns a header line names (split at commas, not trimmed).
pub open spec fn fire_columns(header: Seq<char>) -> FireColumns {
    let hs = split_on(header, ',');
    FireColumns {
        latitude: column_exact(hs, "latitude"@),
        longitude: column_exact(hs, "longitude"@),
        brightness: column_exact(hs, "brightness"@),
        scan: column_exact(hs, "scan"@),
        track: column_exact(hs, "track"@),
        acq_date: column_exact(hs, "acq_date"@),
        acq_time: column_exact(hs, "acq_time"@),
        satellite: column_exact(hs, "satellite"@),
        confidence: column_exact(hs, "confidence"@),
        version: column_exact(hs, "version"@),
        bright_t31: column_exact(hs, "bright_t31"@),
        frp: column_exact(hs, "frp"@),
        daynight: column_exact(hs, "daynight"@),
    }
}

fn find_exact(headers: &Vec<Vec<char>>, name: &str) -> (r: Option<usize>)
    ensures
        r == column_exact(char_views(headers@), name@),
{
    let ghost hs = char_views(headers@);
    let n = chars_of(name);
    let mut i: usize = 0;
    while i < headers.len()
        invariant
            i <= headers@.len(),
            hs == char_views(headers@),
            n@ == name@,
            forall|j: int| 0 <= j < i ==> #[trigger] hs[j] != name@,
        decreases headers.len() - i,
    {
        assert(hs[i as int] == headers@[i as int]@);
        if chars_eq(&headers[i], &n) {
            proof {
                let c = choose|k: int| 0 <= k < hs.len() && #[trigger] hs[k] == name@
                    && forall|j: int| 0 <= j < k ==> hs[j] != name@;
                assert(hs[i as int] == name@);
                if c < i {
                    assert(hs[c] != name@);
                } else if c > i {
                    assert(hs[i as int] != name@);
                }
            }
            return Some(i);
        }
        i = i + 1;
    }
    None
}

/// One detection: its numeric fields as text where the line has them, and
/// its text fields, with `Unknown` for a missing satellite, `n` for a missing
/// confidence, `D` for a missing day/night flag, and empty otherwise.
pub struct FirmsFire {
    pub latitude: Option<String>,
    pub longitude: Option<String>,
    pub brightness: Option<String>,
    pub scan: Option<String>,
    pub track: Option<String>,
    pub acq_date: String,
    pub acq_time: String,
    pub satellite: String,
    pub confidence: String,
    pub version: String,
    pub bright_t31: Option<String>,
    pub frp: Option<String>,
    pub daynight: String,
}

/// A detection as plain values.
pub struct FireView {
    pub latitude: Option<Seq<char>>,
    pub longitude: Option<Seq<char>>,
    pub brightness: Option<Seq<char>>,
    pub scan: Option<Seq<char>>,
    pub track: Option<Seq<char>>,
    pub acq_date: Seq<char>,
    pub acq_time: Seq<char>,
    pub satellite: Seq<char>,
    pub confidence: Seq<char>,
    pub version: Seq<char>,
    pub bright_t31: Option<Seq<char>>,
    pub frp: Option<Seq<char>>,
    pub daynight: Seq<char>,
}

/// The view of an optional text.
pub open spec fn opt_view(s: Option<String>) -> Option<Seq<char>> {
    match s {
        Some(t) => Some(t@),
        None => None,
    }
}

/// The view of a detection.
pub open spec fn fire_view(f: FirmsFire) -> FireView {
    FireView {
        latitude: opt_view(f.latitude),
        longitude: opt_view(f.longitude),
        brightness: opt_view(f.brightness),
        scan: opt_view(f.scan),
        track: opt_view(f.track),
        acq_date: f.acq_date@,
        acq_time: f.acq_time@,
        satellite: f.satellite@,
        confidence: f.confidence@,
        version: f.version@,
        bright_t31: opt_view(f.bright_t31),
        frp: opt_view(f.frp),
        daynight: f.daynight@,
    }
}

/// What a data line gives under the columns `c`: nothing for a blank line or
/// one with fewer than ten fields; else its fields by column.
pub open spec fn fire_line(c: FireColumns, line: Seq<char>) -> Option<FireView> {
    let f = split_on(line, ',');
    if trimmed(line).len() == 0 || f.len() < 10 {
        None
    } else {
        Some(FireView {
            latitude: field_at(f, c.latitude),
            longitude: field_at(f, c.longitude),
            brightness: field_at(f, c.brightness),
            scan: field_at(f, c.scan),
            track: field_at(f, c.track),
            acq_date: field_or(f, c.acq_date, ""@),
            acq_time: field_or(f, c.acq_time, ""@),
            satellite: field_or(f, c.satellite, "Unknown"@),
            confidence: field_or(f, c.confidence, "n"@),
            version: field_or(f, c.version, ""@),
            bright_t31: field_at(f, c.bright_t31),
            frp: field_at(f, c.frp),
            daynight: field_or(f, c.daynight, "D"@),
        })
    }
}

/// The detections of the data lines `lines[1..n]` under the columns `c`.
pub open spec fn fire_rows(c: FireColumns, lines: Seq<Seq<char>>, n: int) -> Seq<FireView>
    decreases n,
{
    if n <= 1 {
        Seq::empty()
    } else {
        let rest = fire_rows(c, lines, n - 1);
        match fire_line(c, lines[n - 1]) {
            Some(r) => rest.push(r),
            None => rest,
        }
    }
}

fn columns_of(header: &Vec<char>) -> (c: FireColumns)
    ensures
        c == fire_columns(header@),
{
    let hs = split_chars(header, ',');
    proof {
        assert(char_views(hs@) =~= split_on(header@, ','));
    }
    FireColumns {
        latitude: find_exact(&hs, "latitude"),
        longitude: find_exact(&hs, "longitude"),
        brightness: find_exact(&hs, "brightness"),
        scan: find_exact(&hs, "scan"),
        track: find_exact(&hs, "track"),
        acq_date: find_exact(&hs, "acq_date"),
        acq_time: find_exact(&hs, "acq_time"),
        satellite: find_exact(&hs, "satellite"),
        confidence: find_exact(&hs, "confidence"),
        version: find_exact(&hs, "version"),
        bright_t31: find_exact(&hs, "bright_t31"),
        frp: find_exact(&hs, "frp"),
        daynight: find_exact(&hs, "daynight"),
    }
}

fn fire_of(c: &FireColumns, line: &Vec<char>) -> (r: Option<FirmsFire>)
    ensures
        match r {
            Some(f) => fire_line(*c, line@) == Some(fire_view(f)),
            None => fire_line(*c, line@) is None,
        },
{
    let t = trim_chars(line);
    let f = split_chars(line, ',');
    proof {
        assert(char_views(f@) =~= split_on(line@, ','));
    }
    if t.len() == 0 || f.len() < 10 {
        return None;
    }
    let fire = FirmsFire {
        latitude: field_opt(&f, c.latitude),
        longitude: field_opt(&f, c.longitude),
        brightness: field_opt(&f, c.brightness),
        scan: field_opt(&f, c.scan),
        track: field_opt(&f, c.track),
        acq_date: field_text(&f, c.acq_date, ""),
        acq_time: field_text(&f, c.acq_time, ""),
        satellite: field_text(&f, c.satellite, "Unknown"),
        confidence: field_text(&f, c.confidence, "n"),
        version: field_text(&f, c.version, ""),
        bright_t31: field_opt(&f, c.bright_t31),
        frp: field_opt(&f, c.frp),
        daynight: field_text(&f, c.daynight, "D"),
    };
    Some(fire)
}

/// The fire-detection source that reads the feed by its header.
pub struct NasaFirmsSource {
    pub api_key: String,
}

/// What a detection's confidence counts for: 90 for `h` or `high`, 60 for
/// `n` or `nominal`, 30 for `l` or `low`, else 50.
pub open spec fn confidence_value(c: Seq<char>) -> u32 {
    if c == "h"@ || c == "high"@ {
        90
    } else if c == "n"@ || c == "nominal"@ {
        60
    } else if c == "l"@ || c == "low"@ {
        30
    } else {
        50
    }
}

/// The rank of a confidence level by its first letter: low, nominal, high.
pub open spec fn level_rank(first: char) -> int {
    if first == 'l' { 1 } else if first == 'n' { 2 } else if first == 'h' { 3 } else { 0 }
}

/// A confidence code counts the same written short or long: a recognised
/// code (one not given the default 50) counts as much as its first letter
/// alone; and recognised codes count more the higher the level they name.
pub proof fn law_confidence_codes_agree(c: Seq<char>, d: Seq<char>)
    ensures
        c.len() > 1 && confidence_value(c) != 50 ==> confidence_value(seq![c[0]]) == confidence_value(c),
        confidence_value(c) != 50 && confidence_value(d) != 50 && c.len() > 0 && d.len() > 0
            && level_rank(c[0]) < level_rank(d[0]) ==> confidence_value(c) < confidence_value(d),
{
    reveal_strlit("h");
    reveal_strlit("high");
    reveal_strlit("n");
    reveal_strlit("nominal");
    reveal_strlit("l");
    reveal_strlit("low");
    if c.len() > 1 && confidence_value(c) != 50 {
        assert(c != "h"@ && c != "n"@ && c != "l"@);
        if c == "high"@ {
            assert(seq![c[0]] =~= "h"@);
            assert(confidence_value(c) == 90);
        } else if c == "nominal"@ {
            assert(seq![c[0]] =~= "n"@);
            assert("n"@[0] != "h"@[0]);
            assert("n"@.len() != "high"@.len());
            assert(confidence_value(c) == 60);
        } else {
            assert(c == "low"@);
            assert(seq![c[0]] =~= "l"@);
            assert("l"@[0] != "h"@[0] && "l"@[0] != "n"@[0]);
            assert("l"@.len() != "high"@.len() && "l"@.len() != "nominal"@.len());
            assert(confidence_value(c) == 30);
        }
    }
}

/// When a detection was made: its date and time joined by a space, read as
/// `%Y-%m-%d %H%M`; `now` where that does not parse.
pub open spec fn fire_time(date: Seq<char>, time: Seq<char>, now: i64) -> i64 {
    match parsed_utc_seconds(date + " "@ + time, "%Y-%m-%d %H%M"@) {
        Some(t) => t,
        None => now,
    }
}

impl NasaFirmsSource {
    /// A source with this API key.
    pub fn new(api_key: String) -> (s: NasaFirmsSource)
        ensures
            s.api_key == api_key,
    {
        NasaFirmsSource { api_key }
    }

    /// The detections of a fire-detection CSV, after its header, in order;
    /// an error for a CSV without a line.
    pub fn parse_firms_csv(&self, csv_data: &str) -> (r: Result<Vec<FirmsFire>, String>)
        ensures
            ({
                let ls = lines_of(csv_data@);
                match r {
                    Ok(fires) => ls.len() > 0 && fires@.map_values(|f: FirmsFire| fire_view(f))
                        == fire_rows(fire_columns(ls[0]), ls, ls.len() as int),
                    Err(e) => ls.len() == 0 && e@ == "Empty CSV data"@,
                }
            }),
    {
        let lines = text_lines(csv_data);
        let ghost ls = lines_of(csv_data@);
        if lines.len() == 0 {
            return Err(String::from_str("Empty CSV data"));
        }
        assert(lines@[0]@ == ls[0]);
        let cols = columns_of(&lines[0]);
        let mut fires: Vec<FirmsFire> = Vec::new();
        let mut i: usize = 1;
        while i < lines.len()
            invariant
                ls == lines_of(csv_data@),
                lines@.map_values(|l: Vec<char>| l@) == ls,
                1 <= i <= lines@.len(),
                cols == fire_columns(ls[0]),
                fires@.map_values(|f: FirmsFire| fire_view(f)) == fire_rows(cols, ls, i as int),
            decreases lines.len() - i,
        {
            assert(lines@[i as int]@ == ls[i as int]);
            let ghost before = fires@;
            match fire_of(&cols, &lines[i]) {
                Some(f) => {
                    fires.push(f);
                    assert(fires@.map_values(|f: FirmsFire| fire_view(f)) =~= before.map_values(|f: FirmsFire| fire_view(f)).push(fire_view(f)));
                },
                None => {},
            }
            i = i + 1;
        }
        Ok(fires)
    }

    /// What a detection's confidence counts for.
    pub fn confidence_value(&self, fire: &FirmsFire) -> (v: u32)
        ensures
            v == confidence_value(fire.confidence@),
    {
        let c = fire.confidence.as_str();
        if str_eq(c, "h") || str_eq(c, "high") {
            90
        } else if str_eq(c, "n") || str_eq(c, "nominal") {
            60
        } else if str_eq(c, "l") || str_eq(c, "low") {
            30
        } else {
            50
        }
    }

    /// Whether a detection is confident enough to stand for a radiation
    /// reading: a confidence value of at least 50.
    pub fn is_proxy_candidate(&self, fire: &FirmsFire) -> (b: bool)
        ensures
            b == (confidence_value(fire.confidence@) >= 50),
    {
        self.confidence_value(fire) >= 50
    }

    /// When a detection was made, `now` where its date and time do not parse.
    pub fn detection_time(&self, fire: &FirmsFire, now: i64) -> (t: i64)
        ensures
            t == fire_time(fire.acq_date@, fire.acq_time@, now),
    {
        let a = concat_strs(fire.acq_date.as_str(), " ");
        let text = concat_strs(a.as_str(), fire.acq_time.as_str());
        match parse_utc_seconds(text.as_str(), "%Y-%m-%d %H%M") {
            Some(t) => t,
            None => now,
        }
    }
}

} // verus!

//! The CSV feeds of the fire-detection and RadNet sources: which lines
//! become readings, with which fields, and where their stations are.
//!
//! Numbers in the feeds that are floating-point (coordinates, temperatures,
//! count rates) are handed on as their text; the caller parses them.
//! Coordinates from the station table are ten-thousandths of a degree.
use vstd::prelude::*;
use crate::facilities::{lookup_facility, lowercase, to_lowercase};
use crate::storage::QualityFlag;
use crate::ingest::SourceConfig;
use crate::text::{
    all_digits, chars_eq_ignore_ascii_case, chars_of, digits_value, eq_ignore_ascii_case, has_infix,
    lines_of, parse_i64, parse_i64_spec, split_chars, split_on, str_eq, string_from_chars, text_lines,
    trim_chars, trimmed,
};

verus! {

// ---------------------------------------------------------------------------
// Shared pieces
// ---------------------------------------------------------------------------

/// What `str::parse::<i32>` gives.
pub open spec fn parse_i32_spec(s: Seq<char>) -> Option<i32> {
    match parse_i64_spec(s) {
        Some(v) => if i32::MIN <= v <= i32::MAX { Some(v as i32) } else { None },
        None => None,
    }
}

/// Parses a decimal `i32` the way `str::parse::<i32>` does.
pub fn parse_i32(s: &Vec<char>) -> (r: Option<i32>)
    ensures
        r == parse_i32_spec(s@),
{
    match parse_i64(s) {
        Some(v) => if i32::MIN as i64 <= v && v <= i32::MAX as i64 { Some(v as i32) } else { None },
        None => None,
    }
}

/// `s` with every space made a hyphen.
pub open spec fn spaces_to_hyphens(s: Seq<char>) -> Seq<char> {
    s.map_values(|c: char| if c == ' ' { '-' } else { c })
}

pub(crate) fn replace_spaces(s: &Vec<char>) -> (r: Vec<char>)
    ensures
        r@ == spaces_to_hyphens(s@),
{
    let mut r: Vec<char> = Vec::new();
    let mut i: usize = 0;
    while i < s.len()
        invariant
            i <= s@.len(),
            r@ == spaces_to_hyphens(s@.take(i as int)),
        decreases s.len() - i,
    {
        r.push(if s[i] == ' ' { '-' } else { s[i] });
        i = i + 1;
        assert(r@ =~= spaces_to_hyphens(s@.take(i as int)));
    }
    assert(s@.take(s@.len() as int) =~= s@);
    r
}

/// What chrono's `NaiveDateTime::parse_from_str` makes of `text` in `format`,
/// taken as UTC, in seconds since the epoch; `None` where it does not parse.
pub uninterp spec fn parsed_utc_seconds(text: Seq<char>, format: Seq<char>) -> Option<i64>;

/// Parses `text` with `chrono::NaiveDateTime::parse_from_str` in `format` and
/// reads it as UTC (`and_local_timezone(Utc).single()`), giving its
/// `timestamp()`. The format language is chrono's; the result is named, not
/// restated.
#[verifier::external_body]
pub(crate) fn parse_utc_seconds(text: &str, format: &str) -> (r: Option<i64>)
    ensures
        r == parsed_utc_seconds(text@, format@),
{
    chrono::NaiveDateTime::parse_from_str(text, format)
        .ok()
        .and_then(|dt| dt.and_local_timezone(chrono::Utc).single())
        .map(|t| t.timestamp())
}

/// The name-based UUID that `uuid::Uuid::new_v5` gives for `name` in the DNS
/// namespace, as an integer.
pub uninterp spec fn uuid_v5_dns(name: Seq<char>) -> u128;

/// `uuid::Uuid::new_v5` over the DNS namespace and the UTF-8 bytes of `name`,
/// as an integer. The SHA-1 based value is named, not restated; the crate
/// sets the version nibble to 5 and the variant bits to `10`.
#[verifier::external_body]
pub(crate) fn sensor_uuid(name: &str) -> (r: u128)
    ensures
        r == uuid_v5_dns(name@),
        (r >> 76u128) & 0xfu128 == 5,
        (r >> 62u128) & 0x3u128 == 2,
{
    uuid::Uuid::new_v5(&uuid::Uuid::NAMESPACE_DNS, name.as_bytes()).as_u128()
}

/// The views of a list of character vectors.
pub open spec fn char_views(v: Seq<Vec<char>>) -> Seq<Seq<char>> {
    v.map_values(|x: Vec<char>| x@)
}

// ---------------------------------------------------------------------------
// Fire detections
// ---------------------------------------------------------------------------

/// One usable line of the fire-detection feed: the texts of its fields and
/// what its confidence makes of it.
pub struct FirmsRow {
    pub latitude: String,
    pub longitude: String,
    pub brightness: String,
    pub date: String,
    pub time: String,
    pub satellite: String,
    /// The fire radiative power field, when the line has one.
    pub frp: Option<String>,
    pub confidence: i32,
    pub quality: QualityFlag,
    /// When the fire was seen, in seconds; the time of parsing where the
    /// date or time is missing or does not parse.
    pub timestamp: i64,
}

/// A fire-detection row as plain values.
pub type FirmsView = (Seq<char>, Seq<char>, Seq<char>, Seq<char>, Seq<char>, Seq<char>, Option<Seq<char>>, i32, QualityFlag, i64);

/// The view of a row.
pub open spec fn firms_view(r: FirmsRow) -> FirmsView {
    (r.latitude@, r.longitude@, r.brightness@, r.date@, r.time@, r.satellite@,
        match r.frp { Some(f) => Some(f@), None => None }, r.confidence, r.quality, r.timestamp)
}

/// When a fire was seen: its date and time read as `%Y-%m-%d %H%M`, or `now`
/// where either is empty or they do not parse.
pub open spec fn firms_time(date: Seq<char>, time: Seq<char>, now: i64) -> i64 {
    if date.len() > 0 && time.len() > 0 {
        match parsed_utc_seconds(date + " "@ + time, "%Y-%m-%d %H%M"@) {
            Some(t) => t,
            None => now,
        }
    } else {
        now
    }
}

fn firms_timestamp(date: &Vec<char>, time: &Vec<char>, now: i64) -> (t: i64)
    ensures
        t == firms_time(date@, time@, now),
{
    if date.len() > 0 && time.len() > 0 {
        let d = string_from_chars(date);
        let tm = string_from_chars(time);
        let a = crate::text::concat_strs(d.as_str(), " ");
        let text = crate::text::concat_strs(a.as_str(), tm.as_str());
        match parse_utc_seconds(text.as_str(), "%Y-%m-%d %H%M") {
            Some(t) => t,
            None => now,
        }
    } else {
        now
    }
}

/// What a data line gives: nothing for a blank line, one with fewer than ten
/// fields, or one whose confidence (field 8, zero when it does not parse) is
/// under 50; else its fields, `Valid` quality from confidence 80, else
/// `Suspect`, and when the fire was seen.
pub open spec fn firms_line(line: Seq<char>, now: i64) -> Option<FirmsView> {
    let f = split_on(line, ',');
    if trimmed(line).len() == 0 || f.len() < 10 {
        None
    } else {
        let conf = match parse_i32_spec(f[8]) { Some(c) => c, None => 0i32 };
        if conf < 50 {
            None
        } else {
            Some((f[0], f[1], f[2], f[5], f[6], f[7], if f.len() > 11 { Some(f[11]) } else { None }, conf,
                if conf >= 80 { QualityFlag::Valid } else { QualityFlag::Suspect }, firms_time(f[5], f[6], now)))
        }
    }
}

/// The rows of the data lines `lines[1..n]`, in order.
pub open spec fn firms_rows(lines: Seq<Seq<char>>, n: int, now: i64) -> Seq<FirmsView>
    decreases n,
{
    if n <= 1 {
        Seq::empty()
    } else {
        let rest = firms_rows(lines, n - 1, now);
        match firms_line(lines[n - 1], now) {
            Some(r) => rest.push(r),
            None => rest,
        }
    }
}

fn firms_row_of(line: &Vec<char>, now: i64) -> (r: Option<FirmsRow>)
    ensures
        match r {
            Some(row) => firms_line(line@, now) == Some(firms_view(row)),
            None => firms_line(line@, now) is None,
        },
{
    let t = trim_chars(line);
    let f = split_chars(line, ',');
    if t.len() == 0 || f.len() < 10 {
        return None;
    }
    let conf = match parse_i32(&f[8]) {
        Some(c) => c,
        None => 0,
    };
    if conf < 50 {
        return None;
    }
    let frp = if f.len() > 11 { Some(string_from_chars(&f[11])) } else { None };
    let timestamp = firms_timestamp(&f[5], &f[6], now);
    let row = FirmsRow {
        latitude: string_from_chars(&f[0]),
        longitude: string_from_chars(&f[1]),
        brightness: string_from_chars(&f[2]),
        date: string_from_chars(&f[5]),
        time: string_from_chars(&f[6]),
        satellite: string_from_chars(&f[7]),
        frp,
        confidence: conf,
        quality: if conf >= 80 { QualityFlag::Valid } else { QualityFlag::Suspect },
        timestamp,
    };
    Some(row)
}

/// The fire-detection feed: source of readings.
pub struct NasaFirmsSource {
    pub api_key: String,
}

impl NasaFirmsSource {
    /// A source with this API key.
    pub fn new(api_key: String) -> (s: NasaFirmsSource)
        ensures
            s.api_key == api_key,
    {
        NasaFirmsSource { api_key }
    }

    /// The usable lines of a fire-detection CSV, after its header, in order;
    /// `now` (seconds) stands in for a missing time.
    pub fn parse_firms_csv(&self, csv_data: &str, now: i64) -> (rows: Vec<FirmsRow>)
        ensures
            rows@.map_values(|r: FirmsRow| firms_view(r)) == firms_rows(lines_of(csv_data@), lines_of(csv_data@).len() as int, now),
    {
        let lines = text_lines(csv_data);
        let ghost ls = lines_of(csv_data@);
        let mut rows: Vec<FirmsRow> = Vec::new();
        if lines.len() <= 1 {
            return rows;
        }
        let mut i: usize = 1;
        while i < lines.len()
            invariant
                ls == lines_of(csv_data@),
                lines@.map_values(|l: Vec<char>| l@) == ls,
                1 <= i <= lines@.len(),
                rows@.map_values(|r: FirmsRow| firms_view(r)) == firms_rows(ls, i as int, now),
            decreases lines.len() - i,
        {
            assert(lines@[i as int]@ == ls[i as int]);
            let ghost before = rows@;
            match firms_row_of(&lines[i], now) {
                Some(r) => {
                    rows.push(r);
                    assert(rows@.map_values(|r: FirmsRow| firms_view(r)) =~= before.map_values(|r: FirmsRow| firms_view(r)).push(firms_view(r)));
                },
                None => {},
            }
            i = i + 1;
        }
        rows
    }
}

// ---------------------------------------------------------------------------
// RadNet
// ---------------------------------------------------------------------------

/// RadNet stations' cities: lower-case city, lower-case state, latitude and
/// longitude in ten-thousandths of a degree.
pub open spec fn city_table() -> Seq<(Seq<char>, Seq<char>, i32, i32)> {
    seq![
        ("new york"@, "ny"@, 407128i32, -740060i32),
        ("los angeles"@, "ca"@, 340522i32, -1182437i32),
        ("chicago"@, "il"@, 418781i32, -876298i32),
        ("houston"@, "tx"@, 297604i32, -953698i32),
        ("phoenix"@, "az"@, 334484i32, -1120740i32),
        ("philadelphia"@, "pa"@, 399526i32, -751652i32),
        ("san antonio"@, "tx"@, 294241i32, -984936i32),
        ("san diego"@, "ca"@, 327157i32, -1171611i32),
        ("dallas"@, "tx"@, 327767i32, -967970i32),
        ("san jose"@, "ca"@, 373382i32, -1218863i32),
        ("austin"@, "tx"@, 302672i32, -977431i32),
        ("jacksonville"@, "fl"@, 303322i32, -816557i32),
        ("san francisco"@, "ca"@, 377749i32, -1224194i32),
        ("columbus"@, "oh"@, 399612i32, -829988i32),
        ("charlotte"@, "nc"@, 352271i32, -808431i32),
        ("fort worth"@, "tx"@, 327555i32, -973308i32),
        ("indianapolis"@, "in"@, 397684i32, -861581i32),
        ("seattle"@, "wa"@, 476062i32, -1223321i32),
        ("denver"@, "co"@, 397392i32, -1049903i32),
        ("washington"@, "dc"@, 389072i32, -770369i32),
        ("boston"@, "ma"@, 423601i32, -710589i32),
        ("el paso"@, "tx"@, 317619i32, -1064850i32),
        ("nashville"@, "tn"@, 361627i32, -867816i32),
        ("detroit"@, "mi"@, 423314i32, -830458i32),
        ("oklahoma city"@, "ok"@, 354676i32, -975164i32),
        ("portland"@, "or"@, 455152i32, -1226784i32),
        ("las vegas"@, "nv"@, 361699i32, -1151398i32),
        ("louisville"@, "ky"@, 382527i32, -857585i32),
        ("baltimore"@, "md"@, 392904i32, -766122i32),
        ("milwaukee"@, "wi"@, 430389i32, -879065i32),
        ("albuquerque"@, "nm"@, 350844i32, -1066504i32),
        ("tucson"@, "az"@, 322226i32, -1109747i32),
        ("fresno"@, "ca"@, 367378i32, -1197871i32),
        ("sacramento"@, "ca"@, 385816i32, -1214944i32),
        ("kansas city"@, "mo"@, 390997i32, -945786i32),
        ("mesa"@, "az"@, 334152i32, -1118315i32),
        ("atlanta"@, "ga"@, 337490i32, -843880i32),
        ("omaha"@, "ne"@, 412565i32, -959345i32),
        ("colorado springs"@, "co"@, 388339i32, -1048214i32),
        ("raleigh"@, "nc"@, 357796i32, -786382i32),
        ("miami"@, "fl"@, 257617i32, -801918i32),
        ("virginia beach"@, "va"@, 368529i32, -759780i32),
        ("oakland"@, "ca"@, 378044i32, -1222712i32),
        ("minneapolis"@, "mn"@, 449778i32, -932650i32),
        ("tulsa"@, "ok"@, 361540i32, -959928i32),
        ("arlington"@, "tx"@, 327357i32, -971081i32),
        ("wichita"@, "ks"@, 376872i32, -973301i32),
        ("bakersfield"@, "ca"@, 353733i32, -1190187i32),
        ("tampa"@, "fl"@, 279506i32, -824572i32),
        ("anaheim"@, "ca"@, 338366i32, -1179143i32),
        ("honolulu"@, "hi"@, 213069i32, -1578583i32),
        ("anchorage"@, "ak"@, 612181i32, -1499003i32)
    ]
}

/// Where a city is: from the table, else the middle of the United States.
pub open spec fn city_coordinates(city: Seq<char>, state: Seq<char>) -> (i32, i32) {
    let c = lookup_facility(city_table(), city, state);
    if c == (0i32, 0i32) { (398283i32, -985795i32) } else { c }
}

fn cities() -> (t: Vec<(&'static str, &'static str, i32, i32)>)
    ensures
        t@.map_values(|e: (&'static str, &'static str, i32, i32)| (e.0@, e.1@, e.2, e.3)) == city_table(),
{
    let t = vec![
        ("new york", "ny", 407128i32, -740060i32),
        ("los angeles", "ca", 340522i32, -1182437i32),
        ("chicago", "il", 418781i32, -876298i32),
        ("houston", "tx", 297604i32, -953698i32),
        ("phoenix", "az", 334484i32, -1120740i32),
        ("philadelphia", "pa", 399526i32, -751652i32),
        ("san antonio", "tx", 294241i32, -984936i32),
        ("san diego", "ca", 327157i32, -1171611i32),
        ("dallas", "tx", 327767i32, -967970i32),
        ("san jose", "ca", 373382i32, -1218863i32),
        ("austin", "tx", 302672i32, -977431i32),
        ("jacksonville", "fl", 303322i32, -816557i32),
        ("san francisco", "ca", 377749i32, -1224194i32),
        ("columbus", "oh", 399612i32, -829988i32),
        ("charlotte", "nc", 352271i32, -808431i32),
        ("fort worth", "tx", 327555i32, -973308i32),
        ("indianapolis", "in", 397684i32, -861581i32),
        ("seattle", "wa", 476062i32, -1223321i32),
        ("denver", "co", 397392i32, -1049903i32),
        ("washington", "dc", 389072i32, -770369i32),
        ("boston", "ma", 423601i32, -710589i32),
        ("el paso", "tx", 317619i32, -1064850i32),
        ("nashville", "tn", 361627i32, -867816i32),
        ("detroit", "mi", 423314i32, -830458i32),
        ("oklahoma city", "ok", 354676i32, -975164i32),
        ("portland", "or", 455152i32, -1226784i32),
        ("las vegas", "nv", 361699i32, -1151398i32),
        ("louisville", "ky", 382527i32, -857585i32),
        ("baltimore", "md", 392904i32, -766122i32),
        ("milwaukee", "wi", 430389i32, -879065i32),
        ("albuquerque", "nm", 350844i32, -1066504i32),
        ("tucson", "az", 322226i32, -1109747i32),
        ("fresno", "ca", 367378i32, -1197871i32),
        ("sacramento", "ca", 385816i32, -1214944i32),
        ("kansas city", "mo", 390997i32, -945786i32),
        ("mesa", "az", 334152i32, -1118315i32),
        ("atlanta", "ga", 337490i32, -843880i32),
        ("omaha", "ne", 412565i32, -959345i32),
        ("colorado springs", "co", 388339i32, -1048214i32),
        ("raleigh", "nc", 357796i32, -786382i32),
        ("miami", "fl", 257617i32, -801918i32),
        ("virginia beach", "va", 368529i32, -759780i32),
        ("oakland", "ca", 378044i32, -1222712i32),
        ("minneapolis", "mn", 449778i32, -932650i32),
        ("tulsa", "ok", 361540i32, -959928i32),
        ("arlington", "tx", 327357i32, -971081i32),
        ("wichita", "ks", 376872i32, -973301i32),
        ("bakersfield", "ca", 353733i32, -1190187i32),
        ("tampa", "fl", 279506i32, -824572i32),
        ("anaheim", "ca", 338366i32, -1179143i32),
        ("honolulu", "hi", 213069i32, -1578583i32),
        ("anchorage", "ak", 612181i32, -1499003i32)
    ];
    assert(t@.map_values(|e: (&'static str, &'static str, i32, i32)| (e.0@, e.1@, e.2, e.3)) =~= city_table());
    t
}

fn lookup_city(city: &str, state: &str) -> (c: (i32, i32))
    ensures
        c == lookup_facility(city_table(), city@, state@),
{
    let t = cities();
    let ghost view = t@.map_values(|e: (&'static str, &'static str, i32, i32)| (e.0@, e.1@, e.2, e.3));
    assert(view.subrange(0, view.len() as int) =~= view);
    let mut i: usize = 0;
    while i < t.len()
        invariant
            i <= t@.len(),
            view == city_table(),
            view == t@.map_values(|e: (&'static str, &'static str, i32, i32)| (e.0@, e.1@, e.2, e.3)),
            lookup_facility(view, city@, state@) == lookup_facility(view.subrange(i as int, view.len() as int), city@, state@),
        decreases t.len() - i,
    {
        let e = t[i];
        proof {
            let rest = view.subrange(i as int, view.len() as int);
            assert(rest[0] == (e.0@, e.1@, e.2, e.3));
            assert(rest.drop_first() =~= view.subrange(i + 1, view.len() as int));
        }
        if str_eq(e.0, city) && str_eq(e.1, state) {
            return (e.2, e.3);
        }
        i = i + 1;
    }
    assert(view.subrange(i as int, view.len() as int) =~= Seq::<(Seq<char>, Seq<char>, i32, i32)>::empty());
    (0, 0)
}

/// The RadNet source.
pub struct EpaRadnetSource {
    pub config: SourceConfig,
}

/// Where the RadNet CSV keeps each field: the positions of the columns named
/// `Location`, `City`, `State`, `Date` and `Time` (ignoring ASCII case), and
/// of the first column whose name mentions `Gamma` or `CPM`.
pub struct RadnetColumns {
    pub location: Option<usize>,
    pub city: Option<usize>,
    pub state: Option<usize>,
    pub date: Option<usize>,
    pub time: Option<usize>,
    pub gamma: Option<usize>,
}

/// The first position in `headers` named `name`, ignoring ASCII case.
pub open spec fn column_named(headers: Seq<Seq<char>>, name: Seq<char>) -> Option<usize> {
    if exists|i: int| 0 <= i < headers.len() && #[trigger] eq_ignore_ascii_case(headers[i], name) {
        let i = choose|i: int| 0 <= i < headers.len() && #[trigger] eq_ignore_ascii_case(headers[i], name)
            && forall|j: int| 0 <= j < i ==> !eq_ignore_ascii_case(headers[j], name);
        Some(i as usize)
    } else {
        None
    }
}

/// Whether a header names the gamma column.
pub open spec fn gamma_header(h: Seq<char>) -> bool {
    has_infix(h, "Gamma"@) || has_infix(h, "CPM"@)
}

/// The first position in `headers` of the gamma column.
pub open spec fn gamma_column(headers: Seq<Seq<char>>) -> Option<usize> {
    if exists|i: int| 0 <= i < headers.len() && #[trigger] gamma_header(headers[i]) {
        let i = choose|i: int| 0 <= i < headers.len() && #[trigger] gamma_header(headers[i])
            && forall|j: int| 0 <= j < i ==> !gamma_header(headers[j]);
        Some(i as usize)
    } else {
        None
    }
}

/// The trimmed fields of a line.
pub open spec fn trimmed_fields(line: Seq<char>) -> Seq<Seq<char>> {
    split_on(line, ',').map_values(|f: Seq<char>| trimmed(f))
}

fn fields_of(line: &Vec<char>) -> (r: Vec<Vec<char>>)
    ensures
        char_views(r@) == trimmed_fields(line@),
{
    let parts = split_chars(line, ',');
    let mut out: Vec<Vec<char>> = Vec::new();
    let mut i: usize = 0;
    while i < parts.len()
        invariant
            i <= parts@.len(),
            parts@.len() == split_on(line@, ',').len(),
            forall|k: int| 0 <= k < parts@.len() ==> #[trigger] parts@[k]@ == split_on(line@, ',')[k],
            char_views(out@) == trimmed_fields(line@).take(i as int),
        decreases parts.len() - i,
    {
        let t = trim_chars(&parts[i]);
        let ghost before = out@;
        out.push(t);
        proof {
            assert(parts@[i as int]@ == split_on(line@, ',')[i as int]);
            assert(char_views(out@) =~= char_views(before).push(t@));
            assert(trimmed_fields(line@).take(i + 1) =~= trimmed_fields(line@).take(i as int).push(t@));
        }
        i = i + 1;
    }
    assert(trimmed_fields(line@).take(parts@.len() as int) =~= trimmed_fields(line@));
    out
}

fn find_column(headers: &Vec<Vec<char>>, name: &str) -> (r: Option<usize>)
    ensures
        r == column_named(char_views(headers@), name@),
{
    let ghost hs = char_views(headers@);
    let mut i: usize = 0;
    while i < headers.len()
        invariant
            i <= headers@.len(),
            hs == char_views(headers@),
            forall|j: int| 0 <= j < i ==> !eq_ignore_ascii_case(#[trigger] hs[j], name@),
        decreases headers.len() - i,
    {
        assert(hs[i as int] == headers@[i as int]@);
        if chars_eq_ignore_ascii_case(&headers[i], name) {
            proof {
                let c = choose|k: int| 0 <= k < hs.len() && #[trigger] eq_ignore_ascii_case(hs[k], name@)
                    && forall|j: int| 0 <= j < k ==> !eq_ignore_ascii_case(hs[j], name@);
                assert(eq_ignore_ascii_case(hs[i as int], name@));
                if c < i {
                    assert(!eq_ignore_ascii_case(hs[c], name@));
                } else if c > i {
                    assert(!eq_ignore_ascii_case(hs[i as int], name@));
                }
            }
            return Some(i);
        }
        i = i + 1;
    }
    None
}

fn find_gamma(headers: &Vec<Vec<char>>) -> (r: Option<usize>)
    ensures
        r == gamma_column(char_views(headers@)),
{
    let ghost hs = char_views(headers@);
    let mut i: usize = 0;
    while i < headers.len()
        invariant
            i <= headers@.len(),
            hs == char_views(headers@),
            forall|j: int| 0 <= j < i ==> !gamma_header(#[trigger] hs[j]),
        decreases headers.len() - i,
    {
        assert(hs[i as int] == headers@[i as int]@);
        let h = string_from_chars(&headers[i]);
        if crate::text::str_contains(h.as_str(), "Gamma") || crate::text::str_contains(h.as_str(), "CPM") {
            proof {
                let c = choose|k: int| 0 <= k < hs.len() && #[trigger] gamma_header(hs[k])
                    && forall|j: int| 0 <= j < k ==> !gamma_header(hs[j]);
                assert(gamma_header(hs[i as int]));
                if c < i {
                    assert(!gamma_header(hs[c]));
                } else if c > i {
                    assert(!gamma_header(hs[i as int]));
                }
            }
            return Some(i);
        }
        i = i + 1;
    }
    None
}

/// The field at an optional position, when the line has it.
pub open spec fn field_at(fields: Seq<Seq<char>>, idx: Option<usize>) -> Option<Seq<char>> {
    match idx {
        Some(i) => if (i as int) < fields.len() { Some(fields[i as int]) } else { None },
        None => None,
    }
}

/// The field at an optional position, or `default`.
pub open spec fn field_or(fields: Seq<Seq<char>>, idx: Option<usize>, default: Seq<char>) -> Seq<char> {
    match field_at(fields, idx) {
        Some(f) => f,
        None => default,
    }
}

/// The column positions that a header line gives.
pub open spec fn header_columns(header: Seq<char>) -> RadnetColumns {
    let hs = trimmed_fields(header);
    RadnetColumns {
        location: column_named(hs, "Location"@),
        city: column_named(hs, "City"@),
        state: column_named(hs, "State"@),
        date: column_named(hs, "Date"@),
        time: column_named(hs, "Time"@),
        gamma: gamma_column(hs),
    }
}

/// A RadNet row as plain values.
pub type RadnetView = (Seq<char>, Seq<char>, Seq<char>, Seq<char>, Seq<char>, Option<Seq<char>>, (i32, i32), Seq<char>, u128, i64);

/// The view of a row.
pub open spec fn radnet_view(r: RadnetRow) -> RadnetView {
    (r.location@, r.city@, r.state@, r.date@, r.time@,
        match r.gamma { Some(g) => Some(g@), None => None }, r.coordinates, r.sensor_key@, r.sensor_id, r.timestamp)
}

/// The key a station's sensor id is made from: `epa-radnet-`, location, city
/// and state joined by hyphens, in lower case, spaces made hyphens.
pub open spec fn radnet_key(location: Seq<char>, city: Seq<char>, state: Seq<char>) -> Seq<char> {
    spaces_to_hyphens(lowercase("epa-radnet-"@ + location + "-"@ + city + "-"@ + state))
}

/// When a sample was taken: its date and time joined by a space, read as
/// `%Y-%m-%d %H:%M`, else as `%m/%d/%Y %H:%M`; `now` where the date is empty
/// or neither parses.
pub open spec fn radnet_time(date: Seq<char>, time: Seq<char>, now: i64) -> i64 {
    if date.len() > 0 {
        let text = date + " "@ + time;
        match parsed_utc_seconds(text, "%Y-%m-%d %H:%M"@) {
            Some(t) => t,
            None => match parsed_utc_seconds(text, "%m/%d/%Y %H:%M"@) {
                Some(t) => t,
                None => now,
            },
        }
    } else {
        now
    }
}

fn radnet_timestamp(date: &str, time: &str, now: i64) -> (t: i64)
    ensures
        t == radnet_time(date@, time@, now),
{
    if date.unicode_len() > 0 {
        let a = crate::text::concat_strs(date, " ");
        let text = crate::text::concat_strs(a.as_str(), time);
        match parse_utc_seconds(text.as_str(), "%Y-%m-%d %H:%M") {
            Some(t) => t,
            None => match parse_utc_seconds(text.as_str(), "%m/%d/%Y %H:%M") {
                Some(t) => t,
                None => now,
            },
        }
    } else {
        now
    }
}

/// What a data line gives under the columns `c`: nothing for a blank line or
/// one with fewer than three fields; else its trimmed fields by column
/// (`Unknown` for a missing location, empty for a missing city, state, date
/// or time), the gamma count field when there is one, where its city is, its
/// sensor key and the sensor id made from it, and when it was taken.
pub open spec fn radnet_line(c: RadnetColumns, line: Seq<char>, now: i64) -> Option<RadnetView> {
    let f = trimmed_fields(line);
    if trimmed(line).len() == 0 || f.len() < 3 {
        None
    } else {
        let location = field_or(f, c.location, "Unknown"@);
        let city = field_or(f, c.city, ""@);
        let state = field_or(f, c.state, ""@);
        let date = field_or(f, c.date, ""@);
        let time = field_or(f, c.time, ""@);
        let key = radnet_key(location, city, state);
        Some((location, city, state, date, time, field_at(f, c.gamma),
            city_coordinates(lowercase(city), lowercase(state)), key, uuid_v5_dns(key), radnet_time(date, time, now)))
    }
}

/// The rows of the data lines `lines[1..n]` under the columns `c`, in order.
pub open spec fn radnet_rows(c: RadnetColumns, lines: Seq<Seq<char>>, n: int, now: i64) -> Seq<RadnetView>
    decreases n,
{
    if n <= 1 {
        Seq::empty()
    } else {
        let rest = radnet_rows(c, lines, n - 1, now);
        match radnet_line(c, lines[n - 1], now) {
            Some(r) => rest.push(r),
            None => rest,
        }
    }
}

pub(crate) fn field_text(fields: &Vec<Vec<char>>, idx: Option<usize>, default: &str) -> (r: String)
    ensures
        r@ == field_or(char_views(fields@), idx, default@),
{
    match idx {
        Some(i) => {
            if i < fields.len() {
                assert(char_views(fields@)[i as int] == fields@[i as int]@);
                string_from_chars(&fields[i])
            } else {
                String::from_str(default)
            }
        },
        None => String::from_str(default),
    }
}

pub(crate) fn field_opt(fields: &Vec<Vec<char>>, idx: Option<usize>) -> (r: Option<String>)
    ensures
        match r {
            Some(s) => field_at(char_views(fields@), idx) == Some(s@),
            None => field_at(char_views(fields@), idx) is None,
        },
{
    match idx {
        Some(i) => {
            if i < fields.len() {
                assert(char_views(fields@)[i as int] == fields@[i as int]@);
                Some(string_from_chars(&fields[i]))
            } else {
                None
            }
        },
        None => None,
    }
}

fn sensor_key(location: &str, city: &str, state: &str) -> (r: String)
    ensures
        r@ == radnet_key(location@, city@, state@),
{
    let a = crate::text::concat_strs("epa-radnet-", location);
    let b = crate::text::concat_strs(a.as_str(), "-");
    let c = crate::text::concat_strs(b.as_str(), city);
    let d = crate::text::concat_strs(c.as_str(), "-");
    let e = crate::text::concat_strs(d.as_str(), state);
    let low = to_lowercase(e.as_str());
    let cs = chars_of(low.as_str());
    let r = replace_spaces(&cs);
    string_from_chars(&r)
}

/// One usable RadNet line: station, place, sample time and gamma count texts,
/// where the city is, and the key the station's sensor id is made from.
pub struct RadnetRow {
    pub location: String,
    pub city: String,
    pub state: String,
    pub date: String,
    pub time: String,
    pub gamma: Option<String>,
    pub coordinates: (i32, i32),
    pub sensor_key: String,
    /// The name-based UUID of the sensor key.
    pub sensor_id: u128,
    /// When the sample was taken, in seconds.
    pub timestamp: i64,
}

/// `s` with every space made an underscore.
pub open spec fn spaces_to_underscores(s: Seq<char>) -> Seq<char> {
    s.map_values(|c: char| if c == ' ' { '_' } else { c })
}

fn underscore_spaces(s: &Vec<char>) -> (r: Vec<char>)
    ensures
        r@ == spaces_to_underscores(s@),
{
    let mut r: Vec<char> = Vec::new();
    let mut i: usize = 0;
    while i < s.len()
        invariant
            i <= s@.len(),
            r@ == spaces_to_underscores(s@.take(i as int)),
        decreases s.len() - i,
    {
        r.push(if s[i] == ' ' { '_' } else { s[i] });
        i = i + 1;
        assert(r@ =~= spaces_to_underscores(s@.take(i as int)));
    }
    assert(s@.take(s@.len() as int) =~= s@);
    r
}

/// The sensor key of a RadNet table row: `epa:` and the station cell's text,
/// trimmed, in lower case, with its spaces made underscores.
pub open spec fn epa_station_key(station_cell: Seq<char>) -> Seq<char> {
    "epa:"@ + spaces_to_underscores(lowercase(trimmed(station_cell)))
}

/// `s` split at its first comma: the text before it and the text after it;
/// `None` without a comma.
pub open spec fn split_first_comma(s: Seq<char>) -> Option<(Seq<char>, Seq<char>)>
    decreases s.len(),
{
    if s.len() == 0 {
        None
    } else if s[0] == ',' {
        Some((Seq::empty(), s.drop_first()))
    } else {
        match split_first_comma(s.drop_first()) {
            Some((a, b)) => Some((seq![s[0]] + a, b)),
            None => None,
        }
    }
}

proof fn lemma_split_first_comma(s: Seq<char>, k: int)
    requires
        0 <= k <= s.len(),
        forall|j: int| 0 <= j < k ==> s[j] != ',',
        k < s.len() ==> s[k] == ',',
    ensures
        k < s.len() ==> split_first_comma(s) == Some((s.take(k), s.skip(k + 1))),
        k == s.len() ==> split_first_comma(s) is None,
    decreases k,
{
    if k > 0 {
        let t = s.drop_first();
        assert forall|j: int| 0 <= j < k - 1 implies t[j] != ',' by {
            assert(t[j] == s[j + 1]);
        }
        lemma_split_first_comma(t, k - 1);
        if k < s.len() {
            assert(seq![s[0]] + t.take(k - 1) =~= s.take(k));
            assert(t.skip(k) =~= s.skip(k + 1));
        }
    } else if k < s.len() {
        assert(s.take(0) =~= Seq::<char>::empty());
        assert(s.skip(1) =~= s.drop_first());
    }
}

/// The city and state of a location cell that does not give coordinates: the
/// text before and after its first comma, each trimmed; `Unknown` and `US`
/// for a cell without a comma.
pub open spec fn fallback_place(location_cell: Seq<char>) -> (Seq<char>, Seq<char>) {
    match split_first_comma(location_cell) {
        Some((c, s)) => (trimmed(c), trimmed(s)),
        None => ("Unknown"@, "US"@),
    }
}

impl EpaRadnetSource {
    /// The source, named `epa_radnet`, polled every 900 seconds with a 30-second
    /// timeout and 3 retries.
    pub fn new() -> (s: EpaRadnetSource)
        ensures
            s.config.name@ == "epa_radnet"@,
            s.config.url@ == "https://www.epa.gov/radnet/radnet-data"@,
            s.config.poll_interval_secs == 900 && s.config.timeout == 30 && s.config.retries == 3,
    {
        EpaRadnetSource {
            config: SourceConfig {
                name: String::from_str("epa_radnet"),
                url: String::from_str("https://www.epa.gov/radnet/radnet-data"),
                poll_interval_secs: 900,
                timeout: 30,
                retries: 3,
            },
        }
    }

    /// The source's name.
    pub fn name(&self) -> (n: String)
        ensures
            n@ == self.config.name@,
    {
        self.config.name.clone()
    }

    /// Seconds between fetches.
    pub fn poll_interval(&self) -> (secs: u64)
        ensures
            secs == self.config.poll_interval_secs,
    {
        self.config.poll_interval_secs
    }

    /// The sensor key of a RadNet table row from its station cell
    /// (`epa_station_key`), and the sensor's name-based UUID.
    pub fn station_key(&self, station_cell: &str) -> (r: (String, u128))
        ensures
            r.0@ == epa_station_key(station_cell@),
            r.1 == uuid_v5_dns(r.0@),
    {
        let cs = chars_of(station_cell);
        let tr = trim_chars(&cs);
        let name = string_from_chars(&tr);
        let low = to_lowercase(name.as_str());
        let lc = chars_of(low.as_str());
        let us = underscore_spaces(&lc);
        let mut key: Vec<char> = Vec::new();
        key.push('e');
        key.push('p');
        key.push('a');
        key.push(':');
        let ghost head = key@;
        let mut i: usize = 0;
        while i < us.len()
            invariant
                i <= us@.len(),
                key@ == head + us@.take(i as int),
            decreases us.len() - i,
        {
            key.push(us[i]);
            i = i + 1;
            assert(key@ =~= head + us@.take(i as int));
        }
        proof {
            reveal_strlit("epa:");
            assert(us@.take(us@.len() as int) =~= us@);
            assert(head =~= "epa:"@);
        }
        let k = string_from_chars(&key);
        let id = sensor_uuid(k.as_str());
        (k, id)
    }

    /// The city, state and approximate place of a location cell that does not
    /// give its own coordinates (`fallback_place`, `approximate_coordinates`).
    pub fn fallback_location(&self, location_cell: &str) -> (r: (String, String, (i32, i32)))
        ensures
            r.0@ == fallback_place(location_cell@).0,
            r.1@ == fallback_place(location_cell@).1,
            r.2 == city_coordinates(lowercase(r.0@), lowercase(r.1@)),
    {
        let cs = chars_of(location_cell);
        let mut k: usize = 0;
        while k < cs.len() && cs[k] != ','
            invariant
                k <= cs@.len(),
                forall|j: int| 0 <= j < k ==> cs@[j] != ',',
            decreases cs.len() - k,
        {
            k = k + 1;
        }
        proof {
            lemma_split_first_comma(cs@, k as int);
        }
        let (city, state) = if k < cs.len() {
            let mut before: Vec<char> = Vec::new();
            let mut i: usize = 0;
            while i < k
                invariant
                    i <= k < cs@.len(),
                    before@ == cs@.take(i as int),
                decreases k - i,
            {
                before.push(cs[i]);
                i = i + 1;
                assert(before@ =~= cs@.take(i as int));
            }
            let mut after: Vec<char> = Vec::new();
            let mut j: usize = k + 1;
            while j < cs.len()
                invariant
                    k + 1 <= j <= cs@.len(),
                    after@ == cs@.subrange(k + 1, j as int),
                decreases cs.len() - j,
            {
                after.push(cs[j]);
                j = j + 1;
                assert(after@ =~= cs@.subrange(k + 1, j as int));
            }
            assert(after@ =~= cs@.skip(k + 1));
            let c = trim_chars(&before);
            let s = trim_chars(&after);
            (string_from_chars(&c), string_from_chars(&s))
        } else {
            (String::from_str("Unknown"), String::from_str("US"))
        };
        let place = self.approximate_coordinates(city.as_str(), state.as_str());
        (city, state, place)
    }

    /// Where a city is, by name and state regardless of case; the middle of
    /// the United States for a city not in the table.
    pub fn approximate_coordinates(&self, city: &str, state: &str) -> (c: (i32, i32))
        ensures
            c == city_coordinates(lowercase(city@), lowercase(state@)),
    {
        let cl = to_lowercase(city);
        let sl = to_lowercase(state);
        let c = lookup_city(cl.as_str(), sl.as_str());
        if c.0 == 0 && c.1 == 0 { (398283, -985795) } else { c }
    }

    /// The column positions a header line gives.
    pub fn radnet_columns(&self, header: &Vec<char>) -> (c: RadnetColumns)
        ensures
            c == header_columns(header@),
    {
        let hs = fields_of(header);
        RadnetColumns {
            location: find_column(&hs, "Location"),
            city: find_column(&hs, "City"),
            state: find_column(&hs, "State"),
            date: find_column(&hs, "Date"),
            time: find_column(&hs, "Time"),
            gamma: find_gamma(&hs),
        }
    }
    fn radnet_row_of(&self, cols: &RadnetColumns, line: &Vec<char>, now: i64) -> (r: Option<RadnetRow>)
        ensures
            match r {
                Some(row) => radnet_line(*cols, line@, now) == Some(radnet_view(row)),
                None => radnet_line(*cols, line@, now) is None,
            },
    {
        let t = trim_chars(line);
        let f = fields_of(line);
        if t.len() == 0 || f.len() < 3 {
            return None;
        }
        let location = field_text(&f, cols.location, "Unknown");
        let city = field_text(&f, cols.city, "");
        let state = field_text(&f, cols.state, "");
        let date = field_text(&f, cols.date, "");
        let time = field_text(&f, cols.time, "");
        let gamma = field_opt(&f, cols.gamma);
        let coordinates = self.approximate_coordinates(city.as_str(), state.as_str());
        let key = sensor_key(location.as_str(), city.as_str(), state.as_str());
        let sensor_id = sensor_uuid(key.as_str());
        let timestamp = radnet_timestamp(date.as_str(), time.as_str(), now);
        let row = RadnetRow { location, city, state, date, time, gamma, coordinates, sensor_key: key, sensor_id, timestamp };
        Some(row)
    }

    /// The usable lines of a RadNet CSV, after its header, in order; an error
    /// for a CSV without a line. `now` (seconds) stands in for a missing time.
    pub fn parse_radnet_csv(&self, csv_data: &str, now: i64) -> (r: Result<Vec<RadnetRow>, String>)
        ensures
            ({
                let ls = lines_of(csv_data@);
                match r {
                    Ok(rows) => ls.len() > 0 && rows@.map_values(|x: RadnetRow| radnet_view(x))
                        == radnet_rows(header_columns(ls[0]), ls, ls.len() as int, now),
                    Err(e) => ls.len() == 0 && e@ == "Empty CSV"@,
                }
            }),
    {
        let lines = text_lines(csv_data);
        let ghost ls = lines_of(csv_data@);
        if lines.len() == 0 {
            return Err(String::from_str("Empty CSV"));
        }
        assert(lines@[0]@ == ls[0]);
        let cols = self.radnet_columns(&lines[0]);
        let mut rows: Vec<RadnetRow> = Vec::new();
        let mut i: usize = 1;
        while i < lines.len()
            invariant
                ls == lines_of(csv_data@),
                lines@.map_values(|l: Vec<char>| l@) == ls,
                1 <= i <= lines@.len(),
                cols == header_columns(ls[0]),
                rows@.map_values(|x: RadnetRow| radnet_view(x)) == radnet_rows(cols, ls, i as int, now),
            decreases lines.len() - i,
        {
            assert(lines@[i as int]@ == ls[i as int]);
            let ghost before = rows@;
            match self.radnet_row_of(&cols, &lines[i], now) {
                Some(x) => {
                    rows.push(x);
                    assert(rows@.map_values(|x: RadnetRow| radnet_view(x)) =~= before.map_values(|x: RadnetRow| radnet_view(x)).push(radnet_view(x)));
                },
                None => {},
            }
            i = i + 1;
        }
        Ok(rows)
    }
}

} // verus!

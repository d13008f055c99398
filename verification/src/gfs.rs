//! The global forecast feed: the index of a forecast file, and the rows of
//! an ASCII grid.
//!
//! Grid values are floating point; a grid row is handed on as the text of
//! its first three fields, and the caller keeps the rows whose fields parse.
use vstd::prelude::*;
use crate::feeds::char_views;
use crate::ingest::SourceConfig;
use crate::text::{
    all_digits, digits_value, has_prefix, is_digit, lemma_digits_value_grows, lines_of, split_chars, split_on,
    str_starts_with, string_from_chars, text_lines, trim_chars, trimmed,
};

verus! {

/// What `str::parse::<u64>` gives: an optional `+`, then at least one decimal
/// digit and nothing else, with the value in range.
pub open spec fn parse_u64_spec(s: Seq<char>) -> Option<u64> {
    let body = if s.len() > 0 && s[0] == '+' { s.drop_first() } else { s };
    if body.len() > 0 && all_digits(body) && digits_value(body) <= u64::MAX {
        Some(digits_value(body) as u64)
    } else {
        None
    }
}

/// Parses a decimal `u64` the way `str::parse::<u64>` does.
pub fn parse_u64(chars: &Vec<char>) -> (r: Option<u64>)
    ensures
        r == parse_u64_spec(chars@),
{
    let s = chars;
    let n = s.len();
    let start: usize = if n > 0 && s[0] == '+' { 1 } else { 0 };
    let ghost body = if n > 0 && s@[0] == '+' { s@.drop_first() } else { s@ };
    assert(body =~= s@.subrange(start as int, n as int));
    if start >= n {
        return None;
    }
    let limit: u128 = 18446744073709551615;
    let mut acc: u128 = 0;
    let mut i: usize = start;
    while i < n
        invariant
            s@ == chars@,
            n == s@.len(),
            start <= i <= n,
            body == s@.subrange(start as int, n as int),
            body == (if s@.len() > 0 && s@[0] == '+' { s@.drop_first() } else { s@ }),
            0 <= acc <= limit,
            limit == 18446744073709551615,
            acc == digits_value(body.subrange(0, i - start)),
            all_digits(body.subrange(0, i - start)),
        decreases n - i,
    {
        let c = s[i];
        if !('0' <= c && c <= '9') {
            assert(!is_digit(body[i - start]));
            assert(!all_digits(body));
            return None;
        }
        proof {
            assert(body.subrange(0, i + 1 - start).drop_last() =~= body.subrange(0, i - start));
            assert(body.subrange(0, i + 1 - start).last() == c);
            assert(all_digits(body.subrange(0, i + 1 - start)));
        }
        let d = (c as u32 - 48) as u128;
        acc = acc * 10 + d;
        i = i + 1;
        if acc > limit {
            proof {
                if all_digits(body) {
                    lemma_digits_value_grows(body, i - start);
                }
            }
            return None;
        }
    }
    assert(body.subrange(0, n - start) =~= body);
    Some(acc as u64)
}

/// A record of a forecast file's index: the variable, and where its bytes
/// lie in the file.
pub type IndexRecord = (Seq<char>, u64, u64);

/// What an index line gives: with at least six `|`-separated fields whose
/// second and third parse as `u64`, the fourth field with those two numbers.
pub open spec fn index_record(line: Seq<char>) -> Option<IndexRecord> {
    let p = split_on(line, '|');
    if p.len() >= 6 {
        match (parse_u64_spec(p[1]), parse_u64_spec(p[2])) {
            (Some(offset), Some(length)) => Some((p[3], offset, length)),
            _ => None,
        }
    } else {
        None
    }
}

/// The records of the lines `lines[0..n]`, in order.
pub open spec fn index_records(lines: Seq<Seq<char>>, n: int) -> Seq<IndexRecord>
    decreases n,
{
    if n <= 0 {
        Seq::empty()
    } else {
        let rest = index_records(lines, n - 1);
        match index_record(lines[n - 1]) {
            Some(r) => rest.push(r),
            None => rest,
        }
    }
}

/// The view of a record.
pub open spec fn record_view(r: (String, u64, u64)) -> IndexRecord {
    (r.0@, r.1, r.2)
}

fn record_of(line: &Vec<char>) -> (r: Option<(String, u64, u64)>)
    ensures
        match r {
            Some(x) => index_record(line@) == Some(record_view(x)),
            None => index_record(line@) is None,
        },
{
    let p = split_chars(line, '|');
    proof {
        assert(char_views(p@) =~= split_on(line@, '|'));
    }
    if p.len() < 6 {
        return None;
    }
    assert(p@[1]@ == split_on(line@, '|')[1]);
    assert(p@[2]@ == split_on(line@, '|')[2]);
    assert(p@[3]@ == split_on(line@, '|')[3]);
    match parse_u64(&p[1]) {
        Some(offset) => match parse_u64(&p[2]) {
            Some(length) => Some((string_from_chars(&p[3]), offset, length)),
            None => None,
        },
        None => None,
    }
}

/// One row of an ASCII grid: the texts of its latitude, longitude and value.
pub type GridRowView = (Seq<char>, Seq<char>, Seq<char>);

/// The rows of `lines[0..n]` and whether the grid header has been seen: a
/// trimmed line starting with `lat,lon,` opens the grid; after it, every
/// non-blank trimmed line with at least three comma-separated fields is a row.
pub open spec fn grid_scan(lines: Seq<Seq<char>>, n: int) -> (Seq<GridRowView>, bool)
    decreases n,
{
    if n <= 0 {
        (Seq::empty(), false)
    } else {
        let (rows, reading) = grid_scan(lines, n - 1);
        let t = trimmed(lines[n - 1]);
        if has_prefix(t, "lat,lon,"@) {
            (rows, true)
        } else if reading && t.len() > 0 && split_on(t, ',').len() >= 3 {
            let p = split_on(t, ',');
            (rows.push((p[0], p[1], p[2])), reading)
        } else {
            (rows, reading)
        }
    }
}

/// The view of a grid row.
pub open spec fn grid_row_view(r: (String, String, String)) -> GridRowView {
    (r.0@, r.1@, r.2@)
}

/// The global forecast source.
pub struct NoaaGfsSource {
    pub config: SourceConfig,
}

impl NoaaGfsSource {
    /// The source, named `noaa_gfs`, polled every 21600 seconds with a 30-second
    /// timeout and 3 retries.
    pub fn new() -> (s: NoaaGfsSource)
        ensures
            s.config.name@ == "noaa_gfs"@,
            s.config.url@ == "https://nomads.ncep.noaa.gov/cgi-bin/filter_gfs_0p25.pl"@,
            s.config.poll_interval_secs == 21600 && s.config.timeout == 30 && s.config.retries == 3,
    {
        NoaaGfsSource {
            config: SourceConfig {
                name: String::from_str("noaa_gfs"),
                url: String::from_str("https://nomads.ncep.noaa.gov/cgi-bin/filter_gfs_0p25.pl"),
                poll_interval_secs: 21600,
                timeout: 30,
                retries: 3,
            },
        }
    }

    /// The source's name.
    pub fn name(&self) -> (n: String)
        ensures
            n@ == self.config.name@,
    {
        self.config.name.clone()
    }

    /// Seconds between fetches.
    pub fn poll_interval(&self) -> (secs: u64)
        ensures
            secs == self.config.poll_interval_secs,
    {
        self.config.poll_interval_secs
    }

    /// The records of a forecast file's index, in order.
    pub fn parse_gfs_index(&self, index_data: &str) -> (r: Vec<(String, u64, u64)>)
        ensures
            r@.map_values(|x: (String, u64, u64)| record_view(x))
                == index_records(lines_of(index_data@), lines_of(index_data@).len() as int),
    {
        let lines = text_lines(index_data);
        let ghost ls = lines_of(index_data@);
        let mut out: Vec<(String, u64, u64)> = Vec::new();
        let mut i: usize = 0;
        while i < lines.len()
            invariant
                ls == lines_of(index_data@),
                lines@.map_values(|l: Vec<char>| l@) == ls,
                i <= lines@.len(),
                out@.map_values(|x: (String, u64, u64)| record_view(x)) == index_records(ls, i as int),
            decreases lines.len() - i,
        {
            assert(lines@[i as int]@ == ls[i as int]);
            let ghost before = out@;
            match record_of(&lines[i]) {
                Some(x) => {
                    out.push(x);
                    assert(out@.map_values(|x: (String, u64, u64)| record_view(x))
                        =~= before.map_values(|x: (String, u64, u64)| record_view(x)).push(record_view(x)));
                },
                None => {},
            }
            i = i + 1;
        }
        out
    }

    /// The rows of an ASCII grid after its `lat,lon,` header, in order.
    pub fn parse_ascii_grid(&self, ascii_data: &str) -> (r: Vec<(String, String, String)>)
        ensures
            r@.map_values(|x: (String, String, String)| grid_row_view(x))
                == grid_scan(lines_of(ascii_data@), lines_of(ascii_data@).len() as int).0,
    {
        let lines = text_lines(ascii_data);
        let ghost ls = lines_of(ascii_data@);
        let mut out: Vec<(String, String, String)> = Vec::new();
        let mut reading = false;
        let mut i: usize = 0;
        while i < lines.len()
            invariant
                ls == lines_of(ascii_data@),
                lines@.map_values(|l: Vec<char>| l@) == ls,
                i <= lines@.len(),
                out@.map_values(|x: (String, String, String)| grid_row_view(x)) == grid_scan(ls, i as int).0,
                reading == grid_scan(ls, i as int).1,
            decreases lines.len() - i,
        {
            assert(lines@[i as int]@ == ls[i as int]);
            let t = trim_chars(&lines[i]);
            let ts = string_from_chars(&t);
            let ghost before = out@;
            if str_starts_with(ts.as_str(), "lat,lon,") {
                reading = true;
            } else if reading && t.len() > 0 {
                let p = split_chars(&t, ',');
                proof {
                    assert(char_views(p@) =~= split_on(t@, ','));
                }
                if p.len() >= 3 {
                    assert(p@[0]@ == split_on(t@, ',')[0]);
                    assert(p@[1]@ == split_on(t@, ',')[1]);
                    assert(p@[2]@ == split_on(t@, ',')[2]);
                    let row = (string_from_chars(&p[0]), string_from_chars(&p[1]), string_from_chars(&p[2]));
                    out.push(row);
                    assert(out@.map_values(|x: (String, String, String)| grid_row_view(x))
                        =~= before.map_values(|x: (String, String, String)| grid_row_view(x)).push(grid_row_view(row)));
                }
            }
            i = i + 1;
        }
        out
    }
}

} // verus!

use vstd::prelude::*;

use crate::engine::Run;

verus! {

/// The run specification: target, request shape, pool size and budget.
/// Durations are in nanoseconds.
pub struct Cli {
    pub url: String,
    pub method: String,
    pub headers: Vec<(String, String)>,
    pub body_file: Option<String>,
    /// Number of workers; at least one.
    pub concurrency: usize,
    /// Largest number of requests to send, if capped; at least one.
    pub requests: Option<usize>,
    /// How long requests may keep being dispatched, if limited.
    pub duration: Option<u64>,
    /// Time each request is given before it fails.
    pub timeout: u64,
    pub output: String,
    pub output_format: String,
}

/// Where the results of a run are written.
#[derive(PartialEq, Eq, Structural, Clone, Copy, Debug)]
pub enum OutputFormat {
    Json,
    Csv,
}

impl Cli {
    /// The shared state of a run under this specification: capped by
    /// `requests`, with its deadline `duration` after the start.
    pub fn start_run(&self) -> (r: Run)
        ensures
            r.wf(),
            r.admitted == 0,
            r.sink@.len() == 0,
            r.gate.deadline == self.duration,
            match self.requests {
                Some(n) => r.gate.max_requests == Some(n as u64),
                None => r.gate.max_requests.is_none(),
            },
    {
        let cap: Option<u64> = match self.requests {
            Some(n) => Some(n as u64),
            None => None,
        };
        Run::new(cap, self.duration)
    }

    /// `csv` selects the CSV files; any other name selects JSON.
    pub fn format(&self) -> (r: OutputFormat)
        ensures
            r == (if self.output_format@ == "csv"@ {
                OutputFormat::Csv
            } else {
                OutputFormat::Json
            }),
    {
        let csv = "csv".to_owned();
        proof {
            reveal_strlit("csv");
        }
        if self.output_format == csv {
            OutputFormat::Csv
        } else {
            OutputFormat::Json
        }
    }
}

/// `key` and `value` are the text before and after the first `:` of `s`.
pub open spec fn splits_at_first_colon(s: Seq<char>, key: Seq<char>, value: Seq<char>) -> bool {
    &&& s == key + seq![':'] + value
    &&& !key.contains(':')
}

/// What `str::trim` leaves of a text.
pub uninterp spec fn trimmed(s: Seq<char>) -> Seq<char>;

/// Relies on `str::split_once`: splits on the first occurrence of the
/// delimiter, or gives `None` when it does not occur.
#[verifier::external_body]
fn split_at_colon(s: &str) -> (r: Option<(&str, &str)>)
    ensures
        r.is_none() <==> !s@.contains(':'),
        r matches Some(p) ==> splits_at_first_colon(s@, p.0@, p.1@),
{
    s.split_once(':')
}

/// Relies on `str::trim`: the text without leading and trailing whitespace.
#[verifier::external_body]
fn trim(s: &str) -> (r: &str)
    ensures
        r@ == trimmed(s@),
{
    s.trim()
}

/// Reads a header given as `Key: Value`: the trimmed text before the first
/// colon and the trimmed text after it.
pub fn parse_header(raw: &str) -> (r: Result<(String, String), String>)
    ensures
        r.is_err() <==> !raw@.contains(':'),
        r matches Err(e) ==> e@ == "Header must be 'Key: Value'"@,
        r matches Ok(h) ==> exists|k: Seq<char>, v: Seq<char>|
            splits_at_first_colon(raw@, k, v) && h.0@ == trimmed(k) && h.1@ == trimmed(v),
{
    match split_at_colon(raw) {
        Some((k, v)) => {
            let key = trim(k).to_owned();
            let value = trim(v).to_owned();
            Ok((key, value))
        },
        None => {
            proof {
                reveal_strlit("Header must be 'Key: Value'");
            }
            Err("Header must be 'Key: Value'".to_owned())
        },
    }
}

} // verus!

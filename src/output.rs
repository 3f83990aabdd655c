use vstd::prelude::*;

verus! {

/// Writes the summary and the samples of a run as one JSON document at `path`.
pub struct JsonSink {
    pub path: String,
}

impl JsonSink {
    pub fn new(p: &str) -> (r: JsonSink)
        ensures
            r.path@ == p@,
    {
        JsonSink { path: p.to_owned() }
    }
}

/// Writes the summary and the samples of a run as two CSV files named after
/// `base`, with the extensions `summary.csv` and `samples.csv`.
pub struct CsvSink {
    pub base: String,
}

impl CsvSink {
    pub fn new(p: &str) -> (r: CsvSink)
        ensures
            r.base@ == p@,
    {
        CsvSink { base: p.to_owned() }
    }
}

} // verus!

//! Entries of a reranking dataset.

use vstd::prelude::*;

verus! {

/// A query with documents known to be relevant (`positive`) and irrelevant
/// (`negative`) to it.
#[derive(Debug, Clone)]
pub struct DataEntry {
    pub query: String,
    pub positive: Vec<String>,
    pub negative: Vec<String>,
}

impl DataEntry {
    /// The query and its documents, positive ones first, each in dataset order.
    pub fn to_rerank_input<'a>(&'a self) -> (r: (&'a str, Vec<&'a str>))
        ensures
            r.0@ == self.query@,
            r.1@.len() == self.positive@.len() + self.negative@.len(),
            forall|i: int| 0 <= i < self.positive@.len() ==> #[trigger] r.1@[i]@ == self.positive@[i]@,
            forall|i: int|
                0 <= i < self.negative@.len() ==> #[trigger] r.1@[self.positive@.len() + i]@
                    == self.negative@[i]@,
    {
        let mut docs: Vec<&'a str> = Vec::new();
        let np = self.positive.len();
        for i in 0..np
            invariant
                np == self.positive@.len(),
                docs@.len() == i,
                forall|j: int| 0 <= j < i ==> #[trigger] docs@[j]@ == self.positive@[j]@,
        {
            docs.push(self.positive[i].as_str());
        }
        let nn = self.negative.len();
        for i in 0..nn
            invariant
                np == self.positive@.len(),
                nn == self.negative@.len(),
                docs@.len() == np + i,
                forall|j: int| 0 <= j < np ==> #[trigger] docs@[j]@ == self.positive@[j]@,
                forall|j: int| 0 <= j < i ==> #[trigger] docs@[np + j]@ == self.negative@[j]@,
        {
            docs.push(self.negative[i].as_str());
        }
        (self.query.as_str(), docs)
    }
}

/// Errors of the latency benchmark over a dataset.
#[derive(Debug, Clone)]
pub enum BenchmarkError {
    /// A dataset line is not a valid entry.
    Serde(String),
    /// The dataset or the model files could not be read.
    IO(String),
    /// The cross-encoder failed.
    CrossEncoder(String),
    /// The command line is wrong.
    CliArgs(String),
}

impl BenchmarkError {
    /// The text of an error: a prefix naming its kind, then its detail.
    pub fn message(&self) -> (m: String)
        ensures
            m@ == match self {
                BenchmarkError::Serde(s) => "SerDe error: "@ + s@,
                BenchmarkError::IO(s) => "IO error: "@ + s@,
                BenchmarkError::CrossEncoder(s) => "CrossEncoder error: "@ + s@,
                BenchmarkError::CliArgs(s) => "Incorrect CLI input: "@ + s@,
            },
    {
        match self {
            BenchmarkError::Serde(s) => String::from_str("SerDe error: ").concat(s.as_str()),
            BenchmarkError::IO(s) => String::from_str("IO error: ").concat(s.as_str()),
            BenchmarkError::CrossEncoder(s) => String::from_str("CrossEncoder error: ").concat(s.as_str()),
            BenchmarkError::CliArgs(s) => String::from_str("Incorrect CLI input: ").concat(s.as_str()),
        }
    }
}

} // verus!

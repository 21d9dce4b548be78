use vstd::prelude::*;

verus! {

/// Why a metrics operation failed.
#[derive(Debug)]
pub enum Error {
    InvalidMetric(String),
    FailedToStartServer(String),
}

/// The three kinds of metric a reporter knows.
#[derive(Debug, PartialEq, Eq, Structural, Clone, Copy)]
pub enum MetricKind {
    Histogram,
    Gauge,
    Counter,
}

/// A reporter that records nothing and never fails.
pub struct DummyReporter {}

impl DummyReporter {
    /// Starting does nothing and succeeds.
    pub fn start(&mut self) -> (r: Result<(), Error>)
        ensures
            r is Ok,
    {
        Ok(())
    }

    /// Shutting down does nothing and succeeds.
    pub fn shutdown(&mut self) -> (r: Result<(), Error>)
        ensures
            r is Ok,
    {
        Ok(())
    }

    /// Counting records nothing and succeeds.
    pub fn inc_counter(&self, name: &str, labels: &[&str]) -> (r: Result<(), Error>)
        ensures
            r is Ok,
    {
        Ok(())
    }
}

} // verus!

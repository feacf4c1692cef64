//! The options the command line takes.
use vstd::prelude::*;
use vstd::string::StringExecFns;

verus! {

/// Options of one run of the dumper.
pub struct Args {
    /// The payload: a `.bin` or `.zip` file, or an `http(s)://` URL.
    pub payload_path: std::path::PathBuf,
    /// Directory the images are written to ("-" for standard output where
    /// that makes sense).
    pub out: std::path::PathBuf,
    pub user_agent: Option<String>,
    pub cookies: Option<String>,
    /// Comma-separated names of the partitions to extract; all when empty.
    pub images: String,
    pub threads: Option<usize>,
    pub list: bool,
    /// Metadata mode: "compact" or "full", when metadata is asked for.
    pub metadata: Option<String>,
    pub no_parallel: bool,
    /// Skip checking the extracted images against their hashes.
    pub skip_verification: bool,
    pub prefetch: bool,
    pub quiet: bool,
}

/// Calls `num_cpus::get`, documented to return the number of CPUs available
/// to the process, always at least one.
#[verifier::external_body]
fn available_cpus() -> (r: usize)
    ensures
        r >= 1,
{
    num_cpus::get()
}

impl Args {
    /// The number of extraction threads on a machine with `cpus` CPUs: one
    /// when parallel extraction is off, else the number asked for, else one
    /// per CPU.
    pub fn thread_count_for(&self, cpus: usize) -> (r: usize)
        ensures
            r == if self.no_parallel {
                1
            } else {
                match self.threads {
                    Some(t) => t,
                    None => cpus,
                }
            },
    {
        if self.no_parallel {
            1
        } else {
            match self.threads {
                Some(t) => t,
                None => cpus,
            }
        }
    }

    /// The number of extraction threads on this machine.
    pub fn thread_count(&self) -> (r: usize)
        ensures
            self.no_parallel ==> r == 1,
            !self.no_parallel && self.threads is Some ==> r == self.threads.unwrap(),
            !self.no_parallel && self.threads is None ==> r >= 1,
    {
        let cpus = available_cpus();
        self.thread_count_for(cpus)
    }

    /// Whether the metadata asked for is the full kind (`--metadata=full`).
    pub fn full_metadata(&self) -> (r: bool)
        ensures
            r == (self.metadata is Some && self.metadata.unwrap()@ == "full"@),
    {
        match &self.metadata {
            Some(m) => {
                let full = String::from_str("full");
                *m == full
            },
            None => false,
        }
    }
}

} // verus!

use vstd::prelude::*;

verus! {

/// Subcommands of the program.
#[derive(Debug)]
pub enum Commands {
    /// Launch the viewer window.
    Ui,
    /// Set the applied flag of one stored job.
    Mark { job_id: String, status: bool },
}

/// Command-line arguments.
#[derive(Debug)]
pub struct CliArgs {
    pub command: Option<Commands>,
    pub src: Option<String>,
    pub dest: Option<String>,
    pub db: Option<String>,
    pub linkedin_api_key: Option<String>,
}

/// Source, destination and store paths.
pub struct PathSet {
    pub source_dir: String,
    pub destination_dir: String,
    pub db_path: String,
}

impl CliArgs {
    /// The three paths, where all of them were given; otherwise the
    /// configured defaults apply.
    pub fn explicit_paths(&self) -> (r: Option<PathSet>)
        ensures
            match r {
                Some(p) => self.src is Some && self.dest is Some && self.db is Some
                    && p.source_dir@ == self.src->0@ && p.destination_dir@ == self.dest->0@
                    && p.db_path@ == self.db->0@,
                None => self.src is None || self.dest is None || self.db is None,
            },
    {
        match (&self.src, &self.dest, &self.db) {
            (Some(s), Some(d), Some(b)) => Some(
                PathSet { source_dir: s.clone(), destination_dir: d.clone(), db_path: b.clone() },
            ),
            _ => None,
        }
    }
}

} // verus!

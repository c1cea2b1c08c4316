use vstd::prelude::*;

use std::collections::HashMap;

verus! {

/// Partition counts of a stage's input and output.
#[derive(Clone, Copy, Debug, PartialEq, Eq, Structural)]
pub struct Partitions {
    pub input: Option<usize>,
    pub output: Option<usize>,
}

impl Partitions {
    pub fn new(input: Option<usize>, output: Option<usize>) -> (r: Partitions)
        ensures
            r.input == input,
            r.output == output,
    {
        Partitions { input, output }
    }
}

/// What a stage records of the table it produced.
#[derive(Clone, Copy, Debug, PartialEq, Eq, Structural)]
pub struct Statistics {
    pub row_count: Option<usize>,
    pub total_byte_size: Option<usize>,
    pub partitions: Option<Partitions>,
}

impl Statistics {
    /// The statistics of a plan whose engine reported `num_rows` rows and
    /// `total_byte_size` bytes; none when the row count is unknown.
    pub fn new(num_rows: Option<usize>, total_byte_size: Option<usize>, partitions: Option<
        Partitions,
    >) -> (r: Option<Statistics>)
        ensures
            r == (match num_rows {
                None => None,
                Some(_) => Some(
                    Statistics { row_count: num_rows, total_byte_size, partitions },
                ),
            }),
    {
        match num_rows {
            None => None,
            Some(_) => Some(Statistics { row_count: num_rows, total_byte_size, partitions }),
        }
    }
}

/// The default of a flag that is on unless the configuration says otherwise.
pub fn default_true() -> (r: bool)
    ensures
        r,
{
    true
}

/// The default of a flag that is off unless the configuration says otherwise.
pub fn default_false() -> (r: bool)
    ensures
        !r,
{
    false
}

/// Collects the names of the tables that a query plan scans.
pub struct LineageVisitor {
    /// Whether each name is printed as it is found.
    pub print: bool,
    /// The scanned table names, in the order of the visit.
    pub table_scan: Vec<String>,
}

impl LineageVisitor {
    pub fn new(print: bool) -> (r: LineageVisitor)
        ensures
            r.print == print,
            r.table_scan@.len() == 0,
    {
        LineageVisitor { print, table_scan: Vec::new() }
    }

    /// Records a table scan of `table_name`; the result says whether the
    /// name is to be printed.
    pub fn visit_table_scan(&mut self, table_name: String) -> (r: bool)
        ensures
            final(self).table_scan@ == old(self).table_scan@.push(table_name),
            final(self).print == old(self).print,
            r == old(self).print,
    {
        self.table_scan.push(table_name);
        self.print
    }
}

/// The context of a pipeline run: the job, the library version, and the
/// parameters that placeholders may name.
#[derive(Clone)]
pub struct BoxContext {
    pub job_path: Option<String>,
    pub version: String,
    pub commandline_arguments: Option<HashMap<String, String>>,
    pub environment_variables: HashMap<String, String>,
}

impl BoxContext {
    /// A context for `job_path` with the given command-line arguments and
    /// the process's environment variables.
    pub fn new(
        job_path: Option<String>,
        commandline_arguments: Option<HashMap<String, String>>,
        environment_variables: HashMap<String, String>,
    ) -> (r: BoxContext)
        ensures
            r.job_path == job_path,
            r.commandline_arguments == commandline_arguments,
            r.environment_variables == environment_variables,
            r.version@ == "0.1.0"@,
    {
        BoxContext { job_path, version: "0.1.0".to_string(), commandline_arguments, environment_variables }
    }
}

} // verus!

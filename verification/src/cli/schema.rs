//! The `schema` subcommand's decisions: where the configuration's JSON
//! Schema goes (standard output, the project's `vbumpprc.schema.json`, or
//! `schema.json` in the global directory) and the lines it prints.

use vstd::prelude::*;
use crate::cli::parse::SchemaArgs;
use crate::text::{owned, push_str};

verus! {

/// Where the schema goes.
#[derive(Debug, PartialEq, Eq)]
pub enum SchemaTarget {
    /// Printed alone on standard output (nothing else is printed).
    Print,
    /// Written to the file `name` in the working directory.
    Project { name: String },
    /// Written to the file `name` in the global directory.
    Global { name: String },
}

/// The project's schema file name.
pub open spec fn project_schema_file() -> Seq<char> {
    "vbumpprc.schema.json"@
}

/// The global schema file name.
pub open spec fn global_schema_file() -> Seq<char> {
    "schema.json"@
}

/// Without `--write` the schema is printed; with it, it is written to the
/// global directory for `--global`, else to the project.
pub fn schema_target(args: SchemaArgs) -> (r: SchemaTarget)
    ensures
        !args.write ==> r is Print,
        args.write && args.global ==> (r matches SchemaTarget::Global { name } && name@ == global_schema_file()),
        args.write && !args.global ==> (r matches SchemaTarget::Project { name } && name@ == project_schema_file()),
{
    if !args.write {
        SchemaTarget::Print
    } else if args.global {
        SchemaTarget::Global { name: owned("schema.json") }
    } else {
        SchemaTarget::Project { name: owned("vbumpprc.schema.json") }
    }
}

/// The success line once the schema is written to the file shown as `shown`.
pub fn schema_written_message(shown: &str) -> (r: String)
    ensures
        r@ == "schema written to "@ + shown@,
{
    let mut m = owned("schema written to ");
    push_str(&mut m, shown);
    m
}

/// The error when the directory shown as `shown` cannot be made (`cause`
/// is the system's reason).
pub fn schema_dir_failed(shown: &str, cause: &str) -> (r: String)
    ensures
        r@ == "failed to create directory "@ + shown@ + ": "@ + cause@,
{
    let mut m = owned("failed to create directory ");
    push_str(&mut m, shown);
    push_str(&mut m, ": ");
    push_str(&mut m, cause);
    m
}

/// The error when the schema file shown as `shown` cannot be written.
pub fn schema_write_failed(shown: &str, cause: &str) -> (r: String)
    ensures
        r@ == "failed to write schema file "@ + shown@ + ": "@ + cause@,
{
    let mut m = owned("failed to write schema file ");
    push_str(&mut m, shown);
    push_str(&mut m, ": ");
    push_str(&mut m, cause);
    m
}

/// The error when `--global` is asked and no global directory is known.
pub fn no_global_home_message() -> (r: String)
    ensures
        r@ == "cannot resolve the global vbumpp home directory"@,
{
    owned("cannot resolve the global vbumpp home directory")
}

} // verus!

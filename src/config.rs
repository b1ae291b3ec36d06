use vstd::prelude::*;

verus! {

/// The settings of one run.
pub struct Config {
    /// Where the database is.
    pub database_url: String,
    /// A list of tags to keep; read from the settings but not applied.
    pub only_these_tags: Option<Vec<String>>,
    /// The table that receives the post-tag rows.
    pub destination_table_name: String,
    /// Whether an existing destination table may be dropped and made anew.
    pub allow_drop_destination_table: bool,
}

/// How the destination table is made ready before the rows go in.
#[derive(Clone, Copy, Debug, PartialEq, Eq, Structural)]
pub enum DestinationStep {
    /// Drop the table if it is there, then create it.
    DropThenCreate,
    /// Create the table; it is known not to be there.
    Create,
}

/// Why a run stops before touching the destination table.
#[derive(Clone, Copy, Debug, PartialEq, Eq, Structural)]
pub enum SetupError {
    /// The destination table is there and dropping it is not allowed.
    DestinationExists,
}

impl SetupError {
    /// The message reported for this error.
    pub fn message(&self) -> (r: &'static str)
        ensures
            *self == SetupError::DestinationExists ==> r@
                == "The destination table already exists. Refusing to work."@,
    {
        match self {
            SetupError::DestinationExists => "The destination table already exists. Refusing to work.",
        }
    }
}

/// Decides how to prepare the destination table. `table_exists` is whether the
/// table is there; it is only read when dropping is not allowed. A second run
/// into a filled table is refused unless dropping is allowed, so rows are never
/// added twice.
pub fn destination_step(config: &Config, table_exists: bool) -> (r: Result<DestinationStep, SetupError>)
    ensures
        config.allow_drop_destination_table ==> r == Ok::<DestinationStep, SetupError>(DestinationStep::DropThenCreate),
        !config.allow_drop_destination_table && table_exists ==> r == Err::<DestinationStep, SetupError>(SetupError::DestinationExists),
        !config.allow_drop_destination_table && !table_exists ==> r == Ok::<DestinationStep, SetupError>(DestinationStep::Create),
{
    if config.allow_drop_destination_table {
        Ok(DestinationStep::DropThenCreate)
    } else if table_exists {
        Err(SetupError::DestinationExists)
    } else {
        Ok(DestinationStep::Create)
    }
}

} // verus!

//! The errors that the browser reports to its user.

use vstd::prelude::*;
use crate::text::push_str;

verus! {

/// Everything that can go wrong while browsing. The variants that come
/// from a library underneath (the database, files, the configuration
/// format, HTTP, the environment) carry that library's own description
/// of the failure.
#[derive(Debug)]
pub enum FurbrowserError {
    SQL(String),
    IO(String),
    TOML(String),
    HTTP(String),
    Environment(String),
    SyncSQLFetch,
    Readline,
    NoSuchProfile,
    NoValidHome,
    MissingQuery,
}

/// Results of the browser's operations.
pub type FurbrowserResult<T> = Result<T, FurbrowserError>;

impl FurbrowserError {
    /// The message shown to the user for the error.
    pub open spec fn message(&self) -> Seq<char> {
        match self {
            FurbrowserError::SQL(e) => "Error running SQL query: "@ + e@,
            FurbrowserError::Environment(e) => "Error with environment variable: "@ + e@,
            FurbrowserError::IO(e) => "Error with I/O: "@ + e@,
            FurbrowserError::TOML(e) => "Error decoding TOML data: "@ + e@,
            FurbrowserError::HTTP(e) => "Error running HTTP request: "@ + e@,
            FurbrowserError::SyncSQLFetch => "Error processing SQL data"@,
            FurbrowserError::Readline => "Error reading line"@,
            FurbrowserError::NoSuchProfile => "No such profile defined in the configuration file"@,
            FurbrowserError::NoValidHome => "Could not find the current user's home directory"@,
            FurbrowserError::MissingQuery =>
                "Either 'query' or 'queries' needs to be defined in the profile"@,
        }
    }

    /// The message shown to the user for the error.
    pub fn to_string(&self) -> (s: String)
        ensures
            s@ == self.message(),
    {
        match self {
            FurbrowserError::SQL(e) => {
                let mut s = String::from_str("Error running SQL query: ");
                push_str(&mut s, e.as_str());
                s
            },
            FurbrowserError::Environment(e) => {
                let mut s = String::from_str("Error with environment variable: ");
                push_str(&mut s, e.as_str());
                s
            },
            FurbrowserError::IO(e) => {
                let mut s = String::from_str("Error with I/O: ");
                push_str(&mut s, e.as_str());
                s
            },
            FurbrowserError::TOML(e) => {
                let mut s = String::from_str("Error decoding TOML data: ");
                push_str(&mut s, e.as_str());
                s
            },
            FurbrowserError::HTTP(e) => {
                let mut s = String::from_str("Error running HTTP request: ");
                push_str(&mut s, e.as_str());
                s
            },
            FurbrowserError::SyncSQLFetch => String::from_str("Error processing SQL data"),
            FurbrowserError::Readline => String::from_str("Error reading line"),
            FurbrowserError::NoSuchProfile => String::from_str(
                "No such profile defined in the configuration file",
            ),
            FurbrowserError::NoValidHome => String::from_str(
                "Could not find the current user's home directory",
            ),
            FurbrowserError::MissingQuery => String::from_str(
                "Either 'query' or 'queries' needs to be defined in the profile",
            ),
        }
    }
}

/// The value of the first row of a query's result: a missing row is
/// `SyncSQLFetch`, and a failure to read the row is passed on.
pub fn first_row<T>(row: Option<FurbrowserResult<T>>) -> (r: FurbrowserResult<T>)
    ensures
        row is None ==> r == Err::<T, FurbrowserError>(FurbrowserError::SyncSQLFetch),
        row is Some ==> r == row->0,
{
    match row {
        Some(r) => r,
        None => Err(FurbrowserError::SyncSQLFetch),
    }
}

} // verus!

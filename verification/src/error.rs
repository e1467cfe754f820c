//! The closed error vocabulary shared by all traversal, mapping and
//! descriptor-table operations.

use vstd::prelude::*;

verus! {

/// Errors that can occur during paging operations
#[derive(Debug, Clone, Copy, PartialEq, Eq, Structural)]
pub enum PagingError {
    /// The table is not a root table
    NotRootTable,
    /// The table is full
    TableFull,
    /// There is no mapping to this entry
    NoMapping,
    /// This entry contains memory block and not a table
    NotATable,
    /// Invalid address alignment
    InvalidAlignment,
    /// Out of memory
    OutOfMemory,
}

impl PagingError {
    /// The fixed description of each variant.
    pub open spec fn message_spec(self) -> Seq<char> {
        match self {
            PagingError::NotRootTable => "The table is not a root table"@,
            PagingError::TableFull => "The table is full"@,
            PagingError::NoMapping => "There is no mapping to this entry"@,
            PagingError::NotATable => "This entry contains memory block and not a table"@,
            PagingError::InvalidAlignment => "Invalid address alignment"@,
            PagingError::OutOfMemory => "Out of memory"@,
        }
    }

    /// A human-readable description of the error.
    pub fn message(self) -> (r: &'static str)
        ensures
            r@ == self.message_spec(),
    {
        match self {
            Self::NotRootTable => "The table is not a root table",
            Self::TableFull => "The table is full",
            Self::NoMapping => "There is no mapping to this entry",
            Self::NotATable => "This entry contains memory block and not a table",
            Self::InvalidAlignment => "Invalid address alignment",
            Self::OutOfMemory => "Out of memory",
        }
    }
}

/// Alias for Result with PagingError
pub type PagingResult<T> = Result<T, PagingError>;

} // verus!

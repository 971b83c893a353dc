//! Records kept in the write-ahead log.
use vstd::prelude::*;

verus! {

/// One logged operation.
#[derive(Debug, Clone)]
pub enum WalEntry {
    /// Insert operation
    Insert { table: String, data: Vec<u8> },
    /// Delete operation
    Delete { table: String, id: String },
    /// Update operation
    Update { table: String, id: String, data: Vec<u8> },
}

impl WalEntry {
    /// The table the operation applies to.
    pub fn table(&self) -> (t: &String)
        ensures
            t@ == match self {
                WalEntry::Insert { table, .. } => table@,
                WalEntry::Delete { table, .. } => table@,
                WalEntry::Update { table, .. } => table@,
            },
    {
        match self {
            WalEntry::Insert { table, .. } => table,
            WalEntry::Delete { table, .. } => table,
            WalEntry::Update { table, .. } => table,
        }
    }
}

} // verus!

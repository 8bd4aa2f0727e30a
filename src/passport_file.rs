//! Files uploaded to the passport service.
use vstd::prelude::*;

verus! {

/// A file uploaded to the passport service, in encrypted form.
#[derive(Clone, Debug, PartialEq, Eq, Hash)]
pub struct PassportFile {
    /// Identifier for this file, which can be used to download or reuse it.
    pub file_id: String,
    /// Identifier for this file that stays the same over time and for
    /// different bots; it cannot be used to download or reuse the file.
    pub file_unique_id: String,
    /// File size in bytes.
    pub file_size: u64,
    /// Unix time when the file was uploaded.
    pub file_date: u64,
}

} // verus!

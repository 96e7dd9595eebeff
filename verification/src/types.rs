//! Shared value types: metadata cell values and the host error taxonomy.

use vstd::prelude::*;

verus! {

/// One metadata cell value, as stored into the pending row of a job.
///
/// Floating-point cells are carried as the raw bit pattern of the 64-bit
/// value; the unverified shell converts to and from `f64` at the process
/// boundary.
#[derive(Debug)]
pub enum DataValue {
    StringValue(String),
    Int64Value(i64),
    Float64Bits(u64),
    NoneValue,
}

impl DataValue {
    /// A copy of this value.
    pub fn duplicate(&self) -> (r: DataValue)
        ensures
            r == *self,
    {
        match self {
            DataValue::StringValue(s) => DataValue::StringValue(s.clone()),
            DataValue::Int64Value(v) => DataValue::Int64Value(*v),
            DataValue::Float64Bits(b) => DataValue::Float64Bits(*b),
            DataValue::NoneValue => DataValue::NoneValue,
        }
    }
}

/// One cell of a flushed metadata row: the schema name, the column name,
/// and the stored value (or the none default).
pub struct RowCell {
    pub schema: String,
    pub column: String,
    pub value: DataValue,
}

/// Everything that can fail a single job or a single host call.
///
/// Failures are per-job: the engine reports them in the job's result and
/// keeps running other jobs.
#[derive(Debug)]
pub enum HostError {
    /// A carve's window does not fit inside its parent blob.
    CarveOutOfBounds,
    /// A guest pointer/length pair does not fit in the guest's linear memory.
    MemoryRangeOutOfBounds,
    /// An output descriptor does not address an existing output buffer.
    BadOutputFd,
    /// A byte range handed by the guest is not valid UTF-8.
    InvalidUtf8,
    /// A metadata call referred to a schema id that was never interned.
    SchemaIndexNotFound,
    /// A schema id or column id would exceed the 32-bit id space.
    TableFull,
    /// More output buffers than output descriptors can address.
    TooManyOutputs,
    /// A length or offset does not fit in the host's address space.
    SizeOverflow,
    /// The guest attempted to grow its linear memory beyond the per-job cap.
    MemoryLimitExceeded,
    /// The guest attempted to grow its function table beyond the per-job cap.
    TableLimitExceeded,
    /// The guest reported an error message through the ABI.
    GuestError(String),
    /// A cache file's engine fingerprint does not match the running engine.
    CacheEngineMismatch,
    /// A cache file's recorded modification time does not match the module.
    CacheModifiedMismatch,
    /// Freshly drawn job ids collided; the batch cannot be used.
    IdCollision,
    /// A seek computed a position outside the representable range.
    SeekOutOfRange,
}

} // verus!

//! Guest-side convenience bindings over the host ABI.
//!
//! Inside the sandbox these types wrap the raw ABI imports with
//! positioned reads, writes and seeks. Here they are written against the
//! host [`Context`] directly — the same calls the ABI makes — so the
//! position arithmetic and its error cases are verified once and exercised
//! natively.

use vstd::prelude::*;
use crate::blob::read_window;
use crate::context::{Context, cols_of, row_of, splice_zero_fill};
use crate::schema::intern_id;
use crate::types::{DataValue, HostError, RowCell};

verus! {

/// A seek target: from the start, from the end, or from the current
/// position.
pub enum SeekFrom {
    Start(u64),
    End(i64),
    Current(i64),
}

/// The position a seek resolves to, when it resolves: `base + delta`,
/// which must be representable and not negative.
pub open spec fn seek_target(base: int, delta: int) -> Option<u64> {
    if base + delta < 0 || base + delta > u64::MAX {
        None
    } else {
        Some((base + delta) as u64)
    }
}

fn resolve_seek(base: u64, delta: i64) -> (r: Result<u64, HostError>)
    ensures
        r is Ok <==> seek_target(base as int, delta as int) is Some,
        r matches Ok(p) ==> Some(p) == seek_target(base as int, delta as int),
        r matches Err(e) ==> e is SeekOutOfRange,
{
    let target: i128 = base as i128 + delta as i128;
    if target < 0 || target > u64::MAX as i128 {
        Err(HostError::SeekOutOfRange)
    } else {
        Ok(target as u64)
    }
}

/// A positioned reader over the job's input blob.
pub struct WadupInput {
    /// The current read position.
    pub pos: u64,
    /// The input's length, captured at creation.
    pub len: u64,
}

impl WadupInput {
    /// A reader over the job's input, positioned at the start.
    pub fn new(ctx: &Context) -> (r: WadupInput)
        requires
            ctx.wf(),
        ensures
            r.pos == 0,
            r.len == ctx.input_bytes().len(),
    {
        WadupInput { pos: 0, len: ctx.input_len() }
    }

    /// Reads up to `length` bytes at the current position and advances
    /// the position by the bytes actually read; a read at or past the end
    /// yields zero bytes and does not move.
    pub fn read(&mut self, ctx: &Context, length: u32) -> (r: Vec<u8>)
        requires
            ctx.wf(),
        ensures
            r@ == read_window(ctx.input_bytes(), old(self).pos as int, length as int),
            final(self).pos == old(self).pos + r@.len(),
            final(self).len == old(self).len,
    {
        let bytes = ctx.input_read(self.pos, length);
        proof {
            ctx.lemma_sizes_bounded();
            if old(self).pos <= ctx.input_bytes().len() {
                assert(bytes@.len() <= ctx.input_bytes().len() - old(self).pos);
            } else {
                assert(bytes@.len() == 0);
            }
        }
        self.pos = self.pos + bytes.len() as u64;
        bytes
    }

    /// Requests a carve of the input window `[offset, offset + length)`.
    pub fn carve(ctx: &mut Context, offset: u64, length: u64) -> (r: Result<(), HostError>)
        requires
            old(ctx).wf(),
        ensures
            final(ctx).wf(),
            r is Ok <==> offset + length <= old(ctx).input_bytes().len(),
            r is Ok ==> final(ctx).carve_requests().len() == old(ctx).carve_requests().len() + 1,
            r is Ok ==> final(ctx).carve_requests().last()@ == old(ctx).input_bytes().subrange(
                offset as int,
                offset + length,
            ),
            r is Err ==> *final(ctx) == *old(ctx),
    {
        ctx.input_carve(offset, length)
    }

    /// Moves the read position: to `v`, to `len + v`, or to `pos + v`.
    /// Fails exactly when the target is negative or not representable,
    /// leaving the position unchanged.
    pub fn seek(&mut self, pos: SeekFrom) -> (r: Result<u64, HostError>)
        ensures
            final(self).len == old(self).len,
            r matches Ok(p) ==> final(self).pos == p && Some(p) == (match pos {
                SeekFrom::Start(v) => Some(v),
                SeekFrom::End(v) => seek_target(old(self).len as int, v as int),
                SeekFrom::Current(v) => seek_target(old(self).pos as int, v as int),
            }),
            r is Err ==> *final(self) == *old(self),
            r is Ok <==> (match pos {
                SeekFrom::Start(_) => true,
                SeekFrom::End(v) => seek_target(old(self).len as int, v as int) is Some,
                SeekFrom::Current(v) => seek_target(old(self).pos as int, v as int) is Some,
            }),
            r matches Err(e) ==> e is SeekOutOfRange,
    {
        match pos {
            SeekFrom::Start(v) => {
                self.pos = v;
                Ok(v)
            },
            SeekFrom::End(v) => {
                let p = resolve_seek(self.len, v)?;
                self.pos = p;
                Ok(p)
            },
            SeekFrom::Current(v) => {
                let p = resolve_seek(self.pos, v)?;
                self.pos = p;
                Ok(p)
            },
        }
    }
}

/// A positioned reader and writer over one output buffer of the job.
pub struct WadupOutput {
    /// The output's descriptor.
    pub fd: i32,
    /// The current read/write position.
    pub pos: u64,
}

impl WadupOutput {
    /// Allocates a fresh output buffer and positions at its start.
    pub fn new(ctx: &mut Context) -> (r: Result<WadupOutput, HostError>)
        requires
            old(ctx).wf(),
        ensures
            final(ctx).wf(),
            r is Ok <==> old(ctx).outputs().len() <= i32::MAX,
            r matches Ok(o) ==> o.fd == old(ctx).outputs().len() && o.pos == 0
                && final(ctx).outputs() == old(ctx).outputs().push(Seq::empty()),
            r is Err ==> *final(ctx) == *old(ctx),
    {
        let fd = ctx.output_create()?;
        Ok(WadupOutput { fd, pos: 0 })
    }

    /// Current length of the output buffer.
    pub fn len(&self, ctx: &Context) -> (r: u64)
        requires
            ctx.wf(),
            0 <= self.fd < ctx.outputs().len(),
        ensures
            r == ctx.outputs()[self.fd as int].len(),
    {
        match ctx.output_len(self.fd) {
            Ok(n) => n,
            Err(_) => unreached(),
        }
    }

    /// Writes `buf` at the current position, growing the buffer and
    /// zero-filling any gap, and advances the position by `buf.len()`.
    pub fn write(&mut self, ctx: &mut Context, buf: &[u8]) -> (r: Result<usize, HostError>)
        requires
            old(ctx).wf(),
            0 <= old(self).fd < old(ctx).outputs().len(),
        ensures
            final(ctx).wf(),
            final(self).fd == old(self).fd,
            r is Ok <==> old(self).pos + buf@.len() <= usize::MAX,
            r matches Ok(n) ==> n == buf@.len() && final(self).pos == old(self).pos + buf@.len()
                && final(ctx).outputs() == old(ctx).outputs().update(
                old(self).fd as int,
                splice_zero_fill(
                    old(ctx).outputs()[old(self).fd as int],
                    old(self).pos as int,
                    buf@,
                ),
            ),
            r is Err ==> *final(ctx) == *old(ctx) && *final(self) == *old(self),
            r matches Err(e) ==> e is SizeOverflow,
    {
        match ctx.output_write(self.fd, self.pos, buf) {
            Ok(_) => {
                proof {
                    assert(old(self).pos + buf@.len() <= usize::MAX);
                }
                self.pos = self.pos + buf.len() as u64;
                Ok(buf.len())
            },
            Err(e) => {
                proof {
                    assert(e is SizeOverflow);
                }
                Err(HostError::SizeOverflow)
            },
        }
    }

    /// Reads up to `length` bytes at the current position, saturating at
    /// the end, and advances the position by the bytes actually read.
    pub fn read(&mut self, ctx: &Context, length: u32) -> (r: Vec<u8>)
        requires
            ctx.wf(),
            0 <= old(self).fd < ctx.outputs().len(),
        ensures
            r@ == read_window(
                ctx.outputs()[old(self).fd as int],
                old(self).pos as int,
                length as int,
            ),
            final(self).pos == old(self).pos + r@.len(),
            final(self).fd == old(self).fd,
    {
        let bytes = match ctx.output_read(self.fd, self.pos, length) {
            Ok(b) => b,
            Err(_) => unreached(),
        };
        proof {
            ctx.lemma_sizes_bounded();
            let out = ctx.outputs()[old(self).fd as int];
            if old(self).pos <= out.len() {
                assert(bytes@.len() <= out.len() - old(self).pos);
            } else {
                assert(bytes@.len() == 0);
            }
        }
        self.pos = self.pos + bytes.len() as u64;
        bytes
    }

    /// Nothing is buffered; a flush has nothing to do.
    pub fn flush(&mut self) -> (r: Result<(), HostError>)
        ensures
            r is Ok,
            *final(self) == *old(self),
    {
        Ok(())
    }

    /// Moves the position: to `v`, to the buffer's end plus `v`, or to
    /// the current position plus `v`. Fails exactly when the target is
    /// negative or not representable, leaving the position unchanged.
    pub fn seek(&mut self, ctx: &Context, pos: SeekFrom) -> (r: Result<u64, HostError>)
        requires
            ctx.wf(),
            0 <= old(self).fd < ctx.outputs().len(),
        ensures
            final(self).fd == old(self).fd,
            r matches Ok(p) ==> final(self).pos == p && Some(p) == (match pos {
                SeekFrom::Start(v) => Some(v),
                SeekFrom::End(v) => seek_target(
                    ctx.outputs()[old(self).fd as int].len() as int,
                    v as int,
                ),
                SeekFrom::Current(v) => seek_target(old(self).pos as int, v as int),
            }),
            r is Ok <==> (match pos {
                SeekFrom::Start(_) => true,
                SeekFrom::End(v) => seek_target(
                    ctx.outputs()[old(self).fd as int].len() as int,
                    v as int,
                ) is Some,
                SeekFrom::Current(v) => seek_target(old(self).pos as int, v as int) is Some,
            }),
            r is Err ==> *final(self) == *old(self),
            r matches Err(e) ==> e is SeekOutOfRange,
    {
        match pos {
            SeekFrom::Start(v) => {
                self.pos = v;
                Ok(v)
            },
            SeekFrom::End(v) => {
                let here = self.len(ctx);
                let p = resolve_seek(here, v)?;
                self.pos = p;
                Ok(p)
            },
            SeekFrom::Current(v) => {
                let p = resolve_seek(self.pos, v)?;
                self.pos = p;
                Ok(p)
            },
        }
    }
}

/// A handle to an interned metadata schema.
pub struct WadupSchema {
    /// The schema's id in the job's schema table.
    pub schema_index: u32,
}

impl WadupSchema {
    /// Interns `name` and wraps the id it is paired with.
    pub fn new(ctx: &mut Context, name: &str) -> (r: Result<WadupSchema, HostError>)
        requires
            old(ctx).wf(),
        ensures
            final(ctx).wf(),
            final(ctx).columns_unique() == old(ctx).columns_unique(),
            r is Ok <==> intern_id(
                old(ctx).schema_table().names(),
                old(ctx).schema_table().count(),
                name@,
            ) is Some,
            r matches Ok(s) ==> Some(s.schema_index) == intern_id(
                old(ctx).schema_table().names(),
                old(ctx).schema_table().count(),
                name@,
            ),
            r matches Err(e) ==> e is TableFull && *final(ctx) == *old(ctx),
    {
        let id = ctx.metadata_schema(name.to_owned())?;
        Ok(WadupSchema { schema_index: id })
    }

    /// Declares a string column in this schema.
    pub fn column_str(&self, ctx: &mut Context, name: &str) -> (r: Result<
        WadupColumnString,
        HostError,
    >)
        requires
            old(ctx).wf(),
            old(ctx).columns_unique(),
        ensures
            final(ctx).wf(),
            final(ctx).columns_unique(),
            r is Ok <==> (cols_of(old(ctx).columns(), self.schema_index).contains(name@)
                || cols_of(old(ctx).columns(), self.schema_index).len() < u32::MAX),
            r matches Ok(c) ==> c.schema_index == self.schema_index && 1 <= c.column_index
                <= cols_of(final(ctx).columns(), self.schema_index).len() && cols_of(
                final(ctx).columns(),
                self.schema_index,
            )[c.column_index - 1] == name@,
            r matches Err(e) ==> e is TableFull,
    {
        let id = ctx.metadata_column(self.schema_index, name.to_owned())?;
        Ok(WadupColumnString { schema_index: self.schema_index, column_index: id })
    }

    /// Declares a 64-bit integer column in this schema.
    pub fn column_i64(&self, ctx: &mut Context, name: &str) -> (r: Result<
        WadupColumnInt64,
        HostError,
    >)
        requires
            old(ctx).wf(),
            old(ctx).columns_unique(),
        ensures
            final(ctx).wf(),
            final(ctx).columns_unique(),
            r is Ok <==> (cols_of(old(ctx).columns(), self.schema_index).contains(name@)
                || cols_of(old(ctx).columns(), self.schema_index).len() < u32::MAX),
            r matches Ok(c) ==> c.schema_index == self.schema_index && 1 <= c.column_index
                <= cols_of(final(ctx).columns(), self.schema_index).len() && cols_of(
                final(ctx).columns(),
                self.schema_index,
            )[c.column_index - 1] == name@,
            r matches Err(e) ==> e is TableFull,
    {
        let id = ctx.metadata_column(self.schema_index, name.to_owned())?;
        Ok(WadupColumnInt64 { schema_index: self.schema_index, column_index: id })
    }

    /// Declares a 64-bit floating-point column in this schema.
    pub fn column_f64(&self, ctx: &mut Context, name: &str) -> (r: Result<
        WadupColumnFloat64,
        HostError,
    >)
        requires
            old(ctx).wf(),
            old(ctx).columns_unique(),
        ensures
            final(ctx).wf(),
            final(ctx).columns_unique(),
            r is Ok <==> (cols_of(old(ctx).columns(), self.schema_index).contains(name@)
                || cols_of(old(ctx).columns(), self.schema_index).len() < u32::MAX),
            r matches Ok(c) ==> c.schema_index == self.schema_index && 1 <= c.column_index
                <= cols_of(final(ctx).columns(), self.schema_index).len() && cols_of(
                final(ctx).columns(),
                self.schema_index,
            )[c.column_index - 1] == name@,
            r matches Err(e) ==> e is TableFull,
    {
        let id = ctx.metadata_column(self.schema_index, name.to_owned())?;
        Ok(WadupColumnFloat64 { schema_index: self.schema_index, column_index: id })
    }

    /// Emits one row for this schema and clears its pending values.
    pub fn flush_row(&self, ctx: &mut Context) -> (r: Result<Vec<RowCell>, HostError>)
        requires
            old(ctx).wf(),
        ensures
            final(ctx).wf(),
            final(ctx).columns_unique() == old(ctx).columns_unique(),
            r is Ok <==> (old(ctx).schema_table().ids().dom().contains(self.schema_index) && old(
                ctx,
            ).columns().dom().contains(self.schema_index)),
            r is Ok ==> final(ctx).pending() == old(ctx).pending().remove(self.schema_index),
            r matches Err(e) ==> e is SchemaIndexNotFound && *final(ctx) == *old(ctx),
    {
        ctx.metadata_flush_row(self.schema_index)
    }
}

/// A handle to a string column of one schema.
pub struct WadupColumnString {
    pub schema_index: u32,
    pub column_index: u32,
}

impl WadupColumnString {
    /// Stores a string value for this column into the pending row.
    pub fn value(&self, ctx: &mut Context, value: &str)
        requires
            old(ctx).wf(),
        ensures
            final(ctx).wf(),
            final(ctx).columns_unique() == old(ctx).columns_unique(),
            exists|s: String|
                s@ == value@ && final(ctx).pending() == old(ctx).pending().insert(
                    self.schema_index,
                    row_of(old(ctx).pending(), self.schema_index).insert(
                        self.column_index,
                        DataValue::StringValue(s),
                    ),
                ),
    {
        let owned = value.to_owned();
        ctx.metadata_value(self.schema_index, self.column_index, DataValue::StringValue(owned));
    }
}

/// A handle to a 64-bit integer column of one schema.
pub struct WadupColumnInt64 {
    pub schema_index: u32,
    pub column_index: u32,
}

impl WadupColumnInt64 {
    /// Stores an integer value for this column into the pending row.
    pub fn value(&self, ctx: &mut Context, value: i64)
        requires
            old(ctx).wf(),
        ensures
            final(ctx).wf(),
            final(ctx).columns_unique() == old(ctx).columns_unique(),
            final(ctx).pending() == old(ctx).pending().insert(
                self.schema_index,
                row_of(old(ctx).pending(), self.schema_index).insert(
                    self.column_index,
                    DataValue::Int64Value(value),
                ),
            ),
    {
        ctx.metadata_value(self.schema_index, self.column_index, DataValue::Int64Value(value));
    }
}

/// A handle to a 64-bit floating-point column of one schema.
pub struct WadupColumnFloat64 {
    pub schema_index: u32,
    pub column_index: u32,
}

impl WadupColumnFloat64 {
    /// Stores a floating-point value, carried as its raw bit pattern, for
    /// this column into the pending row.
    pub fn value(&self, ctx: &mut Context, value_bits: u64)
        requires
            old(ctx).wf(),
        ensures
            final(ctx).wf(),
            final(ctx).columns_unique() == old(ctx).columns_unique(),
            final(ctx).pending() == old(ctx).pending().insert(
                self.schema_index,
                row_of(old(ctx).pending(), self.schema_index).insert(
                    self.column_index,
                    DataValue::Float64Bits(value_bits),
                ),
            ),
    {
        ctx.metadata_value(self.schema_index, self.column_index, DataValue::Float64Bits(value_bits));
    }
}

} // verus!

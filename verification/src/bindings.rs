//! Host-side implementations of the guest-callable ABI.
//!
//! Every function takes the job's [`Context`] and, where the guest hands
//! over a pointer/length pair, the guest's linear memory as a byte slice.
//! The memory is re-resolved by the caller on every call, and every
//! pointer/length pair is validated against it here: an out-of-range pair,
//! a bad output descriptor or an invalid UTF-8 string is a fatal error for
//! the calling job and for it alone.

use vstd::prelude::*;
use crate::blob::read_window;
use crate::context::{Context, cols_of, row_of, splice_zero_fill};
use crate::schema::{intern_count, intern_id, intern_names};
use crate::types::{DataValue, HostError, RowCell};
use vstd::utf8::{decode_utf8, valid_utf8};

verus! {

/// The pointer/length pair addresses memory inside the guest's linear
/// memory.
pub open spec fn guest_range_ok(mem: Seq<u8>, ptr: u32, len: u32) -> bool {
    ptr + len <= mem.len()
}

/// The bytes a pointer/length pair addresses.
pub open spec fn guest_bytes(mem: Seq<u8>, ptr: u32, len: u32) -> Seq<u8> {
    mem.subrange(ptr as int, ptr + len)
}

/// The pair addresses a valid UTF-8 string.
pub open spec fn guest_str_ok(mem: Seq<u8>, ptr: u32, len: u32) -> bool {
    guest_range_ok(mem, ptr, len) && valid_utf8(guest_bytes(mem, ptr, len))
}

/// The string a pointer/length pair addresses.
pub open spec fn guest_str(mem: Seq<u8>, ptr: u32, len: u32) -> Seq<char> {
    decode_utf8(guest_bytes(mem, ptr, len))
}

/// Relies on `core::str::from_utf8`: it succeeds exactly on valid UTF-8
/// and decodes the bytes.
#[verifier::external_body]
fn str_from_utf8(v: &[u8]) -> (r: Option<&str>)
    ensures
        r is Some <==> valid_utf8(v@),
        r matches Some(s) ==> s@ == decode_utf8(v@),
{
    core::str::from_utf8(v).ok()
}

/// Copies the saturating byte window `[offset, offset + length)` out of
/// `data`: everything up to `offset + length`, cut short at the end of
/// `data`. This is the read primitive behind both input and output reads;
/// the caller writes the bytes into the guest's memory and reports the
/// count.
pub fn wadup_read(data: &[u8], offset: u64, length: u32) -> (r: Vec<u8>)
    ensures
        r@ == read_window(data@, offset as int, length as int),
        r@.len() <= length,
{
    let here: usize = data.len();
    let start: usize = if offset > here as u64 {
        here
    } else {
        offset as usize
    };
    let count: usize = if length as usize > here - start {
        here - start
    } else {
        length as usize
    };
    let mut out: Vec<u8> = Vec::new();
    let mut i: usize = 0;
    while i < count
        invariant
            i <= count,
            start + count <= data@.len() <= usize::MAX,
            out@ =~= data@.subrange(start as int, start + i),
        decreases count - i,
    {
        out.push(data[start + i]);
        proof {
            assert(out@ =~= data@.subrange(start as int, start + i + 1));
        }
        i = i + 1;
    }
    proof {
        assert(out@ =~= read_window(data@, offset as int, length as int));
    }
    out
}

/// Length of the job's input blob.
pub fn wadup_input_len(ctx: &Context) -> (r: u64)
    requires
        ctx.wf(),
    ensures
        r == ctx.input_bytes().len(),
{
    ctx.input_len()
}

/// Reads up to `length` input bytes at `offset`; a read past the end
/// yields a short (possibly zero) count.
pub fn wadup_input_read(ctx: &Context, offset: u64, length: u32) -> (r: Vec<u8>)
    requires
        ctx.wf(),
    ensures
        r@ == read_window(ctx.input_bytes(), offset as int, length as int),
        r@.len() <= length,
{
    ctx.input_read(offset, length)
}

/// Validates and records a carve of the input; the caller resubmits the
/// recorded carves as new jobs. Fails exactly when `offset + length`
/// reaches past the end of the input.
pub fn wadup_input_carve(ctx: &mut Context, offset: u64, length: u64) -> (r: Result<
    (),
    HostError,
>)
    requires
        old(ctx).wf(),
    ensures
        final(ctx).wf(),
        r is Ok <==> offset + length <= old(ctx).input_bytes().len(),
        r is Err ==> *final(ctx) == *old(ctx),
        r is Ok ==> final(ctx).carve_requests().len() == old(ctx).carve_requests().len() + 1,
        r is Ok ==> final(ctx).carve_requests().last()@ == old(ctx).input_bytes().subrange(
            offset as int,
            offset + length,
        ),
        r is Ok ==> final(ctx).carve_requests().drop_last() == old(ctx).carve_requests(),
        crate::context::same_input(old(ctx), final(ctx)),
        crate::context::same_outputs(old(ctx), final(ctx)),
        crate::context::same_tables(old(ctx), final(ctx)),
        crate::context::same_resources(old(ctx), final(ctx)),
{
    ctx.input_carve(offset, length)
}

/// Allocates a new output buffer and hands back its descriptor.
pub fn wadup_output_create(ctx: &mut Context) -> (r: Result<i32, HostError>)
    requires
        old(ctx).wf(),
    ensures
        final(ctx).wf(),
        r is Ok <==> old(ctx).outputs().len() <= i32::MAX,
        r matches Ok(fd) ==> fd == old(ctx).outputs().len(),
        r is Ok ==> final(ctx).outputs() == old(ctx).outputs().push(Seq::empty()),
        r is Err ==> *final(ctx) == *old(ctx),
        crate::context::same_input(old(ctx), final(ctx)),
        crate::context::same_carves(old(ctx), final(ctx)),
        crate::context::same_tables(old(ctx), final(ctx)),
        crate::context::same_resources(old(ctx), final(ctx)),
{
    ctx.output_create()
}

/// Reads up to `length` bytes of output `fd` at `offset`, saturating at
/// the end. Fails exactly when `fd` does not address an existing output.
pub fn wadup_output_read(ctx: &Context, fd: i32, offset: u64, length: u32) -> (r: Result<
    Vec<u8>,
    HostError,
>)
    requires
        ctx.wf(),
    ensures
        r is Ok <==> 0 <= fd < ctx.outputs().len(),
        r matches Ok(bytes) ==> bytes@ == read_window(
            ctx.outputs()[fd as int],
            offset as int,
            length as int,
        ),
        r matches Err(e) ==> e is BadOutputFd,
{
    ctx.output_read(fd, offset, length)
}

/// Current length of output `fd`.
pub fn wadup_output_len(ctx: &Context, fd: i32) -> (r: Result<u64, HostError>)
    requires
        ctx.wf(),
    ensures
        r is Ok <==> 0 <= fd < ctx.outputs().len(),
        r matches Ok(n) ==> n == ctx.outputs()[fd as int].len(),
        r matches Err(e) ==> e is BadOutputFd,
{
    ctx.output_len(fd)
}

/// Writes the guest bytes `[buffer, buffer + length)` into output `fd` at
/// `offset`, growing the output and zero-filling any gap. Fails when the
/// guest range is out of bounds, when `fd` does not address an existing
/// output, or when the resulting buffer would not fit in the host's
/// address space.
pub fn wadup_output_write(
    ctx: &mut Context,
    memory: &[u8],
    fd: i32,
    buffer: u32,
    offset: u64,
    length: u32,
) -> (r: Result<(), HostError>)
    requires
        old(ctx).wf(),
    ensures
        final(ctx).wf(),
        r is Err ==> *final(ctx) == *old(ctx),
        r is Ok <==> (guest_range_ok(memory@, buffer, length) && 0 <= fd < old(
            ctx,
        ).outputs().len() && offset + length <= usize::MAX),
        !guest_range_ok(memory@, buffer, length) ==> (r matches Err(e) && e
            is MemoryRangeOutOfBounds),
        r is Ok ==> final(ctx).outputs() == old(ctx).outputs().update(
            fd as int,
            splice_zero_fill(
                old(ctx).outputs()[fd as int],
                offset as int,
                guest_bytes(memory@, buffer, length),
            ),
        ),
        crate::context::same_input(old(ctx), final(ctx)),
        crate::context::same_carves(old(ctx), final(ctx)),
        crate::context::same_tables(old(ctx), final(ctx)),
        crate::context::same_resources(old(ctx), final(ctx)),
{
    if buffer as u64 + length as u64 > memory.len() as u64 {
        return Err(HostError::MemoryRangeOutOfBounds);
    }
    let data = &memory[buffer as usize..(buffer as usize + length as usize)];
    ctx.output_write(fd, offset, data)
}

/// Copies the guest bytes `[buffer, buffer + length)` and decodes them as
/// UTF-8. Fails when the range is out of bounds or the bytes are not valid
/// UTF-8.
pub fn wadup_string_from_buffer(memory: &[u8], buffer: u32, length: u32) -> (r: Result<
    String,
    HostError,
>)
    ensures
        r is Ok <==> guest_str_ok(memory@, buffer, length),
        r matches Ok(s) ==> s@ == guest_str(memory@, buffer, length),
        !guest_range_ok(memory@, buffer, length) ==> (r matches Err(e) && e
            is MemoryRangeOutOfBounds),
        (guest_range_ok(memory@, buffer, length) && !guest_str_ok(memory@, buffer, length)) ==> (
        r matches Err(e) && e is InvalidUtf8),
{
    if buffer as u64 + length as u64 > memory.len() as u64 {
        return Err(HostError::MemoryRangeOutOfBounds);
    }
    let bytes = &memory[buffer as usize..(buffer as usize + length as usize)];
    match str_from_utf8(bytes) {
        Some(s) => Ok(s.to_owned()),
        None => Err(HostError::InvalidUtf8),
    }
}

/// Fails the calling job with the UTF-8 message the guest hands over; a
/// bad range or encoding fails the job with that error instead.
pub fn wadup_error(memory: &[u8], error: u32, error_length: u32) -> (r: HostError)
    ensures
        guest_str_ok(memory@, error, error_length) ==> (r matches HostError::GuestError(m) && m@
            == guest_str(memory@, error, error_length)),
        !guest_range_ok(memory@, error, error_length) ==> r is MemoryRangeOutOfBounds,
        (guest_range_ok(memory@, error, error_length) && !guest_str_ok(
            memory@,
            error,
            error_length,
        )) ==> r is InvalidUtf8,
{
    match wadup_string_from_buffer(memory, error, error_length) {
        Ok(message) => HostError::GuestError(message),
        Err(e) => e,
    }
}

/// Interns the schema name the guest hands over and returns its id:
/// sequential from 1, and stable for a repeated name within the job.
pub fn wadup_metadata_schema(
    ctx: &mut Context,
    memory: &[u8],
    schema_name: u32,
    schema_length: u32,
) -> (r: Result<u32, HostError>)
    requires
        old(ctx).wf(),
    ensures
        final(ctx).wf(),
        r is Err ==> *final(ctx) == *old(ctx),
        r is Ok <==> (guest_str_ok(memory@, schema_name, schema_length) && intern_id(
            old(ctx).schema_table().names(),
            old(ctx).schema_table().count(),
            guest_str(memory@, schema_name, schema_length),
        ) is Some),
        r matches Ok(id) ==> Some(id) == intern_id(
            old(ctx).schema_table().names(),
            old(ctx).schema_table().count(),
            guest_str(memory@, schema_name, schema_length),
        ),
        guest_str_ok(memory@, schema_name, schema_length) ==> final(ctx).schema_table().names()
            == intern_names(
            old(ctx).schema_table().names(),
            old(ctx).schema_table().count(),
            guest_str(memory@, schema_name, schema_length),
        ),
        guest_str_ok(memory@, schema_name, schema_length) ==> final(ctx).schema_table().count()
            == intern_count(
            old(ctx).schema_table().names(),
            old(ctx).schema_table().count(),
            guest_str(memory@, schema_name, schema_length),
        ),
        guest_str_ok(memory@, schema_name, schema_length) ==> final(ctx).schema_table().ids() == (
        if !old(ctx).schema_table().names().dom().contains(
            guest_str(memory@, schema_name, schema_length),
        ) && old(ctx).schema_table().count() < u32::MAX {
            old(ctx).schema_table().ids().insert(
                (old(ctx).schema_table().count() + 1) as u32,
                guest_str(memory@, schema_name, schema_length),
            )
        } else {
            old(ctx).schema_table().ids()
        }),
        crate::context::same_input(old(ctx), final(ctx)),
        crate::context::same_outputs(old(ctx), final(ctx)),
        crate::context::same_carves(old(ctx), final(ctx)),
        crate::context::same_resources(old(ctx), final(ctx)),
        final(ctx).columns() == old(ctx).columns(),
        final(ctx).pending() == old(ctx).pending(),
        final(ctx).columns_unique() == old(ctx).columns_unique(),
{
    let name = match wadup_string_from_buffer(memory, schema_name, schema_length) {
        Ok(n) => n,
        Err(e) => {
            return Err(e);
        },
    };
    ctx.metadata_schema(name)
}

/// Declares (or finds) a column within a schema and returns its id. The
/// column type tag is accepted and ignored.
pub fn wadup_metadata_column(
    ctx: &mut Context,
    memory: &[u8],
    schema_index: u32,
    column_name: u32,
    column_length: u32,
    column_type: u32,
) -> (r: Result<u32, HostError>)
    requires
        old(ctx).wf(),
        old(ctx).columns_unique(),
    ensures
        final(ctx).wf(),
        final(ctx).columns_unique(),
        r is Err ==> final(ctx).columns() == old(ctx).columns(),
        r is Ok <==> (guest_str_ok(memory@, column_name, column_length) && (cols_of(
            old(ctx).columns(),
            schema_index,
        ).contains(guest_str(memory@, column_name, column_length)) || cols_of(
            old(ctx).columns(),
            schema_index,
        ).len() < u32::MAX)),
        r matches Ok(id) ==> 1 <= id <= cols_of(final(ctx).columns(), schema_index).len()
            && cols_of(final(ctx).columns(), schema_index)[id - 1] == guest_str(
            memory@,
            column_name,
            column_length,
        ),
        (guest_str_ok(memory@, column_name, column_length) && !cols_of(
            old(ctx).columns(),
            schema_index,
        ).contains(guest_str(memory@, column_name, column_length)) && cols_of(
            old(ctx).columns(),
            schema_index,
        ).len() < u32::MAX) ==> final(ctx).columns() == old(ctx).columns().insert(
            schema_index,
            cols_of(old(ctx).columns(), schema_index).push(
                guest_str(memory@, column_name, column_length),
            ),
        ),
        cols_of(old(ctx).columns(), schema_index).contains(
            guest_str(memory@, column_name, column_length),
        ) && guest_str_ok(memory@, column_name, column_length) ==> final(ctx).columns() == old(
            ctx,
        ).columns(),
        crate::context::same_input(old(ctx), final(ctx)),
        crate::context::same_outputs(old(ctx), final(ctx)),
        crate::context::same_carves(old(ctx), final(ctx)),
        crate::context::same_resources(old(ctx), final(ctx)),
        final(ctx).schema_table() == old(ctx).schema_table(),
        final(ctx).pending() == old(ctx).pending(),
{
    let _ = column_type;
    let name = match wadup_string_from_buffer(memory, column_name, column_length) {
        Ok(n) => n,
        Err(e) => {
            return Err(e);
        },
    };
    ctx.metadata_column(schema_index, name)
}

/// Stores a string value into the pending row.
pub fn wadup_metadata_value_str(
    ctx: &mut Context,
    memory: &[u8],
    schema_index: u32,
    column_index: u32,
    value: u32,
    value_length: u32,
) -> (r: Result<(), HostError>)
    requires
        old(ctx).wf(),
    ensures
        final(ctx).wf(),
        r is Err ==> *final(ctx) == *old(ctx),
        r is Ok <==> guest_str_ok(memory@, value, value_length),
        r is Ok ==> exists|s: String|
            s@ == guest_str(memory@, value, value_length) && final(ctx).pending() == old(
                ctx,
            ).pending().insert(
                schema_index,
                row_of(old(ctx).pending(), schema_index).insert(
                    column_index,
                    DataValue::StringValue(s),
                ),
            ),
        crate::context::same_input(old(ctx), final(ctx)),
        crate::context::same_outputs(old(ctx), final(ctx)),
        crate::context::same_carves(old(ctx), final(ctx)),
        crate::context::same_resources(old(ctx), final(ctx)),
        final(ctx).schema_table() == old(ctx).schema_table(),
        final(ctx).columns() == old(ctx).columns(),
        final(ctx).columns_unique() == old(ctx).columns_unique(),
{
    let v = match wadup_string_from_buffer(memory, value, value_length) {
        Ok(s) => s,
        Err(e) => {
            return Err(e);
        },
    };
    ctx.metadata_value(schema_index, column_index, DataValue::StringValue(v));
    Ok(())
}

/// Stores a 64-bit integer value into the pending row.
pub fn wadup_metadata_value_i64(
    ctx: &mut Context,
    schema_index: u32,
    column_index: u32,
    value: i64,
)
    requires
        old(ctx).wf(),
    ensures
        final(ctx).wf(),
        final(ctx).pending() == old(ctx).pending().insert(
            schema_index,
            row_of(old(ctx).pending(), schema_index).insert(
                column_index,
                DataValue::Int64Value(value),
            ),
        ),
        crate::context::same_input(old(ctx), final(ctx)),
        crate::context::same_outputs(old(ctx), final(ctx)),
        crate::context::same_carves(old(ctx), final(ctx)),
        crate::context::same_resources(old(ctx), final(ctx)),
        final(ctx).schema_table() == old(ctx).schema_table(),
        final(ctx).columns() == old(ctx).columns(),
        final(ctx).columns_unique() == old(ctx).columns_unique(),
{
    ctx.metadata_value(schema_index, column_index, DataValue::Int64Value(value));
}

/// Stores a 64-bit floating-point value, carried as its raw bit pattern,
/// into the pending row. The unverified shell converts the guest's `f64`
/// to bits at the boundary.
pub fn wadup_metadata_value_f64(
    ctx: &mut Context,
    schema_index: u32,
    column_index: u32,
    value_bits: u64,
)
    requires
        old(ctx).wf(),
    ensures
        final(ctx).wf(),
        final(ctx).pending() == old(ctx).pending().insert(
            schema_index,
            row_of(old(ctx).pending(), schema_index).insert(
                column_index,
                DataValue::Float64Bits(value_bits),
            ),
        ),
        crate::context::same_input(old(ctx), final(ctx)),
        crate::context::same_outputs(old(ctx), final(ctx)),
        crate::context::same_carves(old(ctx), final(ctx)),
        crate::context::same_resources(old(ctx), final(ctx)),
        final(ctx).schema_table() == old(ctx).schema_table(),
        final(ctx).columns() == old(ctx).columns(),
        final(ctx).columns_unique() == old(ctx).columns_unique(),
{
    ctx.metadata_value(schema_index, column_index, DataValue::Float64Bits(value_bits));
}

/// Emits one row for the schema: for every declared column, in declaration
/// order, the pending value or the none default; the schema's pending
/// entries are then cleared. The caller logs the returned cells.
pub fn wadup_metadata_flush_row(ctx: &mut Context, schema_index: u32) -> (r: Result<
    Vec<RowCell>,
    HostError,
>)
    requires
        old(ctx).wf(),
    ensures
        final(ctx).wf(),
        r is Ok <==> (old(ctx).schema_table().ids().dom().contains(schema_index) && old(
            ctx,
        ).columns().dom().contains(schema_index)),
        r matches Err(e) ==> e is SchemaIndexNotFound && *final(ctx) == *old(ctx),
        r matches Ok(cells) ==> {
            let name = old(ctx).schema_table().ids()[schema_index];
            let cols = old(ctx).columns()[schema_index];
            let row = row_of(old(ctx).pending(), schema_index);
            &&& cells@.len() == cols.len()
            &&& forall|k: int|
                0 <= k < cols.len() ==> (#[trigger] cells@[k].schema@ == name && cells@[k].column@
                    == cols[k] && cells@[k].value == (if row.dom().contains((k + 1) as u32) {
                    row[(k + 1) as u32]
                } else {
                    DataValue::NoneValue
                }))
        },
        r is Ok ==> final(ctx).pending() == old(ctx).pending().remove(schema_index),
        crate::context::same_input(old(ctx), final(ctx)),
        crate::context::same_outputs(old(ctx), final(ctx)),
        crate::context::same_carves(old(ctx), final(ctx)),
        crate::context::same_resources(old(ctx), final(ctx)),
        final(ctx).schema_table() == old(ctx).schema_table(),
        final(ctx).columns() == old(ctx).columns(),
        final(ctx).columns_unique() == old(ctx).columns_unique(),
{
    ctx.metadata_flush_row(schema_index)
}

} // verus!

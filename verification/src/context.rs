//! Per-job sandbox context: the host-side state bundle of one running job.
//!
//! A context is created when a job starts and destroyed when it ends. It
//! owns the job's input blob, the output buffers the guest allocates, the
//! metadata tables (schemas, columns, pending row), the carve requests the
//! guest has issued, and the resource high-water counters enforced against
//! the per-job caps.

use vstd::prelude::*;
use std::collections::HashMap;
use crate::blob::{Blob, read_window};
use crate::carve::Carve;
use crate::schema::{SchemaTable, intern_count, intern_id, intern_names};
use crate::types::{DataValue, HostError, RowCell};

verus! {

broadcast use vstd::std_specs::hash::group_hash_axioms;

/// An output buffer after writing `data` at `offset`: the buffer grows to at
/// least `offset + data.len()`, any gap between the old end and `offset` is
/// zero-filled, and the written range reads back as `data`.
pub open spec fn splice_zero_fill(cur: Seq<u8>, offset: int, data: Seq<u8>) -> Seq<u8> {
    let grown_len = if offset + data.len() > cur.len() {
        offset + data.len()
    } else {
        cur.len() as int
    };
    Seq::new(grown_len as nat, |i: int|
        if offset <= i < offset + data.len() {
            data[i - offset]
        } else if i < cur.len() {
            cur[i]
        } else {
            0u8
        })
}

/// Writing `data` at `offset` and then reading `data.len()` bytes from
/// `offset` of the same buffer yields `data` again.
pub proof fn lemma_output_write_read(cur: Seq<u8>, offset: int, data: Seq<u8>)
    requires
        0 <= offset,
    ensures
        read_window(splice_zero_fill(cur, offset, data), offset, data.len() as int) == data,
{
    assert(read_window(splice_zero_fill(cur, offset, data), offset, data.len() as int) =~= data);
}

/// Writing past the current end grows the buffer and zero-fills the gap
/// between the old end and the write offset.
pub proof fn lemma_output_write_zero_fills(cur: Seq<u8>, offset: int, data: Seq<u8>)
    requires
        cur.len() <= offset,
    ensures
        splice_zero_fill(cur, offset, data).len() == offset + data.len(),
        forall|i: int|
            cur.len() <= i < offset ==> splice_zero_fill(cur, offset, data)[i] == 0u8,
        forall|i: int|
            0 <= i < cur.len() ==> splice_zero_fill(cur, offset, data)[i] == cur[i],
{
}


/// The input blob is unchanged.
pub open spec fn same_input(a: &Context, b: &Context) -> bool {
    a.input_bytes() == b.input_bytes()
}

/// The output buffers are unchanged.
pub open spec fn same_outputs(a: &Context, b: &Context) -> bool {
    a.outputs() == b.outputs()
}

/// The recorded carve requests are unchanged.
pub open spec fn same_carves(a: &Context, b: &Context) -> bool {
    a.carve_requests() == b.carve_requests()
}

/// The schema interner, column tables and pending row are unchanged.
pub open spec fn same_tables(a: &Context, b: &Context) -> bool {
    &&& a.schema_table() == b.schema_table()
    &&& a.columns() == b.columns()
    &&& a.pending() == b.pending()
}

/// Every column table fits in the 32-bit column-id space.
pub open spec fn columns_len_ok(m: Map<u32, Vec<String>>) -> bool {
    forall|s: u32| #[trigger] m.dom().contains(s) ==> m[s]@.len() <= u32::MAX
}

/// Every carve in the sequence lies inside its parent.
pub open spec fn carves_ok(cs: Seq<Carve>) -> bool {
    forall|i: int| 0 <= i < cs.len() ==> (#[trigger] cs[i]).wf()
}

/// Within each column table, no name is repeated.
pub open spec fn columns_names_unique(m: Map<u32, Vec<String>>) -> bool {
    forall|s: u32| #[trigger] m.dom().contains(s) ==> cols_unique(m[s].deep_view())
}

/// The resource counters and caps are unchanged.
pub open spec fn same_resources(a: &Context, b: &Context) -> bool {
    &&& a.memory_used() == b.memory_used()
    &&& a.memory_limit() == b.memory_limit()
    &&& a.table_used() == b.table_used()
    &&& a.table_limit() == b.table_limit()
}

/// The per-job caps are unchanged.
pub open spec fn same_limits(a: &Context, b: &Context) -> bool {
    &&& a.memory_limit() == b.memory_limit()
    &&& a.table_limit() == b.table_limit()
}


/// The column names of schema `s`, in declaration order; empty when none
/// was declared yet.
pub open spec fn cols_of(m: Map<u32, Seq<Seq<char>>>, s: u32) -> Seq<Seq<char>> {
    if m.dom().contains(s) {
        m[s]
    } else {
        Seq::empty()
    }
}

/// The pending-row values of schema `s`, keyed by column id; empty when
/// none was stored since the last flush.
pub open spec fn row_of(p: Map<u32, Map<u32, DataValue>>, s: u32) -> Map<u32, DataValue> {
    if p.dom().contains(s) {
        p[s]
    } else {
        Map::empty()
    }
}

/// No column name repeats within the sequence.
pub open spec fn cols_unique(cols: Seq<Seq<char>>) -> bool {
    forall|i: int, j: int| 0 <= i < j < cols.len() ==> #[trigger] cols[i] != #[trigger] cols[j]
}

/// Within one schema, a column name determines its id: two positions
/// holding the same name are the same position. Declaring a column a
/// second time therefore yields the id of the first declaration.
pub proof fn lemma_column_id_unique(cols: Seq<Seq<char>>, name: Seq<char>, id1: u32, id2: u32)
    requires
        cols_unique(cols),
        1 <= id1 <= cols.len(),
        1 <= id2 <= cols.len(),
        cols[id1 - 1] == name,
        cols[id2 - 1] == name,
    ensures
        id1 == id2,
{
}

/// The host-side state of one job.
pub struct Context {
    input: Blob,
    output: Vec<Vec<u8>>,
    schema: SchemaTable,
    column: HashMap<u32, Vec<String>>,
    metadata: HashMap<u32, HashMap<u32, DataValue>>,
    carves: Vec<Carve>,
    memory_limit: usize,
    memory_used: usize,
    table_limit: usize,
    table_used: usize,
}

impl Context {
    /// The input blob's bytes.
    pub closed spec fn input_bytes(&self) -> Seq<u8> {
        self.input@
    }

    /// The output buffers, in creation order; the buffer's index is its
    /// descriptor.
    pub closed spec fn outputs(&self) -> Seq<Seq<u8>> {
        Seq::new(self.output@.len(), |i: int| self.output@[i]@)
    }

    /// The schema-name interner.
    pub closed spec fn schema_table(&self) -> SchemaTable {
        self.schema
    }

    /// The column names declared so far, per schema id, in declaration
    /// order; a column's id is its position plus one.
    pub closed spec fn columns(&self) -> Map<u32, Seq<Seq<char>>> {
        self.column@.map_values(|v: Vec<String>| v.deep_view())
    }

    /// The pending row: the values stored since the last flush, keyed by
    /// schema id and column id.
    pub closed spec fn pending(&self) -> Map<u32, Map<u32, DataValue>> {
        self.metadata@.map_values(|v: HashMap<u32, DataValue>| v@)
    }

    /// The carves the guest has requested so far, in request order.
    pub closed spec fn carve_requests(&self) -> Seq<Carve> {
        self.carves@
    }

    /// High-water mark of the guest's linear-memory size, in bytes.
    pub closed spec fn memory_used(&self) -> usize {
        self.memory_used
    }

    /// The per-job cap on the guest's linear-memory size.
    pub closed spec fn memory_limit(&self) -> usize {
        self.memory_limit
    }

    /// High-water mark of the guest's function-table size, in slots.
    pub closed spec fn table_used(&self) -> usize {
        self.table_used
    }

    /// The per-job cap on the guest's function-table size.
    pub closed spec fn table_limit(&self) -> usize {
        self.table_limit
    }

    /// The context's invariant: the blob and tables are well formed, every
    /// recorded carve lies inside its parent, and the resource counters
    /// never exceed their caps.
    pub closed spec fn wf(&self) -> bool {
        &&& self.input.wf()
        &&& self.schema.wf()
        &&& columns_len_ok(self.column@)
        &&& carves_ok(self.carves@)
        &&& self.memory_used <= self.memory_limit
        &&& self.table_used <= self.table_limit
    }

    /// Column names within one schema are never repeated.
    pub closed spec fn columns_unique(&self) -> bool {
        columns_names_unique(self.column@)
    }

    /// A fresh context for one job: the input under analysis, no outputs,
    /// no metadata, no carves, zero resource use.
    pub fn new(input: Blob, memory_limit: usize, table_limit: usize) -> (r: Context)
        requires
            input.wf(),
        ensures
            r.wf(),
            r.columns_unique(),
            r.input_bytes() == input@,
            r.outputs().len() == 0,
            r.schema_table().names().is_empty(),
            r.schema_table().ids().is_empty(),
            r.schema_table().count() == 0,
            r.columns().is_empty(),
            r.pending().is_empty(),
            r.carve_requests().len() == 0,
            r.memory_used() == 0,
            r.table_used() == 0,
            r.memory_limit() == memory_limit,
            r.table_limit() == table_limit,
    {
        let r = Context {
            input,
            output: Vec::new(),
            schema: SchemaTable::new(),
            column: HashMap::new(),
            metadata: HashMap::new(),
            carves: Vec::new(),
            memory_limit,
            memory_used: 0,
            table_limit,
            table_used: 0,
        };
        proof {
            assert(r.columns() =~= Map::empty());
            assert(r.pending() =~= Map::empty());
        }
        r
    }

    /// Decides an attempted growth of the guest's linear memory to
    /// `desired` bytes: growth beyond the per-job cap is refused with a
    /// fatal sandbox error; otherwise the high-water counter is updated.
    pub fn memory_growing(&mut self, desired: usize) -> (r: Result<bool, HostError>)
        requires
            old(self).wf(),
        ensures
            final(self).wf(),
            r is Ok <==> desired <= old(self).memory_limit(),
            r matches Err(e) ==> e is MemoryLimitExceeded && *final(self) == *old(self),
            r is Ok ==> final(self).memory_used() == desired && (r matches Ok(b) && b),
            final(self).table_used() == old(self).table_used(),
            same_limits(old(self), final(self)),
            same_input(old(self), final(self)),
            same_outputs(old(self), final(self)),
            same_carves(old(self), final(self)),
            same_tables(old(self), final(self)),
    {
        if desired > self.memory_limit {
            Err(HostError::MemoryLimitExceeded)
        } else {
            self.memory_used = desired;
            Ok(true)
        }
    }

    /// Decides an attempted growth of the guest's function table to
    /// `desired` slots, as [`Context::memory_growing`] does for memory.
    pub fn table_growing(&mut self, desired: usize) -> (r: Result<bool, HostError>)
        requires
            old(self).wf(),
        ensures
            final(self).wf(),
            r is Ok <==> desired <= old(self).table_limit(),
            r matches Err(e) ==> e is TableLimitExceeded && *final(self) == *old(self),
            r is Ok ==> final(self).table_used() == desired && (r matches Ok(b) && b),
            final(self).memory_used() == old(self).memory_used(),
            same_limits(old(self), final(self)),
            same_input(old(self), final(self)),
            same_outputs(old(self), final(self)),
            same_carves(old(self), final(self)),
            same_tables(old(self), final(self)),
    {
        if desired > self.table_limit {
            Err(HostError::TableLimitExceeded)
        } else {
            self.table_used = desired;
            Ok(true)
        }
    }

    /// Within every job the resource counters stay under their caps:
    /// `memory_used <= memory_limit` and `table_used <= table_limit`.
    pub proof fn lemma_resource_caps_hold(&self)
        requires
            self.wf(),
        ensures
            self.memory_used() <= self.memory_limit(),
            self.table_used() <= self.table_limit(),
    {
    }

    /// The job's schema table is itself well formed whenever the context
    /// is: its two directions are inverse to each other and its ids are
    /// exactly 1 up to its count, so [`SchemaTable::lemma_bijective`]
    /// applies to it.
    pub proof fn lemma_schema_table_wf(&self)
        requires
            self.wf(),
        ensures
            self.schema_table().wf(),
    {
    }

    /// Within any one schema the declared column names never repeat
    /// whenever the uniqueness invariant holds, so
    /// [`lemma_column_id_unique`] applies to that schema's columns.
    pub proof fn lemma_columns_unique_at(&self, schema_index: u32)
        requires
            self.columns_unique(),
        ensures
            cols_unique(cols_of(self.columns(), schema_index)),
    {
        if self.columns().dom().contains(schema_index) {
            assert(self.column@.dom().contains(schema_index));
            assert(self.columns()[schema_index] == self.column@[schema_index].deep_view());
        }
    }

    /// The input and every output buffer fit in the host's address
    /// space.
    pub proof fn lemma_sizes_bounded(&self)
        requires
            self.wf(),
        ensures
            self.input_bytes().len() <= usize::MAX,
            forall|i: int|
                0 <= i < self.outputs().len() ==> (#[trigger] self.outputs()[i]).len()
                    <= usize::MAX,
    {
        self.input.lemma_len_bounded();
        assert forall|i: int|
            0 <= i < self.outputs().len() implies (#[trigger] self.outputs()[i]).len()
            <= usize::MAX by {
            let v = self.output@[i];
            vstd::std_specs::vec::axiom_spec_len(&v);
        }
    }

    /// Length of the job's input blob.
    pub fn input_len(&self) -> (r: u64)
        requires
            self.wf(),
        ensures
            r == self.input_bytes().len(),
    {
        self.input.len() as u64
    }

    /// Reads up to `length` bytes of the input at `offset`, saturating at
    /// the end: a read past the end yields a short count, a read at or
    /// beyond the end yields zero bytes.
    pub fn input_read(&self, offset: u64, length: u32) -> (r: Vec<u8>)
        requires
            self.wf(),
        ensures
            r@ == read_window(self.input_bytes(), offset as int, length as int),
            r@.len() <= length,
    {
        self.input.read(offset, length)
    }

    /// Records a carve of the input window `[offset, offset + length)` to
    /// be resubmitted as a new analysis input. Fails exactly when the
    /// window reaches past the end of the input; a zero-length carve is
    /// allowed.
    pub fn input_carve(&mut self, offset: u64, length: u64) -> (r: Result<(), HostError>)
        requires
            old(self).wf(),
        ensures
            final(self).wf(),
            r is Ok <==> offset + length <= old(self).input_bytes().len(),
            r is Err ==> *final(self) == *old(self),
            r is Ok ==> final(self).carve_requests().len() == old(self).carve_requests().len()
                + 1,
            r is Ok ==> final(self).carve_requests().last()@ == old(self).input_bytes().subrange(
                offset as int,
                offset + length,
            ),
            r is Ok ==> final(self).carve_requests().drop_last() == old(self).carve_requests(),
            same_input(old(self), final(self)),
            same_outputs(old(self), final(self)),
            same_tables(old(self), final(self)),
            same_resources(old(self), final(self)),
    {
        proof {
            self.input.lemma_len_bounded();
        }
        if offset > usize::MAX as u64 || length > usize::MAX as u64 {
            return Err(HostError::SizeOverflow);
        }
        let parent = self.input.share();
        match Carve::new(parent, offset as usize, length as usize) {
            Ok(c) => {
                self.carves.push(c);
                Ok(())
            },
            Err(e) => Err(e),
        }
    }

    /// Hands over the carve requests recorded so far, clearing the
    /// record: the caller announces and enqueues one job per (carve,
    /// plug-in) pair.
    pub fn take_carves(&mut self) -> (r: Vec<Carve>)
        requires
            old(self).wf(),
        ensures
            final(self).wf(),
            r@ == old(self).carve_requests(),
            final(self).carve_requests().len() == 0,
            carves_ok(r@),
            same_input(old(self), final(self)),
            same_outputs(old(self), final(self)),
            same_tables(old(self), final(self)),
            same_resources(old(self), final(self)),
            final(self).columns_unique() == old(self).columns_unique(),
    {
        let mut out: Vec<Carve> = Vec::new();
        core::mem::swap(&mut out, &mut self.carves);
        out
    }

    /// High-water mark of the guest's linear-memory size, for the job's
    /// success report.
    pub fn current_memory_used(&self) -> (r: usize)
        ensures
            r == self.memory_used(),
    {
        self.memory_used
    }

    /// High-water mark of the guest's function-table size, for the job's
    /// success report.
    pub fn current_table_used(&self) -> (r: usize)
        ensures
            r == self.table_used(),
    {
        self.table_used
    }

    /// Allocates a new, empty output buffer and hands back its descriptor:
    /// the next integer, starting at 0. Fails only when the descriptor
    /// space is exhausted.
    pub fn output_create(&mut self) -> (r: Result<i32, HostError>)
        requires
            old(self).wf(),
        ensures
            final(self).wf(),
            r is Ok <==> old(self).outputs().len() <= i32::MAX,
            r matches Ok(fd) ==> fd == old(self).outputs().len(),
            r is Ok ==> final(self).outputs() == old(self).outputs().push(Seq::empty()),
            r matches Err(e) ==> e is TooManyOutputs && *final(self) == *old(self),
            same_input(old(self), final(self)),
            same_carves(old(self), final(self)),
            same_tables(old(self), final(self)),
            same_resources(old(self), final(self)),
    {
        if self.output.len() > i32::MAX as usize {
            return Err(HostError::TooManyOutputs);
        }
        let fd = self.output.len() as i32;
        self.output.push(Vec::new());
        proof {
            assert(self.outputs() =~= old(self).outputs().push(Seq::empty()));
        }
        Ok(fd)
    }

    /// Current length of output `fd`. Fails exactly when `fd` does not
    /// address an existing output.
    pub fn output_len(&self, fd: i32) -> (r: Result<u64, HostError>)
        requires
            self.wf(),
        ensures
            r is Ok <==> 0 <= fd < self.outputs().len(),
            r matches Ok(n) ==> n == self.outputs()[fd as int].len(),
            r matches Err(e) ==> e is BadOutputFd,
    {
        if fd < 0 || fd as usize >= self.output.len() {
            return Err(HostError::BadOutputFd);
        }
        Ok(self.output[fd as usize].len() as u64)
    }

    /// Reads up to `length` bytes of output `fd` at `offset`, saturating at
    /// the buffer's end as an input read does. Fails exactly when `fd` does
    /// not address an existing output.
    pub fn output_read(&self, fd: i32, offset: u64, length: u32) -> (r: Result<
        Vec<u8>,
        HostError,
    >)
        requires
            self.wf(),
        ensures
            r is Ok <==> 0 <= fd < self.outputs().len(),
            r matches Ok(bytes) ==> bytes@ == read_window(
                self.outputs()[fd as int],
                offset as int,
                length as int,
            ),
            r matches Err(e) ==> e is BadOutputFd,
    {
        if fd < 0 || fd as usize >= self.output.len() {
            return Err(HostError::BadOutputFd);
        }
        let buf = &self.output[fd as usize];
        let here: usize = buf.len();
        let start: usize = if offset > here as u64 {
            here
        } else {
            offset as usize
        };
        let count: usize = if length as usize > here - start {
            here - start
        } else {
            length as usize
        };
        let mut out: Vec<u8> = Vec::new();
        let mut i: usize = 0;
        while i < count
            invariant
                i <= count,
                start + count <= buf@.len() <= usize::MAX,
                buf@ == self.outputs()[fd as int],
                out@ =~= buf@.subrange(start as int, start + i),
            decreases count - i,
        {
            out.push(buf[start + i]);
            proof {
                assert(out@ =~= buf@.subrange(start as int, start + i + 1));
            }
            i = i + 1;
        }
        proof {
            assert(out@ =~= read_window(self.outputs()[fd as int], offset as int, length as int));
        }
        Ok(out)
    }

    /// Writes `data` into output `fd` at `offset`, growing the buffer to at
    /// least `offset + data.len()` and zero-filling any gap. Fails when `fd`
    /// does not address an existing output, or when the resulting buffer
    /// would not fit in the host's address space.
    pub fn output_write(&mut self, fd: i32, offset: u64, data: &[u8]) -> (r: Result<
        (),
        HostError,
    >)
        requires
            old(self).wf(),
        ensures
            final(self).wf(),
            r is Err ==> *final(self) == *old(self),
            r is Ok ==> (0 <= fd < old(self).outputs().len() && offset + data@.len()
                <= usize::MAX),
            (0 <= fd < old(self).outputs().len() && offset + data@.len() <= usize::MAX) ==> r
                is Ok,
            r matches Err(e) ==> e is BadOutputFd || e is SizeOverflow,
            !(0 <= fd < old(self).outputs().len()) ==> (r matches Err(e) && e is BadOutputFd),
            (0 <= fd < old(self).outputs().len() && r is Err) ==> (r matches Err(e) && e
                is SizeOverflow),
            r is Ok ==> final(self).outputs() == old(self).outputs().update(
                fd as int,
                splice_zero_fill(old(self).outputs()[fd as int], offset as int, data@),
            ),
            same_input(old(self), final(self)),
            same_carves(old(self), final(self)),
            same_tables(old(self), final(self)),
            same_resources(old(self), final(self)),
    {
        if fd < 0 || fd as usize >= self.output.len() {
            return Err(HostError::BadOutputFd);
        }
        if offset > usize::MAX as u64 || data.len() as u64 > usize::MAX as u64 - offset {
            return Err(HostError::SizeOverflow);
        }
        let off = offset as usize;
        let fdu = fd as usize;
        let cur_len = self.output[fdu].len();
        let new_len: usize = if off + data.len() > cur_len {
            off + data.len()
        } else {
            cur_len
        };
        let ghost target = splice_zero_fill(old(self).outputs()[fd as int], offset as int, data@);
        let mut grown: Vec<u8> = Vec::new();
        let mut i: usize = 0;
        while i < new_len
            invariant
                i <= new_len,
                off + data@.len() <= new_len <= usize::MAX,
                new_len == target.len(),
                fdu < self.output@.len(),
                *self == *old(self),
                fdu == fd,
                off == offset,
                cur_len == self.output@[fd as int]@.len(),
                new_len == (if off + data@.len() > cur_len {
                    off + data@.len() as int
                } else {
                    cur_len as int
                }),
                target == splice_zero_fill(self.outputs()[fd as int], off as int, data@),
                grown@ =~= target.subrange(0, i as int),
            decreases new_len - i,
        {
            let b: u8 = if off <= i && i < off + data.len() {
                data[i - off]
            } else if i < cur_len {
                self.output[fdu][i]
            } else {
                0
            };
            grown.push(b);
            proof {
                assert(grown@ =~= target.subrange(0, i + 1));
            }
            i = i + 1;
        }
        proof {
            assert(grown@ =~= target);
        }
        self.output.set(fdu, grown);
        proof {
            assert(self.outputs() =~= old(self).outputs().update(fd as int, target));
        }
        Ok(())
    }

    /// Interns a schema name and hands back its id: the id it already has,
    /// or the next sequential id starting at 1. Fails only when the 32-bit
    /// id space is exhausted.
    pub fn metadata_schema(&mut self, name: String) -> (r: Result<u32, HostError>)
        requires
            old(self).wf(),
        ensures
            final(self).wf(),
            r is Ok <==> intern_id(
                old(self).schema_table().names(),
                old(self).schema_table().count(),
                name@,
            ) is Some,
            r matches Ok(id) ==> Some(id) == intern_id(
                old(self).schema_table().names(),
                old(self).schema_table().count(),
                name@,
            ),
            final(self).schema_table().names() == intern_names(
                old(self).schema_table().names(),
                old(self).schema_table().count(),
                name@,
            ),
            final(self).schema_table().count() == intern_count(
                old(self).schema_table().names(),
                old(self).schema_table().count(),
                name@,
            ),
            final(self).schema_table().ids() == (if !old(self).schema_table().names().dom().contains(
                name@,
            ) && old(self).schema_table().count() < u32::MAX {
                old(self).schema_table().ids().insert(
                    (old(self).schema_table().count() + 1) as u32,
                    name@,
                )
            } else {
                old(self).schema_table().ids()
            }),
            r matches Err(e) ==> e is TableFull && *final(self) == *old(self),
            same_input(old(self), final(self)),
            same_outputs(old(self), final(self)),
            same_carves(old(self), final(self)),
            same_resources(old(self), final(self)),
            final(self).columns() == old(self).columns(),
            final(self).pending() == old(self).pending(),
            final(self).columns_unique() == old(self).columns_unique(),
    {
        self.schema.intern(name)
    }

    /// Declares (or finds) a column `name` within schema `schema_index` and
    /// hands back its column id: ids are sequential within a schema,
    /// starting at 1, and repeating a name yields the id it already has.
    /// Fails only when the 32-bit column-id space of the schema is
    /// exhausted. The schema id is not required to be interned; declaring a
    /// column under a fresh schema id opens its table.
    pub fn metadata_column(&mut self, schema_index: u32, name: String) -> (r: Result<
        u32,
        HostError,
    >)
        requires
            old(self).wf(),
            old(self).columns_unique(),
        ensures
            final(self).wf(),
            final(self).columns_unique(),
            r is Ok <==> (cols_of(old(self).columns(), schema_index).contains(name@) || cols_of(
                old(self).columns(),
                schema_index,
            ).len() < u32::MAX),
            r matches Ok(id) ==> 1 <= id <= cols_of(final(self).columns(), schema_index).len()
                && cols_of(final(self).columns(), schema_index)[id - 1] == name@,
            cols_of(old(self).columns(), schema_index).contains(name@) ==> final(self).columns()
                == old(self).columns(),
            (!cols_of(old(self).columns(), schema_index).contains(name@) && cols_of(
                old(self).columns(),
                schema_index,
            ).len() < u32::MAX) ==> (final(self).columns() == old(self).columns().insert(
                schema_index,
                cols_of(old(self).columns(), schema_index).push(name@),
            ) && (r matches Ok(id) && id == cols_of(old(self).columns(), schema_index).len()
                + 1)),
            r matches Err(e) ==> e is TableFull && final(self).columns() == old(self).columns(),
            same_input(old(self), final(self)),
            same_outputs(old(self), final(self)),
            same_carves(old(self), final(self)),
            same_resources(old(self), final(self)),
            final(self).schema_table() == old(self).schema_table(),
            final(self).pending() == old(self).pending(),
    {
        proof {
            if old(self).column@.dom().contains(schema_index) {
                assert(old(self).column@[schema_index]@.len() <= u32::MAX);
            }
        }
        let cols_opt = self.column.remove(&schema_index);
        let mut cols: Vec<String> = match cols_opt {
            Some(c) => c,
            None => Vec::new(),
        };
        let ghost cols0 = cols.deep_view();
        let mut j: usize = 0;
        let mut found: Option<u32> = None;
        while j < cols.len()
            invariant
                j <= cols@.len() <= u32::MAX,
                cols.deep_view() == cols0,
                found is None ==> forall|k: int| 0 <= k < j ==> cols0[k] != name@,
                found matches Some(id) ==> 1 <= id <= cols0.len() && cols0[id - 1] == name@,
                found is Some ==> j == cols@.len(),
            decreases cols@.len() - j,
        {
            if cols[j] == name {
                proof {
                    assert(cols0[j as int] == name@);
                }
                found = Some((j + 1) as u32);
                proof {
                    assert(1 <= j + 1 <= cols0.len());
                }
                j = cols.len();
            } else {
                j = j + 1;
            }
        }
        match found {
            Some(id) => {
                self.column.insert(schema_index, cols);
                proof {
                    assert(cols0.contains(name@));
                    assert(self.column@ =~= old(self).column@);
                    assert(self.columns() =~= old(self).columns());
                    assert(self.pending() =~= old(self).pending());
                }
                Ok(id)
            },
            None => {
                proof {
                    assert(forall|k: int| 0 <= k < cols0.len() ==> cols0[k] != name@);
                    assert(!cols0.contains(name@));
                }
                if cols.len() >= u32::MAX as usize {
                    self.column.insert(schema_index, cols);
                    proof {
                        assert(self.column@ =~= old(self).column@);
                        assert(self.columns() =~= old(self).columns());
                        assert(self.pending() =~= old(self).pending());
                    }
                    Err(HostError::TableFull)
                } else {
                    let id = (cols.len() + 1) as u32;
                    cols.push(name);
                    self.column.insert(schema_index, cols);
                    proof {
                        assert(cols0.push(name@) =~~= self.column@[schema_index].deep_view());
                        assert(self.columns() =~~= old(self).columns().insert(
                            schema_index,
                            cols_of(old(self).columns(), schema_index).push(name@),
                        ));
                        assert(self.pending() =~= old(self).pending());
                        assert forall|sx: u32| #[trigger]
                            self.column@.dom().contains(sx) implies cols_unique(
                            self.column@[sx].deep_view(),
                        ) && self.column@[sx]@.len() <= u32::MAX by {
                            if sx != schema_index {
                                assert(old(self).column@.dom().contains(sx));
                                assert(self.column@[sx] == old(self).column@[sx]);
                            } else {
                                let newcols = self.column@[sx].deep_view();
                                assert forall|a: int, b: int|
                                    0 <= a < b < newcols.len() implies #[trigger] newcols[a]
                                    != #[trigger] newcols[b] by {
                                    if b < newcols.len() - 1 {
                                        assert(cols0[a] != cols0[b]);
                                    } else {
                                        assert(cols0[a] != name@);
                                    }
                                }
                            }
                        }
                    }
                    Ok(id)
                }
            },
        }
    }

    /// Stores a value into the pending row under (schema id, column id),
    /// replacing any value already stored there since the last flush.
    pub fn metadata_value(&mut self, schema_index: u32, column_index: u32, value: DataValue)
        requires
            old(self).wf(),
        ensures
            final(self).wf(),
            final(self).pending() == old(self).pending().insert(
                schema_index,
                row_of(old(self).pending(), schema_index).insert(column_index, value),
            ),
            same_input(old(self), final(self)),
            same_outputs(old(self), final(self)),
            same_carves(old(self), final(self)),
            same_resources(old(self), final(self)),
            final(self).schema_table() == old(self).schema_table(),
            final(self).columns() == old(self).columns(),
            final(self).columns_unique() == old(self).columns_unique(),
    {
        let mut row: HashMap<u32, DataValue> = match self.metadata.remove(&schema_index) {
            Some(m) => m,
            None => HashMap::new(),
        };
        row.insert(column_index, value);
        self.metadata.insert(schema_index, row);
        proof {
            assert(self.pending() =~~= old(self).pending().insert(
                schema_index,
                row_of(old(self).pending(), schema_index).insert(column_index, value),
            ));
            assert(self.columns() =~= old(self).columns());
        }
    }

    /// Emits one metadata row for schema `schema_index`: for every declared
    /// column of that schema, in declaration order, the value stored in the
    /// pending row or the none default; the pending-row entries of that
    /// schema are then cleared. Fails exactly when the schema id was never
    /// interned or has no declared columns.
    pub fn metadata_flush_row(&mut self, schema_index: u32) -> (r: Result<Vec<RowCell>, HostError>)
        requires
            old(self).wf(),
        ensures
            final(self).wf(),
            final(self).columns_unique() == old(self).columns_unique(),
            r is Ok <==> (old(self).schema_table().ids().dom().contains(schema_index) && old(
                self,
            ).columns().dom().contains(schema_index)),
            r matches Err(e) ==> e is SchemaIndexNotFound && *final(self) == *old(self),
            r matches Ok(cells) ==> {
                let name = old(self).schema_table().ids()[schema_index];
                let cols = old(self).columns()[schema_index];
                let row = row_of(old(self).pending(), schema_index);
                &&& cells@.len() == cols.len()
                &&& forall|k: int|
                    0 <= k < cols.len() ==> (#[trigger] cells@[k].schema@ == name
                        && cells@[k].column@ == cols[k] && cells@[k].value == (if row.dom().contains(
                        (k + 1) as u32,
                    ) {
                        row[(k + 1) as u32]
                    } else {
                        DataValue::NoneValue
                    }))
            },
            r is Ok ==> final(self).pending() == old(self).pending().remove(schema_index),
            same_input(old(self), final(self)),
            same_outputs(old(self), final(self)),
            same_carves(old(self), final(self)),
            same_resources(old(self), final(self)),
            final(self).schema_table() == old(self).schema_table(),
            final(self).columns() == old(self).columns(),
    {
        let name = match self.schema.name_of(schema_index) {
            Some(n) => n,
            None => {
                return Err(HostError::SchemaIndexNotFound);
            },
        };
        let has_cols = self.column.contains_key(&schema_index);
        if !has_cols {
            return Err(HostError::SchemaIndexNotFound);
        }
        let row: HashMap<u32, DataValue> = match self.metadata.remove(&schema_index) {
            Some(m) => m,
            None => HashMap::new(),
        };
        let ghost rowv = row_of(old(self).pending(), schema_index);
        let ghost colsv = old(self).columns()[schema_index];
        let mut cells: Vec<RowCell> = Vec::new();
        let cols_len = {
            let cols_ref = self.column.get(&schema_index);
            match cols_ref {
                Some(c) => c.len(),
                None => 0,
            }
        };
        let mut k: usize = 0;
        while k < cols_len
            invariant
                old(self).wf(),
                k <= cols_len,
                self.column@.dom().contains(schema_index),
                self.column@ == old(self).column@,
                cols_len == colsv.len(),
                colsv == self.column@[schema_index].deep_view(),
                row@ == rowv,
                cells@.len() == k,
                forall|x: int|
                    0 <= x < k ==> (#[trigger] cells@[x].schema@ == name@ && cells@[x].column@
                        == colsv[x] && cells@[x].value == (if rowv.dom().contains((x + 1) as u32) {
                        rowv[(x + 1) as u32]
                    } else {
                        DataValue::NoneValue
                    })),
                colsv.len() <= u32::MAX,
            decreases cols_len - k,
        {
            let col_name = {
                let cols_ref = self.column.get(&schema_index);
                match cols_ref {
                    Some(c) => c[k].clone(),
                    None => unreached(),
                }
            };
            let value = match row.get(&((k + 1) as u32)) {
                Some(v) => v.duplicate(),
                None => DataValue::NoneValue,
            };
            cells.push(RowCell { schema: name.clone(), column: col_name, value });
            k = k + 1;
        }
        proof {
            assert(self.pending() =~= old(self).pending().remove(schema_index));
            assert(self.columns() =~= old(self).columns());
        }
        Ok(cells)
    }
}

} // verus!

//! TwinCAT 3 PLC task telemetry.
//!
//! [`TaskInfoReader`] is a reusable description of the task-info symbols and
//! their validated element layout. Construct it while resolving symbols, retain
//! it for repeated samples, and recreate it when that symbol metadata changes.
use crate::commands::{Command, IndexLength};
use crate::comms::{
    complete, next_id, outcome, payload, reply_is_accepted, reply_packet, requested, Call, Comms,
};
use crate::device::{
    read_gives_back, read_reply_fields, read_request_fields, reported_length, returned_data, Device,
};
use crate::error::{Error, Result};
use crate::netid::AmsAddr;
use crate::symbol::{find_field, named_field, Field, Type};
use crate::text::{from_utf8_lossy, lossy_text, text_ends_at_zero, text_length, until_zero};
use crate::time::duration_nanos;
use crate::wire::{
    field_u16, field_u32, i64_at, i64_from_le_bytes, low_u32, u16_at, u16_bytes, u16_from_le_bytes, u32_at, u32_bytes, u32_from_le_bytes,
};
use std::time::Duration;
use vstd::prelude::*;
use vstd::utf8::{decode_utf8, valid_utf8};

verus! {

/// The `_TaskInfo` symbol exposed by `Tc2_System`.
pub const TASK_INFO_SYMBOL: &'static str = "TwinCAT_SystemInfoVarList._TaskInfo";

/// The `_AppInfo` symbol exposed by `Tc2_System`.
pub const APP_INFO_SYMBOL: &'static str = "TwinCAT_SystemInfoVarList._AppInfo";

/// Size of the fields that every task entry has.
pub const TASK_PREFIX_SIZE: usize = 32;

/// Size of a task name.
pub const TASK_NAME_SIZE: usize = 64;

/// Size of the part of the app-info symbol that is read.
pub const APP_INFO_TASK_COUNT_SIZE: usize = 8;

/// Where the task count stands in the app-info symbol.
pub const APP_INFO_TASK_COUNT_OFFSET: usize = 4;

/// Number of nanoseconds in a tick, the unit of task times.
pub const TICK_NANOS: u64 = 100;

/// Largest size of a task-info symbol.
pub const MAX_TASK_INFO_SIZE: usize = 16_777_216;

/// A resolved ADS memory range.
///
/// The range must come from the same symbol metadata generation as the task
/// layout used to construct a [`TaskInfoReader`].
#[derive(Debug, Clone, Copy, PartialEq, Eq, Structural)]
pub struct TaskInfoLocation {
    /// ADS index group.
    pub index_group: u32,
    /// ADS index offset.
    pub index_offset: u32,
    /// Number of bytes in the symbol.
    pub size: usize,
}

/// A field that every task entry has to have.
#[derive(Clone, Copy, Debug)]
pub struct RequiredField {
    pub name: &'static str,
    pub offset: u32,
    pub size: usize,
    pub base_type: u32,
}

/// The fields that every task entry has to have.
pub open spec fn required_fields() -> Seq<RequiredField> {
    seq![
        RequiredField { name: "ObjId", offset: 0, size: 4, base_type: 19 },
        RequiredField { name: "CycleTime", offset: 4, size: 4, base_type: 19 },
        RequiredField { name: "Priority", offset: 8, size: 2, base_type: 18 },
        RequiredField { name: "AdsPort", offset: 10, size: 2, base_type: 18 },
        RequiredField { name: "CycleCount", offset: 12, size: 4, base_type: 19 },
        RequiredField { name: "DcTaskTime", offset: 16, size: 8, base_type: 20 },
        RequiredField { name: "LastExecTime", offset: 24, size: 4, base_type: 19 },
        RequiredField { name: "FirstCycle", offset: 28, size: 1, base_type: 33 },
        RequiredField { name: "CycleTimeExceeded", offset: 29, size: 1, base_type: 33 },
        RequiredField { name: "InCallAfterOutputUpdate", offset: 30, size: 1, base_type: 33 },
        RequiredField { name: "RTViolation", offset: 31, size: 1, base_type: 33 },
    ]
}

/// Whether a field is what a task entry has to have.
pub open spec fn is_required(field: Field, required: RequiredField) -> bool {
    &&& field.offset == Some(required.offset)
    &&& field.size == required.size
    &&& field.base_type == required.base_type
    &&& field.array@.len() == 0
}

/// What is wrong with the required fields of an entry, from field `k` on.
pub open spec fn required_error(fields: Seq<Field>, k: int) -> Option<&'static str>
    decreases required_fields().len() - k,
{
    if k < 0 || k >= required_fields().len() {
        None
    } else {
        match named_field(fields, required_fields()[k].name@) {
            None => Some("a required task field is missing"),
            Some(field) => if is_required(field, required_fields()[k]) {
                required_error(fields, k + 1)
            } else {
                Some("a required task field has an unsupported type, size, or offset")
            },
        }
    }
}

/// Whether a field is a task name in an entry of the given size.
pub open spec fn is_task_name(field: Field, entry_size: usize) -> bool {
    &&& field.offset matches Some(offset)
    &&& offset >= TASK_PREFIX_SIZE
    &&& offset + TASK_NAME_SIZE <= entry_size
    &&& field.size == TASK_NAME_SIZE
    &&& field.base_type == 30
    &&& field.array@.len() == 0
}

/// What is wrong with the type of a task entry.
pub open spec fn layout_error(entry: Type) -> Option<&'static str> {
    if entry.size < TASK_PREFIX_SIZE {
        Some("task entry is shorter than documented prefix")
    } else if required_error(entry.fields@, 0) is Some {
        required_error(entry.fields@, 0)
    } else {
        match named_field(entry.fields@, "TaskName"@) {
            Some(field) => if is_task_name(field, entry.size) {
                None
            } else {
                Some("TaskName has an unsupported type, size, or offset")
            },
            None => None,
        }
    }
}

/// Where the name stands in a task entry, if it has one.
pub open spec fn name_offset(entry: Type) -> Option<usize> {
    match named_field(entry.fields@, "TaskName"@) {
        Some(field) => match field.offset {
            Some(offset) => Some(offset as usize),
            None => None,
        },
        None => None,
    }
}

/// The validated layout of one `_TaskInfo` array entry.
///
/// Build this from the entry type in the caller's symbol metadata cache. The
/// constructor validates the documented fields' offsets, sizes, and ADS base
/// types. Task names are decoded only when their `STRING(63)` field is present.
#[derive(Debug, Clone, Copy, PartialEq, Eq, Structural)]
pub struct TaskInfoLayout {
    entry_size: usize,
    task_name_offset: Option<usize>,
}

impl TaskInfoLayout {
    /// The byte size of one task entry.
    pub closed spec fn spec_entry_size(self) -> usize {
        self.entry_size
    }

    /// Where the name stands in a task entry, if it has one.
    pub closed spec fn spec_name_offset(self) -> Option<usize> {
        self.task_name_offset
    }

    /// Everything that is decoded lies within the entry.
    pub open spec fn well_formed(self) -> bool {
        &&& TASK_PREFIX_SIZE <= self.spec_entry_size()
        &&& self.spec_name_offset() matches Some(offset) ==> TASK_PREFIX_SIZE <= offset && offset
            + TASK_NAME_SIZE <= self.spec_entry_size()
    }

    #[verifier::type_invariant]
    spec fn inv(self) -> bool {
        self.well_formed()
    }

    /// Validate and create a layout from the `_TaskInfo` array element type.
    ///
    /// The caller must resolve aliases before passing this type: fields must
    /// retain their ADS primitive base types in the supplied metadata.
    pub fn from_entry_type(entry: &Type) -> (r: Result<Self>)
        ensures
            match layout_error(*entry) {
                Some(what) => r == Err::<Self, Error>(Error::TaskInfoLayout(what)),
                None => {
                    &&& r matches Ok(layout)
                    &&& layout.spec_entry_size() == entry.size
                    &&& layout.spec_name_offset() == name_offset(*entry)
                    &&& layout.well_formed()
                },
            },
    {
        if entry.size < TASK_PREFIX_SIZE {
            return Err(Error::TaskInfoLayout("task entry is shorter than documented prefix"));
        }
        let required: [RequiredField; 11] = [
            RequiredField { name: "ObjId", offset: 0, size: 4, base_type: 19 },
            RequiredField { name: "CycleTime", offset: 4, size: 4, base_type: 19 },
            RequiredField { name: "Priority", offset: 8, size: 2, base_type: 18 },
            RequiredField { name: "AdsPort", offset: 10, size: 2, base_type: 18 },
            RequiredField { name: "CycleCount", offset: 12, size: 4, base_type: 19 },
            RequiredField { name: "DcTaskTime", offset: 16, size: 8, base_type: 20 },
            RequiredField { name: "LastExecTime", offset: 24, size: 4, base_type: 19 },
            RequiredField { name: "FirstCycle", offset: 28, size: 1, base_type: 33 },
            RequiredField { name: "CycleTimeExceeded", offset: 29, size: 1, base_type: 33 },
            RequiredField { name: "InCallAfterOutputUpdate", offset: 30, size: 1, base_type: 33 },
            RequiredField { name: "RTViolation", offset: 31, size: 1, base_type: 33 },
        ];
        assert(required@ =~= required_fields());
        let mut k: usize = 0;
        while k < 11
            invariant
                k <= 11,
                entry.size >= TASK_PREFIX_SIZE,
                required@ == required_fields(),
                required_error(entry.fields@, 0) == required_error(entry.fields@, k as int),
            decreases 11 - k,
        {
            match find_field(&entry.fields, required[k].name) {
                None => {
                    return Err(Error::TaskInfoLayout("a required task field is missing"));
                },
                Some(field) => {
                    if field.offset != Some(required[k].offset) || field.size != required[k].size
                        || field.base_type != required[k].base_type || !field.array.is_empty() {
                        return Err(
                            Error::TaskInfoLayout(
                                "a required task field has an unsupported type, size, or offset",
                            ),
                        );
                    }
                },
            }
            k += 1;
        }
        let task_name_offset: Option<usize> = match find_field(&entry.fields, "TaskName") {
            Some(field) => {
                let fits: bool = match field.offset {
                    Some(offset) => offset as usize >= TASK_PREFIX_SIZE && match (
                    offset as usize).checked_add(TASK_NAME_SIZE) {
                        Some(end) => end <= entry.size,
                        None => false,
                    },
                    None => false,
                };
                if fits && field.size == TASK_NAME_SIZE && field.base_type == 30
                    && field.array.is_empty() {
                    match field.offset {
                        Some(offset) => Some(offset as usize),
                        None => None,
                    }
                } else {
                    return Err(
                        Error::TaskInfoLayout("TaskName has an unsupported type, size, or offset"),
                    );
                }
            },
            None => None,
        };
        Ok(Self { entry_size: entry.size, task_name_offset })
    }

    /// Return the byte size of one task entry.
    #[must_use]
    pub fn entry_size(&self) -> (r: usize)
        ensures
            r == self.spec_entry_size(),
    {
        self.entry_size
    }
}

/// A configured TwinCAT task, as reported by `_TaskInfo`.
#[derive(Debug, PartialEq)]
pub struct PlcTaskSystemInfo {
    /// Original PLC array index, using the metadata bounds supplied to
    /// [`TaskInfoReader::new`].
    pub index: i32,
    /// TwinCAT object identifier.
    pub object_id: u32,
    /// The task's ADS port.
    pub ads_port: u16,
    /// Real-time priority. Lower values run first.
    pub priority: u16,
    /// Configured cycle time.
    pub cycle_time: Duration,
    /// Duration of the last completed cycle.
    pub last_exec_time: Duration,
    /// Signed distributed-clock task time in nanoseconds.
    pub dc_task_time: i64,
    /// Wrapping completed-cycle counter.
    pub cycle_count: u32,
    /// Whether the task is in its first cycle after a start.
    pub first_cycle: bool,
    /// Whether the runtime flagged the sampled cycle as over time.
    pub cycle_time_exceeded: bool,
    /// Whether the task runs after the output update.
    pub in_call_after_output_update: bool,
    /// Whether the real-time framework flagged a violation.
    pub rt_violation: bool,
    /// Task name when the validated entry layout includes `STRING(63)`.
    pub name: Option<String>,
}

impl PlcTaskSystemInfo {
    /// Whether this is the task that stands in `entry`, with its index and, if
    /// there is one, its name at the given offset.
    pub open spec fn decodes(self, entry: Seq<u8>, index: int, name_offset: Option<usize>) -> bool {
        &&& self.index == index
        &&& self.object_id == u32_at(entry, 0)
        &&& duration_nanos(self.cycle_time) == u32_at(entry, 4) * TICK_NANOS
        &&& self.priority == u16_at(entry, 8)
        &&& self.ads_port == u16_at(entry, 10)
        &&& self.cycle_count == u32_at(entry, 12)
        &&& self.dc_task_time == i64_at(entry, 16)
        &&& duration_nanos(self.last_exec_time) == u32_at(entry, 24) * TICK_NANOS
        &&& self.first_cycle == (entry[28] != 0)
        &&& self.cycle_time_exceeded == (entry[29] != 0)
        &&& self.in_call_after_output_update == (entry[30] != 0)
        &&& self.rt_violation == (entry[31] != 0)
        &&& match name_offset {
            Some(offset) => {
                let text = until_zero(entry.subrange(offset as int, offset + TASK_NAME_SIZE));
                &&& self.name matches Some(name)
                &&& name@ == lossy_text(text)
                &&& valid_utf8(text) ==> name@ == decode_utf8(text)
            },
            None => self.name is None,
        }
    }
}

impl Clone for PlcTaskSystemInfo {
    fn clone(&self) -> (r: Self)
        ensures
            r == *self,
    {
        PlcTaskSystemInfo {
            index: self.index,
            object_id: self.object_id,
            ads_port: self.ads_port,
            priority: self.priority,
            cycle_time: self.cycle_time,
            last_exec_time: self.last_exec_time,
            dc_task_time: self.dc_task_time,
            cycle_count: self.cycle_count,
            first_cycle: self.first_cycle,
            cycle_time_exceeded: self.cycle_time_exceeded,
            in_call_after_output_update: self.in_call_after_output_update,
            rt_violation: self.rt_violation,
            name: match &self.name {
                Some(name) => Some(name.clone()),
                None => None,
            },
        }
    }
}

/// The result of reading `_AppInfo.TaskCnt` alongside task telemetry.
#[derive(Debug)]
pub enum ReportedTaskCount {
    /// `_AppInfo.TaskCnt` was read successfully.
    Available(u32),
    /// Task data was read successfully, but `_AppInfo.TaskCnt` could not be
    /// read. The contained ADS error lets consumers report incomplete coverage.
    Unavailable(Error),
}

/// One task sample and its optional application-wide task count.
///
/// The number of array entries is not the number of monitored tasks: unused
/// slots are retained. Consumers determine coverage using their own validated
/// task-selection policy and the reported count; this snapshot does not infer
/// completeness from array capacity.
#[derive(Debug)]
pub struct PlcTaskInfoSnapshot {
    /// The application's reported task count, when an app-info location was
    /// supplied to the reader.
    pub reported_task_count: Option<ReportedTaskCount>,
    /// Task entries, retaining their original array indices, including entries
    /// whose configured cycle time is zero.
    pub tasks: Vec<PlcTaskSystemInfo>,
}

/// The 16-bit number at the given offset of an entry.
fn value_u16(entry: &[u8], offset: usize) -> (r: u16)
    requires
        offset + 2 <= entry@.len(),
    ensures
        r == u16_at(entry@, offset as int),
{
    u16_from_le_bytes([entry[offset], entry[offset + 1]])
}

/// The 32-bit number at the given offset of an entry.
fn value_u32(entry: &[u8], offset: usize) -> (r: u32)
    requires
        offset + 4 <= entry@.len(),
    ensures
        r == u32_at(entry@, offset as int),
{
    u32_from_le_bytes([entry[offset], entry[offset + 1], entry[offset + 2], entry[offset + 3]])
}

/// Decode one task entry.
pub fn decode_task(entry: &[u8], index: i32, task_name_offset: Option<usize>) -> (r: Result<
    PlcTaskSystemInfo,
>)
    requires
        entry@.len() >= TASK_PREFIX_SIZE ==> (task_name_offset matches Some(offset) ==> offset
            + TASK_NAME_SIZE <= entry@.len()),
    ensures
        if entry@.len() < TASK_PREFIX_SIZE {
            r == Err::<PlcTaskSystemInfo, Error>(
                Error::Reply(
                    "decoding task info",
                    "task entry is shorter than documented prefix",
                    entry@.len() as u32,
                ),
            )
        } else {
            r matches Ok(task) && task.decodes(entry@, index as int, task_name_offset)
        },
{
    if entry.len() < TASK_PREFIX_SIZE {
        return Err(
            Error::Reply(
                "decoding task info",
                "task entry is shorter than documented prefix",
                entry.len() as u32,
            ),
        );
    }
    let name: Option<String> = match task_name_offset {
        Some(offset) => {
            let name_bytes: &[u8] = vstd::slice::slice_subrange(
                entry,
                offset,
                offset + TASK_NAME_SIZE,
            );
            let end: usize = text_length(name_bytes);
            let text: &[u8] = vstd::slice::slice_subrange(name_bytes, 0, end);
            assert(text@ =~= name_bytes@.take(end as int));
            Some(from_utf8_lossy(text))
        },
        None => None,
    };
    Ok(
        PlcTaskSystemInfo {
            index,
            object_id: value_u32(entry, 0),
            cycle_time: Duration::from_nanos(value_u32(entry, 4) as u64 * TICK_NANOS),
            priority: value_u16(entry, 8),
            ads_port: value_u16(entry, 10),
            cycle_count: value_u32(entry, 12),
            dc_task_time: i64_from_le_bytes(
                [
                    entry[16],
                    entry[17],
                    entry[18],
                    entry[19],
                    entry[20],
                    entry[21],
                    entry[22],
                    entry[23],
                ],
            ),
            last_exec_time: Duration::from_nanos(value_u32(entry, 24) as u64 * TICK_NANOS),
            first_cycle: entry[28] != 0,
            cycle_time_exceeded: entry[29] != 0,
            in_call_after_output_update: entry[30] != 0,
            rt_violation: entry[31] != 0,
            name,
        },
    )
}

/// Cached, validated metadata used to read TwinCAT task telemetry.
///
/// `TaskInfoReader` does not discover symbols. Pass locations and array bounds
/// from an uploaded symbol table or another caller-owned cache, then reuse this
/// value for each sample. `symbol_generation` is owned by that cache; callers
/// must pass their current generation to every read and recreate this reader
/// after reconnecting, downloading a project, or an online change.
///
/// The cache must monitor the target's symbol version (ADS index group
/// [`crate::index::GET_SYMVERSION`]) using polling or symbol-version notifications.
/// On a version change, invalidate cached locations and advance the local
/// generation before rebuilding metadata and readers. Reconnects must also
/// advance the generation, even if the target reports the same version. If a
/// version check fails, suspend sampling until metadata validity is established.
/// A local generation alone cannot detect changes on the target, and successful
/// direct address reads are not evidence that cached metadata is still valid.
/// Version checks and value reads are separate operations: changes can race a
/// sample, so discard it when a version change is observed during sampling.
#[derive(Debug, Clone, Copy)]
pub struct TaskInfoReader {
    target: AmsAddr,
    symbol_generation: u64,
    task_info: TaskInfoLocation,
    app_info: Option<TaskInfoLocation>,
    layout: TaskInfoLayout,
    first_index: i32,
}

/// Whether the bounds of an array can be those of a task array.
pub open spec fn valid_bounds(bounds: (i32, i32)) -> bool {
    0 <= bounds.1 - bounds.0 < i32::MAX
}

/// Whether an array with these bounds and entries of this size fills a symbol.
pub open spec fn fills_symbol(bounds: (i32, i32), entry_size: int, size: int) -> bool {
    &&& 0 < size <= MAX_TASK_INFO_SIZE
    &&& (bounds.1 - bounds.0 + 1) * entry_size == size
}

impl TaskInfoReader {
    /// The address of the device that is read.
    pub closed spec fn spec_target(self) -> AmsAddr {
        self.target
    }

    /// The symbol metadata generation that this reader was made for.
    pub closed spec fn spec_generation(self) -> u64 {
        self.symbol_generation
    }

    /// Where the task-info symbol is.
    pub closed spec fn spec_task_info(self) -> TaskInfoLocation {
        self.task_info
    }

    /// Where the app-info symbol is, if it is to be read.
    pub closed spec fn spec_app_info(self) -> Option<TaskInfoLocation> {
        self.app_info
    }

    /// The layout of a task entry.
    pub closed spec fn spec_layout(self) -> TaskInfoLayout {
        self.layout
    }

    /// The index of the first task.
    pub closed spec fn spec_first_index(self) -> i32 {
        self.first_index
    }

    /// The number of task entries.
    pub open spec fn count(self) -> int {
        self.spec_task_info().size as int / self.spec_layout().spec_entry_size() as int
    }

    /// The entries fill the task-info symbol, every entry has an index, and the
    /// app-info symbol holds the task count.
    pub open spec fn well_formed(self) -> bool {
        &&& self.spec_layout().well_formed()
        &&& 0 < self.spec_task_info().size <= MAX_TASK_INFO_SIZE
        &&& 0 < self.count()
        &&& self.count() * self.spec_layout().spec_entry_size() == self.spec_task_info().size
        &&& self.spec_first_index() + self.count() - 1 <= i32::MAX
        &&& self.spec_app_info() matches Some(location) ==> location.size
            >= APP_INFO_TASK_COUNT_SIZE
    }

    #[verifier::type_invariant]
    spec fn inv(self) -> bool {
        self.well_formed()
    }

    /// Create a reader for one target and symbol-metadata generation.
    ///
    /// `array_bounds` are the one-dimensional `_TaskInfo` bounds from symbol
    /// metadata. They must exactly describe the supplied symbol's size.
    pub fn new(
        target: AmsAddr,
        symbol_generation: u64,
        task_info: TaskInfoLocation,
        array_bounds: (i32, i32),
        layout: TaskInfoLayout,
    ) -> (r: Result<Self>)
        ensures
            if !valid_bounds(array_bounds) {
                r == Err::<Self, Error>(Error::TaskInfoLayout("task array bounds are invalid"))
            } else if !fills_symbol(
                array_bounds,
                layout.spec_entry_size() as int,
                task_info.size as int,
            ) {
                r == Err::<Self, Error>(
                    Error::TaskInfoLayout("task array bounds and symbol size disagree"),
                )
            } else {
                &&& r matches Ok(reader)
                &&& reader.spec_target() == target
                &&& reader.spec_generation() == symbol_generation
                &&& reader.spec_task_info() == task_info
                &&& reader.spec_app_info() is None
                &&& reader.spec_layout() == layout
                &&& reader.spec_first_index() == array_bounds.0
                &&& reader.count() == array_bounds.1 - array_bounds.0 + 1
                &&& reader.well_formed()
            },
    {
        proof {
            use_type_invariant(&layout);
        }
        let (first_index, last_index): (i32, i32) = array_bounds;
        let count: usize = match last_index.checked_sub(first_index) {
            Some(n) if n >= 0 && n < i32::MAX => (n + 1) as usize,
            _ => {
                return Err(Error::TaskInfoLayout("task array bounds are invalid"));
            },
        };
        let total: Option<usize> = count.checked_mul(layout.entry_size);
        if task_info.size == 0 || task_info.size > MAX_TASK_INFO_SIZE || total != Some(
            task_info.size,
        ) {
            return Err(Error::TaskInfoLayout("task array bounds and symbol size disagree"));
        }
        proof {
            let size = task_info.size as int;
            let width = layout.entry_size as int;
            assert(size == count * width);
            vstd::arithmetic::div_mod::lemma_div_multiples_vanish(count as int, width);
            assert(width * count == count * width) by (nonlinear_arith);
        }
        Ok(Self { target, symbol_generation, task_info, app_info: None, layout, first_index })
    }

    /// Include a resolved `_AppInfo` location so that `TaskCnt` is read too. A
    /// failure there leaves task data available in the snapshot.
    pub fn with_app_info(self, app_info: TaskInfoLocation) -> (r: Result<Self>)
        ensures
            if app_info.size < APP_INFO_TASK_COUNT_SIZE {
                r == Err::<Self, Error>(
                    Error::TaskInfoLayout("app-info symbol is shorter than TaskCnt"),
                )
            } else {
                &&& r matches Ok(reader)
                &&& reader.spec_app_info() == Some(app_info)
                &&& reader.spec_target() == self.spec_target()
                &&& reader.spec_generation() == self.spec_generation()
                &&& reader.spec_task_info() == self.spec_task_info()
                &&& reader.spec_layout() == self.spec_layout()
                &&& reader.spec_first_index() == self.spec_first_index()
                &&& reader.well_formed()
            },
    {
        proof {
            use_type_invariant(&self);
        }
        if app_info.size < APP_INFO_TASK_COUNT_SIZE {
            return Err(Error::TaskInfoLayout("app-info symbol is shorter than TaskCnt"));
        }
        Ok(
            TaskInfoReader {
                target: self.target,
                symbol_generation: self.symbol_generation,
                task_info: self.task_info,
                app_info: Some(app_info),
                layout: self.layout,
                first_index: self.first_index,
            },
        )
    }

    /// Return the caller-owned symbol metadata generation for this reader.
    #[must_use]
    pub fn symbol_generation(&self) -> (r: u64)
        ensures
            r == self.spec_generation(),
    {
        self.symbol_generation
    }

    /// The bytes of entry `i`.
    pub open spec fn entry(self, bytes: Seq<u8>, i: int) -> Seq<u8> {
        let width = self.spec_layout().spec_entry_size();
        bytes.subrange(i * width, i * width + width)
    }

    /// Whether `tasks` are the tasks that stand in `bytes`: one for each entry,
    /// with the index that the entry has in the array.
    pub open spec fn holds_tasks(self, bytes: Seq<u8>, tasks: Seq<PlcTaskSystemInfo>) -> bool {
        &&& tasks.len() == self.count()
        &&& forall|i: int|
            0 <= i < tasks.len() ==> (#[trigger] tasks[i]).decodes(
                self.entry(bytes, i),
                self.spec_first_index() + i,
                self.spec_layout().spec_name_offset(),
            )
    }

    /// Decode the task-info symbol.
    pub fn decode_tasks(&self, bytes: &[u8]) -> (r: Result<Vec<PlcTaskSystemInfo>>)
        ensures
            if bytes@.len() != self.spec_task_info().size {
                r == Err::<Vec<PlcTaskSystemInfo>, Error>(
                    Error::Reply(
                        "decoding task info",
                        "unexpected task-info read length",
                        (bytes@.len() % 0x1_0000_0000) as u32,
                    ),
                )
            } else {
                r matches Ok(tasks) && self.holds_tasks(bytes@, tasks@)
            },
    {
        proof {
            use_type_invariant(self);
        }
        if bytes.len() != self.task_info.size {
            return Err(
                Error::Reply(
                    "decoding task info",
                    "unexpected task-info read length",
                    low_u32(bytes.len()),
                ),
            );
        }
        let width: usize = self.layout.entry_size;
        let size: usize = self.task_info.size;
        let ghost count = self.count();
        let mut tasks: Vec<PlcTaskSystemInfo> = Vec::new();
        let mut at: usize = 0;
        assert(0 * width == 0);
        while at < size
            invariant
                size == bytes@.len() == self.spec_task_info().size,
                width == self.spec_layout().spec_entry_size(),
                self.well_formed(),
                count == self.count(),
                at == tasks@.len() * width,
                at <= size,
                size == count * width,
                tasks@.len() <= count,
                forall|i: int|
                    0 <= i < tasks@.len() ==> (#[trigger] tasks@[i]).decodes(
                        self.entry(bytes@, i),
                        self.spec_first_index() + i,
                        self.spec_layout().spec_name_offset(),
                    ),
            decreases size - at,
        {
            let slot: usize = tasks.len();
            assert(slot < count && (slot + 1) * width <= count * width && (slot + 1) * width
                == slot * width + width) by (nonlinear_arith)
                requires
                    slot * width < count * width,
                    slot <= count,
                    width > 0,
            ;
            let index: i32 = match self.first_index.checked_add(slot as i32) {
                Some(index) => index,
                None => {
                    return Err(
                        Error::Reply("decoding task info", "task array index overflow", slot as u32),
                    );
                },
            };
            let entry: &[u8] = vstd::slice::slice_subrange(bytes, at, at + width);
            assert(entry@ == self.entry(bytes@, slot as int));
            let task = decode_task(entry, index, self.layout.task_name_offset)?;
            tasks.push(task);
            at += width;
        }
        assert(tasks@.len() == count) by (nonlinear_arith)
            requires
                tasks@.len() * width == count * width,
                width > 0,
        ;
        Ok(tasks)
    }
}

/// The error of a read that came back with another length than wanted.
pub open spec fn read_length_error(reply: Seq<u8>) -> Error {
    Error::Reply("read data", "got less data than expected", reported_length(reply))
}

/// The task count that stands in a reply.
pub open spec fn app_task_count(call: Call, reply: Seq<u8>) -> Result<u32> {
    match outcome(call, reply, Some(4)) {
        Err(e) => Err(e),
        Ok(_) => if returned_data(reply).len() != APP_INFO_TASK_COUNT_SIZE {
            Err(read_length_error(reply))
        } else {
            Ok(u32_at(returned_data(reply), APP_INFO_TASK_COUNT_OFFSET as int))
        },
    }
}

/// What a snapshot says of an attempt to read the task count.
pub open spec fn reported(count: Result<u32>) -> ReportedTaskCount {
    match count {
        Ok(n) => ReportedTaskCount::Available(n),
        Err(error) => ReportedTaskCount::Unavailable(error),
    }
}

/// Get the task count out of the reply.
pub fn read_app_task_count(call: &Call, reply: &[u8]) -> (r: Result<u32>)
    requires
        complete(reply@),
    ensures
        r == app_task_count(*call, reply@),
{
    let mut bytes: [u8; 8] = [0; 8];
    Device::read_exact(call, reply, &mut bytes)?;
    Ok(value_u32(&bytes, APP_INFO_TASK_COUNT_OFFSET))
}

/// How far a sample has come.
#[derive(Debug)]
pub enum Sampling {
    /// The task-info symbol was asked for.
    Tasks(Call),
    /// The tasks are there, and the task count was asked for.
    Count(Vec<PlcTaskSystemInfo>, Call),
    /// The sample is complete.
    Done(PlcTaskInfoSnapshot),
}

impl TaskInfoReader {
    /// Start to read the configured task-info symbol from `device`.
    ///
    /// Pass the current generation from the caller's symbol cache. A mismatch
    /// returns [`Error::TaskInfoInvalidated`] before any ADS requests are made.
    /// There is one value read, plus one when app-info is configured, and no
    /// discovery or symbol-version checks. The two value reads do not form an
    /// atomic snapshot. See the reader's cache invalidation contract.
    pub fn read(&self, comms: &mut Comms, device: Device, current_generation: u64) -> (r: Result<
        Sampling,
    >)
        ensures
            if current_generation != self.spec_generation() {
                &&& r == Err::<Sampling, Error>(Error::TaskInfoInvalidated)
                &&& *final(comms) == *old(comms)
            } else if device.addr != self.spec_target() {
                &&& r == Err::<Sampling, Error>(
                    Error::TaskInfoLayout("reader was used with a different ADS target"),
                )
                &&& *final(comms) == *old(comms)
            } else {
                &&& r matches Ok(Sampling::Tasks(call))
                &&& requested(
                    Ok(call),
                    *final(comms),
                    *old(comms),
                    Command::Read,
                    device.addr,
                    IndexLength {
                        index_group: self.spec_task_info().index_group,
                        index_offset: self.spec_task_info().index_offset,
                        length: self.spec_task_info().size as u32,
                    }.bytes(),
                )
            },
    {
        proof {
            use_type_invariant(self);
        }
        if current_generation != self.symbol_generation {
            return Err(Error::TaskInfoInvalidated);
        }
        if device.address() != self.target {
            return Err(Error::TaskInfoLayout("reader was used with a different ADS target"));
        }
        let call = device.read_request(
            comms,
            self.task_info.index_group,
            self.task_info.index_offset,
            self.task_info.size,
        )?;
        Ok(Sampling::Tasks(call))
    }

    /// Get the tasks out of the reply.
    pub fn read_tasks(&self, call: &Call, reply: &[u8]) -> (r: Result<Vec<PlcTaskSystemInfo>>)
        requires
            complete(reply@),
        ensures
            match outcome(*call, reply@, Some(4)) {
                Err(e) => r == Err::<Vec<PlcTaskSystemInfo>, Error>(e),
                Ok(_) => if returned_data(reply@).len() != self.spec_task_info().size {
                    r == Err::<Vec<PlcTaskSystemInfo>, Error>(read_length_error(reply@))
                } else {
                    &&& r matches Ok(tasks)
                    &&& self.holds_tasks(returned_data(reply@), tasks@)
                },
            },
    {
        let mut bytes: Vec<u8> = Vec::new();
        bytes.resize(self.task_info.size, 0);
        Device::read_exact(call, reply, bytes.as_mut_slice())?;
        self.decode_tasks(&bytes)
    }

    /// Whether `r` and `new` are what becomes of a sample, and of the
    /// connection, when a reply comes in.
    ///
    /// If the tasks cannot be read, there is no sample.  If only the task count
    /// cannot be read, the sample says so.
    pub open spec fn advances(
        self,
        state: Sampling,
        reply: Result<Vec<u8>>,
        r: Result<Sampling>,
        old: Comms,
        new: Comms,
    ) -> bool {
        match (state, reply) {
            (Sampling::Done(_), _) => r == Ok::<Sampling, Error>(state) && new == old,
            (Sampling::Tasks(_), Err(e)) => r == Err::<Sampling, Error>(e) && new == old,
            (Sampling::Tasks(call), Ok(packet)) => match outcome(call, packet@, Some(4)) {
                Err(e) => r == Err::<Sampling, Error>(e) && new == old,
                Ok(_) => if returned_data(packet@).len() != self.spec_task_info().size {
                    r == Err::<Sampling, Error>(read_length_error(packet@)) && new == old
                } else {
                    let bytes = returned_data(packet@);
                    match self.spec_app_info() {
                        None => {
                            &&& r matches Ok(Sampling::Done(sample))
                            &&& self.holds_tasks(bytes, sample.tasks@)
                            &&& sample.reported_task_count is None
                            &&& new == old
                        },
                        Some(location) => {
                            &&& r matches Ok(Sampling::Count(tasks, call))
                            &&& self.holds_tasks(bytes, tasks@)
                            &&& requested(
                                Ok(call),
                                new,
                                old,
                                Command::Read,
                                self.spec_target(),
                                IndexLength {
                                    index_group: location.index_group,
                                    index_offset: location.index_offset,
                                    length: 8,
                                }.bytes(),
                            )
                        },
                    }
                },
            },
            (Sampling::Count(tasks, call), _) => {
                &&& r matches Ok(Sampling::Done(sample))
                &&& sample.tasks == tasks
                &&& sample.reported_task_count == Some(
                    reported(
                        match reply {
                            Ok(packet) => app_task_count(call, packet@),
                            Err(e) => Err(e),
                        },
                    ),
                )
                &&& new == old
            },
        }
    }

    /// Go on with a sample when a reply comes in, or the error that came up
    /// instead.
    pub fn advance(&self, comms: &mut Comms, state: Sampling, reply: Result<Vec<u8>>) -> (r: Result<
        Sampling,
    >)
        requires
            reply matches Ok(packet) ==> complete(packet@),
        ensures
            self.advances(state, reply, r, *old(comms), *final(comms)),
    {
        match state {
            Sampling::Done(sample) => Ok(Sampling::Done(sample)),
            Sampling::Tasks(call) => {
                let packet: Vec<u8> = reply?;
                let tasks = self.read_tasks(&call, &packet)?;
                match self.app_info {
                    None => Ok(
                        Sampling::Done(PlcTaskInfoSnapshot { reported_task_count: None, tasks }),
                    ),
                    Some(location) => {
                        let device = Device::new(self.target);
                        let call = device.read_request(
                            comms,
                            location.index_group,
                            location.index_offset,
                            APP_INFO_TASK_COUNT_SIZE,
                        )?;
                        Ok(Sampling::Count(tasks, call))
                    },
                }
            },
            Sampling::Count(tasks, call) => {
                let count: Result<u32> = match reply {
                    Ok(packet) => read_app_task_count(&call, &packet),
                    Err(e) => Err(e),
                };
                let reported_task_count = match count {
                    Ok(n) => Some(ReportedTaskCount::Available(n)),
                    Err(error) => Some(ReportedTaskCount::Unavailable(error)),
                };
                Ok(Sampling::Done(PlcTaskInfoSnapshot { reported_task_count, tasks }))
            },
        }
    }
}

/// All that is decoded of a task lies in its entry, and the entries lie in the
/// symbol one after the other: they do not overlap, and nothing is left over.
pub proof fn entries_fill_the_symbol(reader: TaskInfoReader, bytes: Seq<u8>, i: int)
    requires
        reader.well_formed(),
        bytes.len() == reader.spec_task_info().size,
        0 <= i < reader.count(),
    ensures
        ({
            let width = reader.spec_layout().spec_entry_size();
            &&& 0 <= i * width
            &&& i * width + width == (i + 1) * width
            &&& (i + 1) * width <= bytes.len()
            &&& i + 1 == reader.count() ==> (i + 1) * width == bytes.len()
            &&& reader.entry(bytes, i).len() == width
        }),
        reader.spec_layout().spec_name_offset() matches Some(offset) ==> TASK_PREFIX_SIZE <= offset
            && offset + TASK_NAME_SIZE <= reader.entry(bytes, i).len(),
{
    let width = reader.spec_layout().spec_entry_size() as int;
    let count = reader.count();
    assert(0 <= i * width && i * width + width == (i + 1) * width && (i + 1) * width <= count
        * width) by (nonlinear_arith)
        requires
            0 <= i < count,
            0 < width,
    ;
}

/// Every task keeps the index that its entry has in the array, and no two tasks
/// share one.
pub proof fn tasks_keep_their_index(
    reader: TaskInfoReader,
    bytes: Seq<u8>,
    tasks: Seq<PlcTaskSystemInfo>,
    i: int,
    j: int,
)
    requires
        reader.well_formed(),
        reader.holds_tasks(bytes, tasks),
        0 <= i < tasks.len(),
        0 <= j < tasks.len(),
    ensures
        reader.spec_first_index() <= tasks[i].index < reader.spec_first_index() + reader.count(),
        tasks[i].index == tasks[j].index <==> i == j,
{
    assert(tasks[i].decodes(
        reader.entry(bytes, i),
        reader.spec_first_index() + i,
        reader.spec_layout().spec_name_offset(),
    ));
    assert(tasks[j].decodes(
        reader.entry(bytes, j),
        reader.spec_first_index() + j,
        reader.spec_layout().spec_name_offset(),
    ));
}

/// Task names are decoded if and only if the entries have them.
pub proof fn names_only_where_present(entry: Type)
    requires
        layout_error(entry) is None,
    ensures
        name_offset(entry) is Some <==> named_field(entry.fields@, "TaskName"@) is Some,
{
}

/// There is one value read, plus one when app-info is configured: going on with
/// a sample asks for nothing but the task count, and that only if its location
/// is known and once the tasks are there.  The sample is complete after that.
pub proof fn one_request_for_each_value(
    reader: TaskInfoReader,
    state: Sampling,
    reply: Result<Vec<u8>>,
    r: Result<Sampling>,
    old: Comms,
    new: Comms,
)
    requires
        reader.advances(state, reply, r, old, new),
    ensures
        ({
            let asked = state is Tasks && r matches Ok(Sampling::Count(_, _));
            &&& new.invoke_id == if asked {
                next_id(old.invoke_id)
            } else {
                old.invoke_id
            }
            &&& asked ==> reader.spec_app_info() is Some
        }),
        r matches Ok(next) ==> next !is Tasks,
        state is Count ==> r matches Ok(Sampling::Done(_)),
        reader.spec_app_info() is None && state is Tasks ==> r is Err || r matches Ok(
            Sampling::Done(_),
        ),
{
}

/// Reading the task-info symbol gives the tasks that the device sent.
pub proof fn sample_gives_back(reader: TaskInfoReader, call: Call, source: AmsAddr, bytes: Seq<u8>)
    requires
        reader.well_formed(),
        bytes.len() == reader.spec_task_info().size,
    ensures
        ({
            let reply = reply_packet(
                call.cmd,
                call.target,
                source,
                call.invoke_id,
                0,
                0,
                u32_bytes(bytes.len() as u32) + bytes,
            );
            &&& complete(reply)
            &&& outcome(call, reply, Some(4)) is Ok
            &&& payload(reply).len() == 4 + reader.spec_task_info().size
            &&& returned_data(reply) == bytes
        }),
{
    read_gives_back(call, source, bytes.len() as u32, bytes, bytes);
}

/// A task entry that is laid out from the values of its fields, in the order and
/// with the sizes that are documented, and then anything else.
pub open spec fn entry_of(
    obj_id: u32,
    cycle_time: u32,
    priority: u16,
    ads_port: u16,
    cycle_count: u32,
    dc_task_time: Seq<u8>,
    last_exec_time: u32,
    first_cycle: u8,
    cycle_time_exceeded: u8,
    in_call_after_output_update: u8,
    rt_violation: u8,
    rest: Seq<u8>,
) -> Seq<u8> {
    let flags = seq![first_cycle, cycle_time_exceeded, in_call_after_output_update, rt_violation];
    u32_bytes(obj_id) + (u32_bytes(cycle_time) + (u16_bytes(priority) + (u16_bytes(ads_port) + (
    u32_bytes(cycle_count) + (dc_task_time + (u32_bytes(last_exec_time) + (flags + rest)))))))
}

/// A decoded task has the values that its entry was laid out from, each in the
/// member of its own name; times are counted in units of 100 nanoseconds.
#[verifier::rlimit(40)]
pub proof fn task_has_what_was_written(
    task: PlcTaskSystemInfo,
    index: int,
    name_offset: Option<usize>,
    obj_id: u32,
    cycle_time: u32,
    priority: u16,
    ads_port: u16,
    cycle_count: u32,
    dc_task_time: Seq<u8>,
    last_exec_time: u32,
    first_cycle: u8,
    cycle_time_exceeded: u8,
    in_call_after_output_update: u8,
    rt_violation: u8,
    rest: Seq<u8>,
)
    requires
        dc_task_time.len() == 8,
        task.decodes(
            entry_of(
                obj_id,
                cycle_time,
                priority,
                ads_port,
                cycle_count,
                dc_task_time,
                last_exec_time,
                first_cycle,
                cycle_time_exceeded,
                in_call_after_output_update,
                rt_violation,
                rest,
            ),
            index,
            name_offset,
        ),
    ensures
        task.index == index,
        task.object_id == obj_id,
        duration_nanos(task.cycle_time) == cycle_time * 100,
        task.priority == priority,
        task.ads_port == ads_port,
        task.cycle_count == cycle_count,
        task.dc_task_time == i64_at(dc_task_time, 0),
        duration_nanos(task.last_exec_time) == last_exec_time * 100,
        task.first_cycle <==> first_cycle != 0,
        task.cycle_time_exceeded <==> cycle_time_exceeded != 0,
        task.in_call_after_output_update <==> in_call_after_output_update != 0,
        task.rt_violation <==> rt_violation != 0,
{
    let flags = seq![first_cycle, cycle_time_exceeded, in_call_after_output_update, rt_violation];
    let p7 = flags + rest;
    let p6 = u32_bytes(last_exec_time) + p7;
    let p5 = dc_task_time + p6;
    let p4 = u32_bytes(cycle_count) + p5;
    let p3 = u16_bytes(ads_port) + p4;
    let p2 = u16_bytes(priority) + p3;
    let p1 = u32_bytes(cycle_time) + p2;
    let e = entry_of(
        obj_id,
        cycle_time,
        priority,
        ads_port,
        cycle_count,
        dc_task_time,
        last_exec_time,
        first_cycle,
        cycle_time_exceeded,
        in_call_after_output_update,
        rt_violation,
        rest,
    );
    assert(e == u32_bytes(obj_id) + p1);
    assert(e.skip(0) =~= e);
    field_u32(e, 0, obj_id, p1);
    field_u32(e, 4, cycle_time, p2);
    field_u16(e, 8, priority, p3);
    field_u16(e, 10, ads_port, p4);
    field_u32(e, 12, cycle_count, p5);
    assert(e.skip(24) =~= e.skip(16).skip(8));
    assert(p5.skip(8) =~= p6);
    let dc = e.skip(16);
    assert(e[16] == dc[0] && e[17] == dc[1] && e[18] == dc[2] && e[19] == dc[3]);
    assert(e[20] == dc[4] && e[21] == dc[5] && e[22] == dc[6] && e[23] == dc[7]);
    field_u32(e, 24, last_exec_time, p7);
    assert(e[28] == e.skip(28)[0] && e[29] == e.skip(28)[1] && e[30] == e.skip(28)[2] && e[31]
        == e.skip(28)[3]);
}

/// Each member of a decoded task is what stands in the entry at the offset of the
/// required field of its name.
pub proof fn members_stand_at_their_fields(
    task: PlcTaskSystemInfo,
    entry: Seq<u8>,
    index: int,
    name_offset: Option<usize>,
)
    requires
        task.decodes(entry, index, name_offset),
    ensures
        ({
            let f = required_fields();
            &&& f.len() == 11
            &&& f[0].name == "ObjId" && task.object_id == u32_at(entry, f[0].offset as int)
            &&& f[1].name == "CycleTime" && duration_nanos(task.cycle_time) == u32_at(
                entry,
                f[1].offset as int,
            ) * 100
            &&& f[2].name == "Priority" && task.priority == u16_at(entry, f[2].offset as int)
            &&& f[3].name == "AdsPort" && task.ads_port == u16_at(entry, f[3].offset as int)
            &&& f[4].name == "CycleCount" && task.cycle_count == u32_at(entry, f[4].offset as int)
            &&& f[5].name == "DcTaskTime" && task.dc_task_time == i64_at(entry, f[5].offset as int)
            &&& f[6].name == "LastExecTime" && duration_nanos(task.last_exec_time) == u32_at(
                entry,
                f[6].offset as int,
            ) * 100
            &&& f[7].name == "FirstCycle" && task.first_cycle == (entry[f[7].offset as int] != 0)
            &&& f[8].name == "CycleTimeExceeded" && task.cycle_time_exceeded == (
            entry[f[8].offset as int] != 0)
            &&& f[9].name == "InCallAfterOutputUpdate" && task.in_call_after_output_update == (
            entry[f[9].offset as int] != 0)
            &&& f[10].name == "RTViolation" && task.rt_violation == (entry[f[10].offset as int]
                != 0)
        }),
{
}

/// The required fields have the documented offsets, sizes and base types.
pub proof fn required_fields_are_documented()
    ensures
        ({
            let f = required_fields();
            &&& f.len() == 11
            &&& f[0].offset == 0 && f[0].size == 4 && f[0].base_type == 19
            &&& f[1].offset == 4 && f[1].size == 4 && f[1].base_type == 19
            &&& f[2].offset == 8 && f[2].size == 2 && f[2].base_type == 18
            &&& f[3].offset == 10 && f[3].size == 2 && f[3].base_type == 18
            &&& f[4].offset == 12 && f[4].size == 4 && f[4].base_type == 19
            &&& f[5].offset == 16 && f[5].size == 8 && f[5].base_type == 20
            &&& f[6].offset == 24 && f[6].size == 4 && f[6].base_type == 19
            &&& f[7].offset == 28 && f[7].size == 1 && f[7].base_type == 33
            &&& f[8].offset == 29 && f[8].size == 1 && f[8].base_type == 33
            &&& f[9].offset == 30 && f[9].size == 1 && f[9].base_type == 33
            &&& f[10].offset == 31 && f[10].size == 1 && f[10].base_type == 33
        }),
{
}

/// A task has a name if and only if its entry has a place for one, and then it is
/// the text in the 64 bytes there, up to the first zero byte.
pub proof fn task_name_is_what_was_written(
    task: PlcTaskSystemInfo,
    entry: Seq<u8>,
    index: int,
    name_offset: Option<usize>,
    text: Seq<u8>,
)
    requires
        task.decodes(entry, index, name_offset),
        name_offset matches Some(offset) ==> {
            &&& offset + 64 <= entry.len()
            &&& text.len() <= 64
            &&& forall|k: int| 0 <= k < text.len() ==> #[trigger] text[k] != 0
            &&& forall|k: int|
                0 <= k < text.len() ==> #[trigger] entry[offset + k] == text[k]
            &&& text.len() < 64 ==> entry[offset + text.len()] == 0
        },
    ensures
        task.name is Some <==> name_offset is Some,
        name_offset is Some && valid_utf8(text) ==> (task.name matches Some(name) && name@
            == decode_utf8(text)),
        name_offset is Some ==> (task.name matches Some(name) && name@ == lossy_text(text)),
{
    if let Some(offset) = name_offset {
        let field = entry.subrange(offset as int, offset + 64);
        text_ends_at_zero(field);
        let n = until_zero(field).len();
        if n < text.len() {
            assert(field[n as int] == entry[offset + n as int]);
            assert(text[n as int] != 0);
            assert(false);
        }
        if text.len() < n {
            let k = text.len() as int;
            assert(field[k] == entry[offset + k]);
            assert(false);
        }
        assert(until_zero(field) =~= text) by {
            assert forall|k: int| 0 <= k < text.len() implies until_zero(field)[k] == text[k] by {
                assert(field[k] == entry[offset + k]);
            }
        }
    }
}

/// From field `k` on nothing is wrong if and only if every required field is
/// there as it has to be; otherwise the first one that is not decides.
proof fn required_error_is_first(fields: Seq<Field>, k: int)
    requires
        0 <= k <= 11,
    ensures
        required_error(fields, k) is None <==> forall|j: int|
            k <= j < 11 ==> (named_field(fields, (#[trigger] required_fields()[j]).name@) matches Some(
                field,
            ) && is_required(field, required_fields()[j])),
    decreases 11 - k,
{
    if k < 11 {
        required_error_is_first(fields, k + 1);
        assert(required_fields()[k] == required_fields()[k]);
        if required_error(fields, k) is None {
            assert forall|j: int| k <= j < 11 implies (named_field(
                fields,
                (#[trigger] required_fields()[j]).name@,
            ) matches Some(field) && is_required(field, required_fields()[j])) by {}
        }
    }
}

/// A layout is accepted if and only if an entry has at least 32 bytes, every
/// required field is there with its offset, size and base type and is no array,
/// and a task name, if there is one, lies behind the required fields and within
/// the entry, has 64 bytes and the base type of a text, and is no array.
#[verifier::rlimit(40)]
pub proof fn layout_is_accepted(entry: Type)
    ensures
        layout_error(entry) is None <==> {
            &&& entry.size >= 32
            &&& forall|j: int|
                0 <= j < 11 ==> (named_field(
                    entry.fields@,
                    (#[trigger] required_fields()[j]).name@,
                ) matches Some(field) && {
                    &&& field.offset == Some(required_fields()[j].offset)
                    &&& field.size == required_fields()[j].size
                    &&& field.base_type == required_fields()[j].base_type
                    &&& field.array@.len() == 0
                })
            &&& named_field(entry.fields@, "TaskName"@) matches Some(field) ==> {
                &&& field.offset matches Some(offset)
                &&& 32 <= offset
                &&& offset + 64 <= entry.size
                &&& field.size == 64
                &&& field.base_type == 30
                &&& field.array@.len() == 0
            }
        },
        layout_error(entry) is None ==> (named_field(entry.fields@, "TaskName"@) matches Some(field)
            ==> (field.offset matches Some(offset) && name_offset(entry) == Some(offset as usize))),
        layout_error(entry) is None && named_field(entry.fields@, "TaskName"@) is None
            ==> name_offset(entry) is None,
{
    required_error_is_first(entry.fields@, 0);
    let f = required_fields();
    if layout_error(entry) is None {
        assert forall|j: int| 0 <= j < 11 implies (named_field(
            entry.fields@,
            (#[trigger] required_fields()[j]).name@,
        ) matches Some(field) && {
            &&& field.offset == Some(required_fields()[j].offset)
            &&& field.size == required_fields()[j].size
            &&& field.base_type == required_fields()[j].base_type
            &&& field.array@.len() == 0
        }) by {}
    }
}

/// A layout that is refused is refused for what comes first: its size, then a
/// required field, then the task name.
pub proof fn layout_error_is_reported(entry: Type, k: int)
    requires
        0 <= k < 11,
        forall|j: int|
            0 <= j < k ==> (named_field(
                entry.fields@,
                (#[trigger] required_fields()[j]).name@,
            ) matches Some(field) && is_required(field, required_fields()[j])),
    ensures
        entry.size < 32 ==> layout_error(entry) == Some(
            "task entry is shorter than documented prefix",
        ),
        entry.size >= 32 && named_field(entry.fields@, required_fields()[k].name@) is None
            ==> layout_error(entry) == Some("a required task field is missing"),
        entry.size >= 32 && (named_field(entry.fields@, required_fields()[k].name@) matches Some(
            field,
        ) && !is_required(field, required_fields()[k])) ==> layout_error(entry) == Some(
            "a required task field has an unsupported type, size, or offset",
        ),
{
    required_error_skips(entry.fields@, 0, k);
}

/// Fields that are there as they have to be are passed over.
proof fn required_error_skips(fields: Seq<Field>, from: int, k: int)
    requires
        0 <= from <= k < 11,
        forall|j: int|
            from <= j < k ==> (named_field(
                fields,
                (#[trigger] required_fields()[j]).name@,
            ) matches Some(field) && is_required(field, required_fields()[j])),
    ensures
        required_error(fields, from) == required_error(fields, k),
    decreases k - from,
{
    if from < k {
        assert(required_fields()[from] == required_fields()[from]);
        required_error_skips(fields, from + 1, k);
    }
}

/// Array bounds describe a task-info symbol if and only if the last index is not
/// in front of the first, their number can be counted, the symbol has some bytes
/// but no more than 16 MiB, and that many entries take up exactly its size.
pub proof fn bounds_describe_the_symbol(bounds: (i32, i32), entry_size: int, size: int)
    ensures
        valid_bounds(bounds) <==> bounds.0 <= bounds.1 && bounds.1 - bounds.0 + 1 <= 0x7fff_ffff,
        fills_symbol(bounds, entry_size, size) <==> 1 <= size && size <= 16 * 1024 * 1024 && (
        bounds.1 - bounds.0 + 1) * entry_size == size,
{
}

/// There is one task for each entry, in turn, with the index that the entry has
/// in the array and with what stands in the bytes of that entry alone.
#[verifier::rlimit(40)]
pub proof fn each_entry_is_a_task(
    reader: TaskInfoReader,
    bytes: Seq<u8>,
    tasks: Seq<PlcTaskSystemInfo>,
    i: int,
)
    requires
        reader.well_formed(),
        bytes.len() == reader.spec_task_info().size,
        reader.holds_tasks(bytes, tasks),
        0 <= i < tasks.len(),
    ensures
        ({
            let width = reader.spec_layout().spec_entry_size();
            let at = i * width;
            &&& tasks.len() * width == bytes.len()
            &&& tasks[i].index == reader.spec_first_index() + i
            &&& tasks[i].decodes(
                bytes.subrange(at, at + width),
                reader.spec_first_index() + i,
                reader.spec_layout().spec_name_offset(),
            )
            &&& tasks[i].object_id == u32_at(bytes, at)
            &&& duration_nanos(tasks[i].cycle_time) == u32_at(bytes, at + 4) * 100
            &&& tasks[i].priority == u16_at(bytes, at + 8)
            &&& tasks[i].ads_port == u16_at(bytes, at + 10)
            &&& tasks[i].cycle_count == u32_at(bytes, at + 12)
            &&& tasks[i].first_cycle == (bytes[at + 28] != 0)
            &&& tasks[i].cycle_time_exceeded == (bytes[at + 29] != 0)
            &&& tasks[i].in_call_after_output_update == (bytes[at + 30] != 0)
            &&& tasks[i].rt_violation == (bytes[at + 31] != 0)
            &&& duration_nanos(tasks[i].last_exec_time) == u32_at(bytes, at + 24) * 100
        }),
{
    let width = reader.spec_layout().spec_entry_size() as int;
    entries_fill_the_symbol(reader, bytes, i);
    let at = i * width;
    let e = reader.entry(bytes, i);
    assert(tasks[i].decodes(
        e,
        reader.spec_first_index() + i,
        reader.spec_layout().spec_name_offset(),
    ));
    assert(e =~= bytes.subrange(at, at + width));
    assert forall|k: int| 0 <= k < width implies #[trigger] e[k] == bytes[at + k] by {}
    assert(e[0] == bytes[at + 0] && e[1] == bytes[at + 1] && e[2] == bytes[at + 2] && e[3]
        == bytes[at + 3]);
    assert(e[4] == bytes[at + 4] && e[5] == bytes[at + 5] && e[6] == bytes[at + 6] && e[7]
        == bytes[at + 7]);
    assert(e[8] == bytes[at + 8] && e[9] == bytes[at + 9] && e[10] == bytes[at + 10] && e[11]
        == bytes[at + 11]);
    assert(e[12] == bytes[at + 12] && e[13] == bytes[at + 13] && e[14] == bytes[at + 14] && e[15]
        == bytes[at + 15]);
    assert(e[24] == bytes[at + 24] && e[25] == bytes[at + 25] && e[26] == bytes[at + 26] && e[27]
        == bytes[at + 27]);
    assert(e[28] == bytes[at + 28] && e[29] == bytes[at + 29] && e[30] == bytes[at + 30] && e[31]
        == bytes[at + 31]);
}

/// The task count is the number in the second half of the eight bytes that come
/// back; if another number of bytes comes back, that is an error.
#[verifier::rlimit(40)]
pub proof fn task_count_is_what_was_sent(
    call: Call,
    source: AmsAddr,
    length: u32,
    head: u32,
    count: u32,
)
    ensures
        app_task_count(
            call,
            reply_packet(
                call.cmd,
                call.target,
                source,
                call.invoke_id,
                0,
                0,
                u32_bytes(length) + (u32_bytes(head) + u32_bytes(count)),
            ),
        ) == Ok::<u32, Error>(count),
{
    let data = u32_bytes(head) + u32_bytes(count);
    read_gives_back(call, source, length, data, data);
    assert(data.skip(0) =~= data);
    field_u32(data, 0, head, u32_bytes(count));
    assert(u32_bytes(count) + Seq::<u8>::empty() =~= u32_bytes(count));
    field_u32(data, 4, count, Seq::empty());
}

/// A task count of which not exactly eight bytes came back is an error, and so is
/// one that the device refused.
pub proof fn task_count_needs_its_bytes(call: Call, reply: Seq<u8>)
    requires
        complete(reply),
    ensures
        app_task_count(call, reply) is Ok <==> outcome(call, reply, Some(4)) is Ok && u32_at(
            reply,
            26,
        ) == 16,
        outcome(call, reply, Some(4)) matches Err(e) ==> app_task_count(call, reply) == Err::<
            u32,
            Error,
        >(e),
        reported(app_task_count(call, reply)) is Available <==> app_task_count(call, reply) is Ok,
{
    if outcome(call, reply, Some(4)) is Ok {
        reply_is_accepted(call, reply, Some(4));
        read_reply_fields(reply);
    }
}

/// If only the task count cannot be read, the sample still has its tasks, and
/// says what went wrong; if it can be read, the sample has it.
pub proof fn count_failure_keeps_the_tasks(
    reader: TaskInfoReader,
    tasks: Vec<PlcTaskSystemInfo>,
    call: Call,
    reply: Result<Vec<u8>>,
    r: Result<Sampling>,
    old: Comms,
    new: Comms,
)
    requires
        reader.advances(Sampling::Count(tasks, call), reply, r, old, new),
    ensures
        r matches Ok(Sampling::Done(sample)) && {
            &&& sample.tasks == tasks
            &&& reply matches Err(e) ==> sample.reported_task_count == Some(
                ReportedTaskCount::Unavailable(e),
            )
            &&& reply matches Ok(packet) ==> match app_task_count(call, packet@) {
                Ok(n) => sample.reported_task_count == Some(ReportedTaskCount::Available(n)),
                Err(e) => sample.reported_task_count == Some(ReportedTaskCount::Unavailable(e)),
            }
        },
        new == old,
{
}

/// If the tasks cannot be read, there is no sample; if they can, they are those
/// that came back, and the task count is asked for if and only if its location is
/// known: eight bytes there, of the device that was sampled.
#[verifier::rlimit(40)]
pub proof fn tasks_come_first(
    reader: TaskInfoReader,
    call: Call,
    reply: Result<Vec<u8>>,
    r: Result<Sampling>,
    old: Comms,
    new: Comms,
)
    requires
        reader.advances(Sampling::Tasks(call), reply, r, old, new),
    ensures
        reply matches Err(e) ==> r == Err::<Sampling, Error>(e) && new == old,
        reply matches Ok(packet) ==> {
            let ok = outcome(call, packet@, Some(4)) is Ok && returned_data(packet@).len()
                == reader.spec_task_info().size;
            &&& r is Ok <==> ok
            &&& ok && reader.spec_app_info() is None ==> (r matches Ok(Sampling::Done(sample)) && {
                &&& reader.holds_tasks(returned_data(packet@), sample.tasks@)
                &&& sample.reported_task_count is None
            })
            &&& ok ==> (reader.spec_app_info() matches Some(location) ==> (r matches Ok(
                Sampling::Count(tasks, next),
            ) && {
                let p = next.request@;
                &&& reader.holds_tasks(returned_data(packet@), tasks@)
                &&& p.len() == 50
                &&& p.subrange(6, 14) == reader.spec_target().bytes()
                &&& u16_at(p, 22) == 2
                &&& u32_at(p, 38) == location.index_group
                &&& u32_at(p, 42) == location.index_offset
                &&& u32_at(p, 46) == 8
            }))
        },
{
    if let Ok(Sampling::Count(tasks, next)) = r {
        if let Some(location) = reader.spec_app_info() {
            read_request_fields(
                next,
                new,
                old,
                reader.spec_target(),
                IndexLength {
                    index_group: location.index_group,
                    index_offset: location.index_offset,
                    length: 8,
                },
            );
        }
    }
}

/// If all required fields are there, a layout is refused only for its task name.
pub proof fn bad_task_name_is_reported(entry: Type, field: Field)
    requires
        entry.size >= 32,
        forall|j: int|
            0 <= j < 11 ==> (named_field(
                entry.fields@,
                (#[trigger] required_fields()[j]).name@,
            ) matches Some(field) && is_required(field, required_fields()[j])),
        named_field(entry.fields@, "TaskName"@) == Some(field),
        field.size != 64 || field.base_type != 30 || field.array@.len() != 0 || field.offset is None
            || field.offset->0 < 32 || field.offset->0 + 64 > entry.size,
    ensures
        layout_error(entry) == Some("TaskName has an unsupported type, size, or offset"),
{
    required_error_is_first(entry.fields@, 0);
}

/// A read of the wrong length is reported with the length that the device gave,
/// for the tasks and for the task count alike, and a complete sample stays as it
/// is.
pub proof fn wrong_length_is_reported(
    reader: TaskInfoReader,
    state: Sampling,
    packet: Vec<u8>,
    r: Result<Sampling>,
    old: Comms,
    new: Comms,
)
    requires
        reader.advances(state, Ok(packet), r, old, new),
    ensures
        state matches Sampling::Tasks(call) ==> (outcome(call, packet@, Some(4)) is Ok
            && returned_data(packet@).len() != reader.spec_task_info().size ==> r == Err::<
            Sampling,
            Error,
        >(
            Error::Reply(
                "read data",
                "got less data than expected",
                u32_at(payload(packet@), 0),
            ),
        ) && new == old),
        state matches Sampling::Tasks(call) ==> (outcome(call, packet@, Some(4)) matches Err(e)
            ==> r == Err::<Sampling, Error>(e) && new == old),
        state matches Sampling::Count(tasks, call) ==> (outcome(call, packet@, Some(4)) is Ok
            && returned_data(packet@).len() != 8 ==> app_task_count(call, packet@) == Err::<
            u32,
            Error,
        >(
            Error::Reply(
                "read data",
                "got less data than expected",
                u32_at(payload(packet@), 0),
            ),
        )),
        state is Done ==> r == Ok::<Sampling, Error>(state) && new == old,
{
}

/// A well-formed reader has whole entries: their number times their size is the
/// size of the symbol.
pub proof fn reader_counts_its_entries(reader: TaskInfoReader)
    requires
        reader.well_formed(),
    ensures
        reader.count() >= 1,
        reader.count() * reader.spec_layout().spec_entry_size() == reader.spec_task_info().size,
        reader.spec_layout().spec_entry_size() >= 32,
        reader.spec_task_info().size <= 16 * 1024 * 1024,
{
}

} // verus!

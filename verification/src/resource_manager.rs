//! Resource Manager bookkeeping of one process.

use crate::assoc::{AssocMap, KeySet};
use crate::cells::{CellDefault, CellValue, SharedCells, SharedProcessValue};
use crate::forks::ProcessForkMap;
use crate::keys::FourCharCode;
use crate::text::equal_ignoring_case;
use crate::vfs_resources::{ProcessVfsResourceFileRecords, ResourceFileIndex};
use vstd::prelude::*;

verus! {

/// An open resource file.
pub struct ProcessResourceFileRecord {
    pub ref_num: i16,
    pub path: String,
}

/// A resource of a file in the virtual file system.
pub struct ProcessVfsResourceRecord {
    pub ref_num: i16,
    pub path: String,
    pub res_type: u32,
    pub res_id: i16,
    pub name: Vec<u8>,
    pub data: Vec<u8>,
    pub raw_data: Option<Vec<u8>>,
    pub raw_attrs: Option<u16>,
    pub attrs: u16,
    pub handle: u32,
}

/// Guest-memory view of one open classic resource file.
pub struct ProcessResourceFileMap {
    pub loaded: AssocMap<(FourCharCode, i16), u32>,
    pub named: AssocMap<(FourCharCode, String), (i16, u32)>,
    pub names_by_id: AssocMap<(FourCharCode, i16), String>,
    pub attrs: AssocMap<(FourCharCode, i16), u8>,
    pub map_attrs: u16,
}

/// Open classic resource-file chain of one process.
pub struct ProcessLoadedResources {
    pub files: AssocMap<u16, ProcessResourceFileMap>,
    pub names: AssocMap<u16, String>,
    pub search_order: Vec<u16>,
    pub current_file: u16,
}

/// Tables about resources in use.
pub struct ProcessResourceTables {
    pub loaded_handles: AssocMap<u32, (u32, FourCharCode, i16)>,
    pub resource_handles_by_key: AssocMap<(u16, FourCharCode, i16), u32>,
    pub detached_handles: AssocMap<u32, (FourCharCode, i16)>,
    pub resource_handle_files: AssocMap<u32, u16>,
    pub detached_handle_files: AssocMap<u32, u16>,
    pub resources: Option<ProcessLoadedResources>,
    pub resource_file_order: AssocMap<u16, Vec<(FourCharCode, i16)>>,
    pub resource_backing_data: AssocMap<(u16, FourCharCode, i16), Vec<u8>>,
    pub resident_resources: KeySet<(u16, FourCharCode, i16)>,
    pub resource_files: Vec<ProcessResourceFileRecord>,
}

/// Switches of the Resource Manager that no resource map holds.
#[derive(Debug, Clone, Copy, PartialEq, Eq, Structural)]
pub struct ProcessResourcePolicyState {
    pub res_load: bool,
    pub res_purge: bool,
}

/// A handle to the Resource Manager's switches.
pub struct SharedProcessResourcePolicy {
    pub cell: SharedProcessValue<ProcessResourcePolicyState>,
}

/// Resource Manager bookkeeping that the adapters of a process share.
pub struct ProcessResourceManagerState {
    /// The current resource file of the process.
    pub current_resource_file: SharedProcessValue<i16>,
    pub policy: SharedProcessResourcePolicy,
    pub tables: ProcessResourceTables,
    pub vfs_resource_files: ProcessVfsResourceFileRecords,
    pub vfs_resources: Vec<ProcessVfsResourceRecord>,
}

/// The cells that Resource Managers use.
pub struct ResourceCells {
    pub current_files: SharedCells<i16>,
    pub policies: SharedCells<ProcessResourcePolicyState>,
    pub maps: SharedCells<ProcessForkMap>,
    pub forks: SharedCells<Vec<u8>>,
}

impl CellDefault for ProcessResourceFileRecord {
    open spec fn is_default(&self) -> bool {
        self.ref_num == 0 && self.path@.len() == 0
    }

    fn default_value() -> (value: Self) {
        ProcessResourceFileRecord { ref_num: 0, path: String::new() }
    }
}

impl CellValue for ProcessResourceFileRecord {
    open spec fn same(&self, other: &Self) -> bool {
        *self == *other
    }

    fn copy_value(&self) -> (copy: Self) {
        ProcessResourceFileRecord { ref_num: self.ref_num, path: self.path.clone() }
    }
}

impl CellDefault for ProcessVfsResourceRecord {
    open spec fn is_default(&self) -> bool {
        &&& self.ref_num == 0
        &&& self.path@.len() == 0
        &&& self.res_type == 0
        &&& self.res_id == 0
        &&& self.name@.len() == 0
        &&& self.data@.len() == 0
        &&& self.raw_data is None
        &&& self.raw_attrs is None
        &&& self.attrs == 0
        &&& self.handle == 0
    }

    fn default_value() -> (value: Self) {
        ProcessVfsResourceRecord {
            ref_num: 0,
            path: String::new(),
            res_type: 0,
            res_id: 0,
            name: Vec::new(),
            data: Vec::new(),
            raw_data: None,
            raw_attrs: None,
            attrs: 0,
            handle: 0,
        }
    }
}

impl CellValue for ProcessVfsResourceRecord {
    open spec fn same(&self, other: &Self) -> bool {
        &&& self.ref_num == other.ref_num
        &&& self.path == other.path
        &&& self.res_type == other.res_type
        &&& self.res_id == other.res_id
        &&& self.name.same(&other.name)
        &&& self.data.same(&other.data)
        &&& self.raw_data.same(&other.raw_data)
        &&& self.raw_attrs == other.raw_attrs
        &&& self.attrs == other.attrs
        &&& self.handle == other.handle
    }

    fn copy_value(&self) -> (copy: Self) {
        ProcessVfsResourceRecord {
            ref_num: self.ref_num,
            path: self.path.clone(),
            res_type: self.res_type,
            res_id: self.res_id,
            name: self.name.copy_value(),
            data: self.data.copy_value(),
            raw_data: self.raw_data.copy_value(),
            raw_attrs: self.raw_attrs,
            attrs: self.attrs,
            handle: self.handle,
        }
    }
}

impl CellDefault for ProcessResourceFileMap {
    open spec fn is_default(&self) -> bool {
        &&& self.loaded.is_default()
        &&& self.named.is_default()
        &&& self.names_by_id.is_default()
        &&& self.attrs.is_default()
        &&& self.map_attrs == 0
    }

    fn default_value() -> (value: Self) {
        ProcessResourceFileMap {
            loaded: AssocMap::new(),
            named: AssocMap::new(),
            names_by_id: AssocMap::new(),
            attrs: AssocMap::new(),
            map_attrs: 0,
        }
    }
}

impl CellValue for ProcessResourceFileMap {
    open spec fn same(&self, other: &Self) -> bool {
        &&& self.loaded.same(&other.loaded)
        &&& self.named.same(&other.named)
        &&& self.names_by_id.same(&other.names_by_id)
        &&& self.attrs.same(&other.attrs)
        &&& self.map_attrs == other.map_attrs
    }

    fn copy_value(&self) -> (copy: Self) {
        ProcessResourceFileMap {
            loaded: self.loaded.copy_value(),
            named: self.named.copy_value(),
            names_by_id: self.names_by_id.copy_value(),
            attrs: self.attrs.copy_value(),
            map_attrs: self.map_attrs,
        }
    }
}

impl CellDefault for ProcessLoadedResources {
    open spec fn is_default(&self) -> bool {
        &&& self.files.is_default()
        &&& self.names.is_default()
        &&& self.search_order.is_default()
        &&& self.current_file == 0
    }

    fn default_value() -> (value: Self) {
        ProcessLoadedResources {
            files: AssocMap::new(),
            names: AssocMap::new(),
            search_order: Vec::new(),
            current_file: 0,
        }
    }
}

impl CellValue for ProcessLoadedResources {
    open spec fn same(&self, other: &Self) -> bool {
        &&& self.files.same(&other.files)
        &&& self.names.same(&other.names)
        &&& self.search_order.same(&other.search_order)
        &&& self.current_file == other.current_file
    }

    fn copy_value(&self) -> (copy: Self) {
        ProcessLoadedResources {
            files: self.files.copy_value(),
            names: self.names.copy_value(),
            search_order: self.search_order.copy_value(),
            current_file: self.current_file,
        }
    }
}

impl CellDefault for ProcessResourceTables {
    /// No resource is in use.
    open spec fn is_default(&self) -> bool {
        &&& self.loaded_handles.is_default()
        &&& self.resource_handles_by_key.is_default()
        &&& self.detached_handles.is_default()
        &&& self.resource_handle_files.is_default()
        &&& self.detached_handle_files.is_default()
        &&& self.resources is None
        &&& self.resource_file_order.is_default()
        &&& self.resource_backing_data.is_default()
        &&& self.resident_resources.is_default()
        &&& self.resource_files@.len() == 0
    }

    fn default_value() -> (value: Self) {
        ProcessResourceTables {
            loaded_handles: AssocMap::new(),
            resource_handles_by_key: AssocMap::new(),
            detached_handles: AssocMap::new(),
            resource_handle_files: AssocMap::new(),
            detached_handle_files: AssocMap::new(),
            resources: None,
            resource_file_order: AssocMap::new(),
            resource_backing_data: AssocMap::new(),
            resident_resources: KeySet::new(),
            resource_files: Vec::new(),
        }
    }
}

impl CellValue for ProcessResourceTables {
    open spec fn same(&self, other: &Self) -> bool {
        &&& self.loaded_handles.same(&other.loaded_handles)
        &&& self.resource_handles_by_key.same(&other.resource_handles_by_key)
        &&& self.detached_handles.same(&other.detached_handles)
        &&& self.resource_handle_files.same(&other.resource_handle_files)
        &&& self.detached_handle_files.same(&other.detached_handle_files)
        &&& self.resources.same(&other.resources)
        &&& self.resource_file_order.same(&other.resource_file_order)
        &&& self.resource_backing_data.same(&other.resource_backing_data)
        &&& self.resident_resources.same(&other.resident_resources)
        &&& self.resource_files.same(&other.resource_files)
    }

    fn copy_value(&self) -> (copy: Self) {
        ProcessResourceTables {
            loaded_handles: self.loaded_handles.copy_value(),
            resource_handles_by_key: self.resource_handles_by_key.copy_value(),
            detached_handles: self.detached_handles.copy_value(),
            resource_handle_files: self.resource_handle_files.copy_value(),
            detached_handle_files: self.detached_handle_files.copy_value(),
            resources: self.resources.copy_value(),
            resource_file_order: self.resource_file_order.copy_value(),
            resource_backing_data: self.resource_backing_data.copy_value(),
            resident_resources: self.resident_resources.copy_value(),
            resource_files: self.resource_files.copy_value(),
        }
    }
}

impl ProcessResourceTables {
    /// Whether no resource is in use.
    pub fn is_empty(&self) -> (empty: bool)
        ensures
            empty == self.is_default(),
    {
        self.loaded_handles.is_empty() && self.resource_handles_by_key.is_empty()
            && self.detached_handles.is_empty() && self.resource_handle_files.is_empty()
            && self.detached_handle_files.is_empty() && self.resources.is_none()
            && self.resource_file_order.is_empty() && self.resource_backing_data.is_empty()
            && self.resident_resources.is_empty() && self.resource_files.len() == 0
    }
}

impl ProcessResourcePolicyState {
    /// Resources are loaded and not purged.
    pub open spec fn pristine(self) -> bool {
        self.res_load && !self.res_purge
    }

    pub fn new() -> (policy: Self)
        ensures
            policy == (ProcessResourcePolicyState { res_load: true, res_purge: false }),
    {
        ProcessResourcePolicyState { res_load: true, res_purge: false }
    }

    pub fn res_load(&self) -> (enabled: bool)
        ensures
            enabled == self.res_load,
    {
        self.res_load
    }

    pub fn set_res_load(&mut self, enabled: bool)
        ensures
            *final(self) == (ProcessResourcePolicyState { res_load: enabled, ..*old(self) }),
    {
        self.res_load = enabled;
    }

    pub fn res_purge(&self) -> (enabled: bool)
        ensures
            enabled == self.res_purge,
    {
        self.res_purge
    }

    pub fn set_res_purge(&mut self, enabled: bool)
        ensures
            *final(self) == (ProcessResourcePolicyState { res_purge: enabled, ..*old(self) }),
    {
        self.res_purge = enabled;
    }

    pub fn is_pristine(&self) -> (pristine: bool)
        ensures
            pristine == self.pristine(),
    {
        *self == ProcessResourcePolicyState::new()
    }
}

/// The policies after an adapter's cell joined the process's.
pub open spec fn policies_joined(
    policies: Seq<ProcessResourcePolicyState>,
    adapter: int,
    process: int,
) -> Seq<ProcessResourcePolicyState> {
    if adapter != process && policies[process].pristine() && !policies[adapter].pristine() {
        policies.update(process, policies[adapter])
    } else {
        policies
    }
}

/// Whether an adapter's policy may join the process's.
pub open spec fn policies_joinable(
    policies: Seq<ProcessResourcePolicyState>,
    adapter: int,
    process: int,
) -> bool {
    ||| policies[adapter] == policies[process]
    ||| policies[adapter].pristine()
    ||| policies[process].pristine()
}

impl SharedProcessResourcePolicy {
    pub open spec fn id(&self) -> int {
        self.cell.id()
    }

    pub open spec fn valid(&self, policies: &SharedCells<ProcessResourcePolicyState>) -> bool {
        self.cell.valid(policies@)
    }

    pub open spec fn state(&self, policies: &SharedCells<ProcessResourcePolicyState>) -> ProcessResourcePolicyState {
        policies@[self.cell.id()]
    }

    /// The switches of a new process.
    pub fn new(policies: &mut SharedCells<ProcessResourcePolicyState>) -> (policy: Self)
        ensures
            policy.id() == old(policies)@.len(),
            final(policies)@ == old(policies)@.push(
                ProcessResourcePolicyState { res_load: true, res_purge: false },
            ),
    {
        SharedProcessResourcePolicy { cell: policies.allocate(ProcessResourcePolicyState::new()) }
    }

    pub fn shared_handle(&self) -> (handle: Self)
        ensures
            handle.id() == self.id(),
    {
        SharedProcessResourcePolicy { cell: self.cell.shared_handle() }
    }

    pub fn ptr_eq(&self, other: &Self) -> (same: bool)
        ensures
            same == (self.id() == other.id()),
    {
        self.cell.ptr_eq(&other.cell)
    }

    /// Share the process's switches.
    pub fn attach_to(
        &mut self,
        policies: &mut SharedCells<ProcessResourcePolicyState>,
        process_policy: &Self,
    )
        requires
            old(self).valid(old(policies)),
            process_policy.valid(old(policies)),
            policies_joinable(old(policies)@, old(self).id(), process_policy.id()),
        ensures
            final(self).id() == process_policy.id(),
            final(policies)@ == policies_joined(
                old(policies)@,
                old(self).id(),
                process_policy.id(),
            ),
    {
        let is_pristine = |policy: &ProcessResourcePolicyState| -> (pristine: bool)
            ensures
                pristine == policy.pristine(),
            { policy.is_pristine() };
        self.cell.attach_copy_to(policies, &process_policy.cell, is_pristine);
    }

    /// A copy of the switches in a cell of its own.
    pub fn detached_clone(&self, policies: &mut SharedCells<ProcessResourcePolicyState>) -> (copy:
        Self)
        requires
            self.valid(old(policies)),
        ensures
            copy.id() == old(policies)@.len(),
            final(policies)@ == old(policies)@.push(self.state(old(policies))),
    {
        let switches = self.snapshot(policies);
        SharedProcessResourcePolicy { cell: policies.allocate(switches) }
    }

    /// A copy of the switches.
    pub fn snapshot(&self, policies: &SharedCells<ProcessResourcePolicyState>) -> (policy:
        ProcessResourcePolicyState)
        requires
            self.valid(policies),
        ensures
            policy == self.state(policies),
    {
        *policies.get(&self.cell)
    }

    /// Go back to the switches of a new process.
    pub fn reset(&self, policies: &mut SharedCells<ProcessResourcePolicyState>)
        requires
            self.valid(old(policies)),
        ensures
            final(policies)@ == old(policies)@.update(
                self.id(),
                ProcessResourcePolicyState { res_load: true, res_purge: false },
            ),
    {
        policies.set(&self.cell, ProcessResourcePolicyState::new());
    }

    pub fn is_pristine(&self, policies: &SharedCells<ProcessResourcePolicyState>) -> (pristine: bool)
        requires
            self.valid(policies),
        ensures
            pristine == self.state(policies).pristine(),
    {
        policies.get(&self.cell).is_pristine()
    }

    /// Whether lookups load resource data.
    pub fn res_load(&self, policies: &SharedCells<ProcessResourcePolicyState>) -> (enabled: bool)
        requires
            self.valid(policies),
        ensures
            enabled == self.state(policies).res_load,
    {
        policies.get(&self.cell).res_load()
    }

    /// Whether released resource handles become purgeable.
    pub fn res_purge(&self, policies: &SharedCells<ProcessResourcePolicyState>) -> (enabled: bool)
        requires
            self.valid(policies),
        ensures
            enabled == self.state(policies).res_purge,
    {
        policies.get(&self.cell).res_purge()
    }

    pub fn set_res_load(&self, policies: &mut SharedCells<ProcessResourcePolicyState>, enabled: bool)
        requires
            self.valid(old(policies)),
        ensures
            final(policies)@ == old(policies)@.update(
                self.id(),
                ProcessResourcePolicyState { res_load: enabled, ..self.state(old(policies)) },
            ),
    {
        policies.get_mut(&self.cell).set_res_load(enabled);
    }

    pub fn set_res_purge(
        &self,
        policies: &mut SharedCells<ProcessResourcePolicyState>,
        enabled: bool,
    )
        requires
            self.valid(old(policies)),
        ensures
            final(policies)@ == old(policies)@.update(
                self.id(),
                ProcessResourcePolicyState { res_purge: enabled, ..self.state(old(policies)) },
            ),
    {
        policies.get_mut(&self.cell).set_res_purge(enabled);
    }
}

impl ResourceCells {
    /// No store holds a cell.
    pub open spec fn without_cells(&self) -> bool {
        &&& self.current_files@.len() == 0
        &&& self.policies@.len() == 0
        &&& self.maps@.len() == 0
        &&& self.forks@.len() == 0
    }

    pub fn new() -> (cells: Self)
        ensures
            cells.without_cells(),
    {
        ResourceCells {
            current_files: SharedCells::new(),
            policies: SharedCells::new(),
            maps: SharedCells::new(),
            forks: SharedCells::new(),
        }
    }
}

/// The current files after a manager without one took that of its classic
/// chain.
pub open spec fn current_published(
    current_files: Seq<i16>,
    id: int,
    resources: Option<ProcessLoadedResources>,
) -> Seq<i16> {
    match resources {
        Some(chain) if current_files[id] == 0 => current_files.update(id, chain.current_file as i16),
        _ => current_files,
    }
}

/// The current files after an adapter's cell joined the process's.
pub open spec fn currents_joined(current_files: Seq<i16>, adapter: int, process: int) -> Seq<i16> {
    if current_files[process] == 0 {
        current_files.update(process, current_files[adapter])
    } else {
        current_files
    }
}

/// The resources after others joined; a resource that is there already, by
/// path, type and number, stays as it is.
pub open spec fn resource_known(
    resources: Seq<ProcessVfsResourceRecord>,
    wanted: ProcessVfsResourceRecord,
) -> bool {
    exists|i: int|
        0 <= i < resources.len() && crate::text::same_name((#[trigger] resources[i]).path@, wanted.path@)
            && resources[i].res_type == wanted.res_type && resources[i].res_id == wanted.res_id
}

pub open spec fn resources_joined(
    resources: Seq<ProcessVfsResourceRecord>,
    others: Seq<ProcessVfsResourceRecord>,
) -> Seq<ProcessVfsResourceRecord>
    decreases others.len(),
{
    if others.len() == 0 {
        resources
    } else {
        let joined = resources_joined(resources, others.drop_last());
        if resource_known(joined, others.last()) {
            joined
        } else {
            joined.push(others.last())
        }
    }
}

fn is_resource_known(
    resources: &Vec<ProcessVfsResourceRecord>,
    wanted: &ProcessVfsResourceRecord,
) -> (known: bool)
    ensures
        known == resource_known(resources@, *wanted),
{
    let mut i: usize = 0;
    while i < resources.len()
        invariant
            i <= resources@.len(),
            forall|j: int|
                0 <= j < i ==> !(crate::text::same_name((#[trigger] resources@[j]).path@, wanted.path@)
                    && resources@[j].res_type == wanted.res_type && resources@[j].res_id
                    == wanted.res_id),
        decreases resources@.len() - i,
    {
        if equal_ignoring_case(resources[i].path.as_str(), wanted.path.as_str())
            && resources[i].res_type == wanted.res_type && resources[i].res_id == wanted.res_id {
            assert(crate::text::same_name(resources@[i as int].path@, wanted.path@));
            return true;
        }
        i += 1;
    }
    false
}

impl ProcessResourceManagerState {
    pub open spec fn valid(&self, cells: &ResourceCells) -> bool {
        &&& self.current_resource_file.valid(cells.current_files@)
        &&& self.policy.valid(&cells.policies)
        &&& self.vfs_resource_files.valid(&cells.maps)
    }

    /// What the manager's file index holds.
    pub open spec fn files(&self, cells: &ResourceCells) -> ResourceFileIndex {
        self.vfs_resource_files.index(&cells.maps, &cells.forks)
    }

    /// Nothing was opened, selected or switched.
    pub open spec fn pristine(&self, cells: &ResourceCells) -> bool {
        &&& self.tables.is_default()
        &&& cells.current_files@[self.current_resource_file.id()] == 0
        &&& self.policy.state(&cells.policies).pristine()
        &&& self.vfs_resource_files.records@.len() == 0
        &&& self.vfs_resources@.len() == 0
    }

    /// None of the handles names a cell of `cells`.
    pub open spec fn is_new(&self, cells: &ResourceCells) -> bool {
        &&& self.current_resource_file.id() >= cells.current_files@.len()
        &&& self.policy.id() >= cells.policies@.len()
        &&& self.vfs_resource_files.resource_forks.id() >= cells.maps@.len()
    }

    /// The Resource Manager of a new process.
    pub fn new(cells: &mut ResourceCells) -> (state: Self)
        ensures
            state.valid(final(cells)),
            state.pristine(final(cells)),
            state.current_resource_file.id() == old(cells).current_files@.len(),
            state.policy.id() == old(cells).policies@.len(),
            state.vfs_resource_files.resource_forks.id() == old(cells).maps@.len(),
            final(cells).current_files@ == old(cells).current_files@.push(0),
            crate::cells::cells_extend(old(cells).policies@, final(cells).policies@),
            crate::cells::cells_extend(old(cells).maps@, final(cells).maps@),
            final(cells).maps@.len() == old(cells).maps@.len() + 1,
            final(cells).policies@.len() == old(cells).policies@.len() + 1,
            final(cells).maps@[old(cells).maps@.len() as int]@.len() == 0,
            final(cells).forks@ == old(cells).forks@,
    {
        ProcessResourceManagerState {
            current_resource_file: cells.current_files.allocate(0),
            policy: SharedProcessResourcePolicy::new(&mut cells.policies),
            tables: ProcessResourceTables::default_value(),
            vfs_resource_files: ProcessVfsResourceFileRecords::new(&mut cells.maps),
            vfs_resources: Vec::new(),
        }
    }

    pub fn is_pristine(&self, cells: &ResourceCells) -> (pristine: bool)
        requires
            self.valid(cells),
        ensures
            pristine == self.pristine(cells),
    {
        self.tables.is_empty() && *cells.current_files.get(&self.current_resource_file) == 0
            && self.policy.is_pristine(&cells.policies) && self.vfs_resource_files.records.len()
            == 0 && self.vfs_resources.len() == 0
    }

    /// Select the current file of the classic chain where none is selected.
    fn publish_classic_current_file(&self, current_files: &mut SharedCells<i16>)
        requires
            self.current_resource_file.valid(old(current_files)@),
        ensures
            final(current_files)@ == current_published(
                old(current_files)@,
                self.current_resource_file.id(),
                self.tables.resources,
            ),
    {
        let ghost before = current_files@;
        if *current_files.get(&self.current_resource_file) != 0 {
            return;
        }
        match &self.tables.resources {
            Some(chain) => {
                let selection: i16 = chain.current_file as i16;
                current_files.set(&self.current_resource_file, selection);
            },
            None => {},
        }
    }

    /// The current files after both managers published theirs.
    pub open spec fn currents(&self, source: &Self, cells: &ResourceCells) -> Seq<i16> {
        current_published(
            current_published(
                cells.current_files@,
                self.current_resource_file.id(),
                self.tables.resources,
            ),
            source.current_resource_file.id(),
            source.tables.resources,
        )
    }

    /// Whether another manager's bookkeeping can join this one's.
    pub open spec fn can_merge(&self, source: &Self, cells: &ResourceCells) -> bool {
        let currents = self.currents(source, cells);
        let own = currents[self.current_resource_file.id()];
        let other = currents[source.current_resource_file.id()];
        &&& self.tables.is_default() || source.tables.is_default()
        &&& own == other || own == 0 || other == 0
        &&& policies_joinable(cells.policies@, source.policy.id(), self.policy.id())
    }

    /// What merging does to the two managers and their cells.
    pub open spec fn merges(
        &self,
        source: &Self,
        before: &ResourceCells,
        after_self: &Self,
        after_source: &Self,
        after: &ResourceCells,
    ) -> bool {
        let shared_map = self.vfs_resource_files.resource_forks.id()
            == source.vfs_resource_files.resource_forks.id();
        let joined = self.files(before).joined(source.vfs_resource_files.records@);
        &&& after_self.valid(after)
        &&& after_source.valid(after)
        &&& after_self.current_resource_file.id() == self.current_resource_file.id()
        &&& after_source.current_resource_file.id() == self.current_resource_file.id()
        &&& after.current_files@ == currents_joined(
            self.currents(source, before),
            source.current_resource_file.id(),
            self.current_resource_file.id(),
        )
        &&& after_self.policy.id() == self.policy.id()
        &&& after_source.policy.id() == self.policy.id()
        &&& after.policies@ == policies_joined(before.policies@, source.policy.id(), self.policy.id())
        &&& after_self.vfs_resource_files.resource_forks.id()
            == self.vfs_resource_files.resource_forks.id()
        &&& after_source.vfs_resource_files.resource_forks.id()
            == source.vfs_resource_files.resource_forks.id()
        &&& after_self.vfs_resource_files.records@ == joined.records
        &&& after_source.vfs_resource_files.records@.len() == 0
        &&& after.maps@.len() == before.maps@.len()
        &&& after.maps@[self.vfs_resource_files.resource_forks.id()]@ == if shared_map {
            crate::forks::forks_merged(Seq::empty(), joined.forks)
        } else {
            crate::forks::forks_merged(
                joined.forks,
                before.maps@[source.vfs_resource_files.resource_forks.id()]@,
            )
        }
        &&& !shared_map ==> after.maps@[source.vfs_resource_files.resource_forks.id()]@
            == Seq::<(Seq<char>, int)>::empty()
        &&& forall|i: int|
            0 <= i < before.maps@.len() && i != self.vfs_resource_files.resource_forks.id() && i
                != source.vfs_resource_files.resource_forks.id() ==> #[trigger] after.maps@[i]
                == before.maps@[i]
        &&& crate::cells::cells_extend(before.forks@, after.forks@)
        &&& after.forks@.len() == joined.fork_count
        &&& forall|i: int|
            before.forks@.len() <= i < after.forks@.len() ==> (#[trigger] after.forks@[i])@.len() == 0
        &&& after_self.vfs_resources@ == resources_joined(
            self.vfs_resources@,
            source.vfs_resources@,
        )
        &&& after_source.vfs_resources@.len() == 0
        &&& if self.tables.is_default() && !source.tables.is_default() {
            after_self.tables == source.tables && after_source.tables.is_default()
        } else {
            after_self.tables == self.tables && after_source.tables == source.tables
        }
    }

    /// Take another manager's bookkeeping over. At most one of the two has
    /// resources in use.
    pub fn merge_from(&mut self, cells: &mut ResourceCells, source: &mut Self)
        requires
            old(self).valid(old(cells)),
            old(source).valid(old(cells)),
            old(self).can_merge(old(source), old(cells)),
        ensures
            old(self).merges(old(source), old(cells), final(self), final(source), final(cells)),
    {
        let source_is_empty = source.tables.is_empty();
        let target_is_empty = self.tables.is_empty();
        self.publish_classic_current_file(&mut cells.current_files);
        source.publish_classic_current_file(&mut cells.current_files);
        let ghost currents = cells.current_files@;
        let unselected = |current: &i16| -> (pristine: bool)
            ensures
                pristine == (*current == 0),
            { *current == 0 };
        source.current_resource_file.attach_copy_to(
            &mut cells.current_files,
            &self.current_resource_file,
            unselected,
        );
        proof {
            assert(cells.current_files@ =~= currents_joined(
                currents,
                old(source).current_resource_file.id(),
                old(self).current_resource_file.id(),
            ));
        }
        source.policy.attach_to(&mut cells.policies, &self.policy);
        self.vfs_resource_files.merge_from(
            &mut cells.maps,
            &mut cells.forks,
            &mut source.vfs_resource_files,
        );
        self.join_resources(&mut source.vfs_resources);
        if target_is_empty && !source_is_empty {
            let mut tables = ProcessResourceTables::default_value();
            core::mem::swap(&mut tables, &mut source.tables);
            self.tables = tables;
        }
    }

    fn join_resources(&mut self, source: &mut Vec<ProcessVfsResourceRecord>)
        ensures
            *final(self) == (ProcessResourceManagerState {
                vfs_resources: final(self).vfs_resources,
                ..*old(self)
            }),
            final(self).vfs_resources@ == resources_joined(old(self).vfs_resources@, old(source)@),
            final(source)@.len() == 0,
    {
        let ghost all = source@;
        let count: usize = source.len();
        let mut i: usize = 0;
        assert(all.take(0) =~= Seq::empty());
        while i < count
            invariant
                i <= count,
                count == all.len(),
                source@ == all.skip(i as int),
                *self == (ProcessResourceManagerState {
                    vfs_resources: self.vfs_resources,
                    ..*old(self)
                }),
                self.vfs_resources@ == resources_joined(
                    old(self).vfs_resources@,
                    all.take(i as int),
                ),
            decreases count - i,
        {
            let resource = source.remove(0);
            proof {
                assert(all.skip(i as int).remove(0) =~= all.skip(i + 1));
                assert(all.take(i + 1).drop_last() =~= all.take(i as int));
                assert(all.take(i + 1).last() == resource);
            }
            if !is_resource_known(&self.vfs_resources, &resource) {
                self.vfs_resources.push(resource);
            }
            i += 1;
        }
        assert(all.take(count as int) =~= all);
    }

    /// The same handles with nothing in the tables.
    fn vacated(&self) -> (state: Self)
        ensures
            state.current_resource_file.id() == self.current_resource_file.id(),
            state.policy.id() == self.policy.id(),
            state.vfs_resource_files.resource_forks.id()
                == self.vfs_resource_files.resource_forks.id(),
            state.tables.is_default(),
            state.vfs_resource_files.records@.len() == 0,
            state.vfs_resources@.len() == 0,
    {
        ProcessResourceManagerState {
            current_resource_file: self.current_resource_file.shared_handle(),
            policy: self.policy.shared_handle(),
            tables: ProcessResourceTables::default_value(),
            vfs_resource_files: ProcessVfsResourceFileRecords {
                records: Vec::new(),
                resource_forks: self.vfs_resource_files.resource_forks.shared_handle(),
            },
            vfs_resources: Vec::new(),
        }
    }
}

/// A handle to Resource Manager bookkeeping.
pub struct SharedProcessResourceManager {
    pub cell: SharedProcessValue<ProcessResourceManagerState>,
}

impl SharedProcessResourceManager {
    pub open spec fn id(&self) -> int {
        self.cell.id()
    }

    pub open spec fn valid(
        &self,
        managers: &SharedCells<ProcessResourceManagerState>,
        cells: &ResourceCells,
    ) -> bool {
        self.cell.valid(managers@) && self.state(managers).valid(cells)
    }

    pub open spec fn state(&self, managers: &SharedCells<ProcessResourceManagerState>) -> ProcessResourceManagerState {
        managers@[self.cell.id()]
    }

    pub fn from_value(
        managers: &mut SharedCells<ProcessResourceManagerState>,
        state: ProcessResourceManagerState,
    ) -> (manager: Self)
        ensures
            manager.id() == old(managers)@.len(),
            final(managers)@ == old(managers)@.push(state),
    {
        SharedProcessResourceManager { cell: managers.allocate(state) }
    }

    pub fn shared_handle(&self) -> (handle: Self)
        ensures
            handle.id() == self.id(),
    {
        SharedProcessResourceManager { cell: self.cell.shared_handle() }
    }

    pub fn ptr_eq(&self, other: &Self) -> (same: bool)
        ensures
            same == (self.id() == other.id()),
    {
        self.cell.ptr_eq(&other.cell)
    }

    /// Read the bookkeeping during one operation.
    pub fn with_ref<R>(
        &self,
        managers: &SharedCells<ProcessResourceManagerState>,
        operation: impl FnOnce(&ProcessResourceManagerState) -> R,
    ) -> (result: R)
        requires
            self.cell.valid(managers@),
            call_requires(operation, (&self.state(managers),)),
        ensures
            call_ensures(operation, (&self.state(managers),), result),
    {
        self.cell.with_ref(managers, operation)
    }

    /// Change the bookkeeping during one operation.
    pub fn with_mut<R>(
        &self,
        managers: &mut SharedCells<ProcessResourceManagerState>,
        operation: impl FnOnce(&mut ProcessResourceManagerState) -> R,
    ) -> (result: R)
        requires
            self.cell.valid(old(managers)@),
            forall|state: &mut ProcessResourceManagerState|
                *state == self.state(old(managers)) ==> call_requires(operation, (state,)),
        ensures
            exists|state: &mut ProcessResourceManagerState|
                #![trigger call_ensures(operation, (state,), result)]
                *state == self.state(old(managers)) && call_ensures(operation, (state,), result)
                    && final(managers)@ == old(managers)@.update(self.id(), *final(state)),
    {
        self.cell.with_mut(managers, operation)
    }

    pub fn is_pristine(
        &self,
        managers: &SharedCells<ProcessResourceManagerState>,
        cells: &ResourceCells,
    ) -> (pristine: bool)
        requires
            self.valid(managers, cells),
        ensures
            pristine == self.state(managers).pristine(cells),
    {
        managers.get(&self.cell).is_pristine(cells)
    }

    /// Share the process's bookkeeping, which takes this one over.
    pub fn attach_to(
        &mut self,
        managers: &mut SharedCells<ProcessResourceManagerState>,
        cells: &mut ResourceCells,
        target: &Self,
    )
        requires
            old(self).valid(old(managers), old(cells)),
            target.valid(old(managers), old(cells)),
            old(self).id() != target.id() ==> target.state(old(managers)).can_merge(
                &old(self).state(old(managers)),
                old(cells),
            ),
        ensures
            final(self).id() == target.id(),
            final(self).valid(final(managers), final(cells)),
            final(managers)@.len() == old(managers)@.len(),
            old(self).id() == target.id() ==> final(managers)@ == old(managers)@ && *final(cells)
                == *old(cells),
            forall|i: int|
                0 <= i < old(managers)@.len() && i != old(self).id() && i != target.id()
                    ==> #[trigger] final(managers)@[i] == old(managers)@[i],
            old(self).id() != target.id() ==> target.state(old(managers)).merges(
                &old(self).state(old(managers)),
                old(cells),
                &target.state(final(managers)),
                &final(managers)@[old(self).id()],
                final(cells),
            ),
    {
        if self.ptr_eq(target) {
            return;
        }
        let placeholder = managers.get(&self.cell).vacated();
        let mut source = self.cell.replace(managers, placeholder);
        managers.get_mut(&target.cell).merge_from(cells, &mut source);
        managers.set(&self.cell, source);
        self.cell = target.cell.shared_handle();
    }

    pub fn attach_resource_manager_to(
        &mut self,
        managers: &mut SharedCells<ProcessResourceManagerState>,
        cells: &mut ResourceCells,
        target: &Self,
    )
        requires
            old(self).valid(old(managers), old(cells)),
            target.valid(old(managers), old(cells)),
            old(self).id() != target.id() ==> target.state(old(managers)).can_merge(
                &old(self).state(old(managers)),
                old(cells),
            ),
        ensures
            final(self).id() == target.id(),
            final(self).valid(final(managers), final(cells)),
            final(managers)@.len() == old(managers)@.len(),
            old(self).id() == target.id() ==> final(managers)@ == old(managers)@ && *final(cells)
                == *old(cells),
            forall|i: int|
                0 <= i < old(managers)@.len() && i != old(self).id() && i != target.id()
                    ==> #[trigger] final(managers)@[i] == old(managers)@[i],
            old(self).id() != target.id() ==> target.state(old(managers)).merges(
                &old(self).state(old(managers)),
                old(cells),
                &target.state(final(managers)),
                &final(managers)@[old(self).id()],
                final(cells),
            ),
    {
        self.attach_to(managers, cells, target);
    }
}

} // verus!

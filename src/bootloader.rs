//! Boot-source discovery: one probe per block device, each a state machine
//! that mounts the device through a helper process and scans it for an EFI
//! loader, and the selection of a boot entry among what the probes found.
//!
//! The filesystem and process work happens outside: the caller performs
//! what these functions decide and hands back what came of it.
use vstd::prelude::*;
use vstd::string::*;
use crate::classify::{block_device_has_partitions, BlockDeviceType};
use crate::devnode::NodeError;
use crate::events::{exit_success, EventAction, ServiceEvent, ServiceState};
use crate::text::{has_prefix, opt_view, text_eq};

verus! {

/// A discovered bootable image.
#[derive(Debug)]
pub struct BootEntry {
    pub kernel: String,
    pub initramfs: Option<String>,
    pub append: Option<String>,
}

/// The contents of a boot entry.
pub struct EntryView {
    pub kernel: Seq<char>,
    pub initramfs: Option<Seq<char>>,
    pub append: Option<Seq<char>>,
}

impl View for BootEntry {
    type V = EntryView;

    open spec fn view(&self) -> EntryView {
        EntryView {
            kernel: self.kernel@,
            initramfs: opt_view(self.initramfs),
            append: opt_view(self.append),
        }
    }
}

impl BootEntry {
    fn duplicate(&self) -> (r: BootEntry)
        ensures
            r@ == self@,
    {
        BootEntry {
            kernel: self.kernel.clone(),
            initramfs: crate::text::copy_opt_text(&self.initramfs),
            append: crate::text::copy_opt_text(&self.append),
        }
    }
}

/// Mount and scan progress of one probe. It only moves forward:
/// `Unchecked`, `Mounting`, `Scanning`, `Complete`.
#[derive(PartialEq, Eq, Structural, Clone, Copy, Debug)]
pub enum BlockState {
    Unchecked,
    /// The mount helper with process id `pid` is running.
    Mounting { pid: u32 },
    /// The mount succeeded and the `EFI` directory is being scanned; this
    /// lasts only within the event step that completed the mount.
    Scanning,
    Complete,
}

/// The position of a state along the forward order.
pub open spec fn state_rank(s: BlockState) -> int {
    match s {
        BlockState::Unchecked => 0,
        BlockState::Mounting { .. } => 1,
        BlockState::Scanning => 2,
        BlockState::Complete => 3,
    }
}

/// What came of an attempt to start mounting a device.
#[derive(PartialEq, Eq, Structural, Clone, Copy, Debug)]
pub enum MountOutcome {
    /// The device node is already mounted elsewhere; nothing was spawned.
    AlreadyMounted,
    /// The mount point directory could not be made; nothing was spawned.
    NoMountPoint,
    /// The helper process was spawned with this process id.
    Spawned(u32),
    /// The helper process could not be spawned.
    SpawnFailed,
}

/// Why a probe did not start mounting.
#[derive(PartialEq, Eq, Structural, Clone, Copy, Debug)]
pub enum MountError {
    AlreadyMounted,
    NoMountPoint,
}

/// One entry of a probe's `EFI` directory: its name (`None` when it is not
/// valid Unicode) and whether it is a directory.
pub struct EfiEntry {
    pub name: Option<String>,
    pub is_dir: bool,
}

/// The lower-case form of a string, as `str::to_lowercase` gives it.
pub uninterp spec fn lower_of(s: Seq<char>) -> Seq<char>;

/// Relies on str::to_lowercase: the result depends on the characters alone.
#[verifier::external_body]
fn lowercase(s: &str) -> (r: String)
    ensures
        r@ == lower_of(s@),
{
    s.to_lowercase()
}

/// The loader file name, in lower case.
pub open spec fn loader_name() -> Seq<char> {
    "bootx64.efi"@
}

/// Whether a lower-cased file name is the loader's.
pub fn is_loader_name(lowered: &str) -> (r: bool)
    ensures
        r == (lowered@ == loader_name()),
{
    text_eq(lowered, "bootx64.efi")
}

/// The lower-case form of an entry's name.
pub open spec fn lowered_name(e: EfiEntry) -> Option<Seq<char>> {
    match e.name {
        Some(n) => Some(lower_of(n@)),
        None => None,
    }
}

/// The lower-case forms of the names of a listing.
pub open spec fn lowered_names(entries: Seq<EfiEntry>) -> Seq<Option<Seq<char>>> {
    entries.map_values(|e: EfiEntry| lowered_name(e))
}

/// The characters of a list of optional strings.
pub open spec fn opt_views(v: Seq<Option<String>>) -> Seq<Option<Seq<char>>> {
    v.map_values(|o: Option<String>| opt_view(o))
}

/// The first loader at or after index `i`, given the lower-case form
/// `lowered[j]` of each entry's name: a file whose lowered name is the
/// loader's.
pub open spec fn first_loader_in(
    entries: Seq<EfiEntry>,
    lowered: Seq<Option<Seq<char>>>,
    i: int,
) -> Option<int>
    decreases entries.len() - i,
{
    if i < 0 || i >= entries.len() {
        None
    } else if !entries[i].is_dir && entries[i].name is Some && lowered[i] == Some(loader_name()) {
        Some(i)
    } else {
        first_loader_in(entries, lowered, i + 1)
    }
}

proof fn lemma_first_loader(entries: Seq<EfiEntry>, lowered: Seq<Option<Seq<char>>>, i: int)
    requires
        0 <= i,
    ensures
        first_loader_in(entries, lowered, i) matches Some(k) ==> i <= k < entries.len()
            && entries[k].name is Some,
    decreases entries.len() - i,
{
    if i < entries.len() {
        lemma_first_loader(entries, lowered, i + 1);
    }
}

/// The boot entries a scan finds, given the lowered names: one for the
/// first loader, whose kernel is `EFI/<file name>`, or none.
pub open spec fn entries_for(entries: Seq<EfiEntry>, lowered: Seq<Option<Seq<char>>>) -> Seq<EntryView> {
    match first_loader_in(entries, lowered, 0) {
        Some(k) => seq![EntryView { kernel: "EFI/"@ + entries[k].name->0@, initramfs: None, append: None }],
        None => Seq::empty(),
    }
}

/// The boot entries a scan of an `EFI` directory finds: the loader's name
/// is matched without regard to case.
pub open spec fn scan_entries(entries: Seq<EfiEntry>) -> Seq<EntryView> {
    entries_for(entries, lowered_names(entries))
}

/// The lower-case form of each name of a listing.
pub fn lowered_listing(entries: &Vec<EfiEntry>) -> (r: Vec<Option<String>>)
    ensures
        r.len() == entries.len(),
        opt_views(r@) == lowered_names(entries@),
{
    let mut r: Vec<Option<String>> = Vec::new();
    let mut i: usize = 0;
    while i < entries.len()
        invariant
            i <= entries.len(),
            r@.len() == i,
            opt_views(r@) == lowered_names(entries@).subrange(0, i as int),
        decreases entries.len() - i,
    {
        let low = match &entries[i].name {
            Some(n) => Some(lowercase(n.as_str())),
            None => None,
        };
        let ghost before = r@;
        r.push(low);
        assert(opt_views(r@) =~= lowered_names(entries@).subrange(0, i + 1)) by {
            assert forall|k: int| 0 <= k < i implies #[trigger] opt_views(r@)[k] == opt_views(
                before,
            )[k] by {
                assert(r@[k] == before[k]);
            }
        }
        i = i + 1;
    }
    assert(lowered_names(entries@).subrange(0, entries.len() as int) =~= lowered_names(entries@));
    r
}

/// The index of the first loader among `entries`, given the lower-case
/// form of each name.
pub fn find_loader_in(entries: &Vec<EfiEntry>, lowered: &Vec<Option<String>>) -> (r: Option<usize>)
    requires
        lowered.len() == entries.len(),
    ensures
        match r {
            Some(i) => first_loader_in(entries@, opt_views(lowered@), 0) == Some(i as int),
            None => first_loader_in(entries@, opt_views(lowered@), 0) is None,
        },
{
    let ghost lv = opt_views(lowered@);
    let mut i: usize = 0;
    while i < entries.len()
        invariant
            i <= entries.len(),
            lowered.len() == entries.len(),
            lv == opt_views(lowered@),
            first_loader_in(entries@, lv, 0) == first_loader_in(entries@, lv, i as int),
        decreases entries.len() - i,
    {
        assert(lv[i as int] == opt_view(lowered@[i as int]));
        if !entries[i].is_dir && entries[i].name.is_some() {
            match &lowered[i] {
                Some(low) => {
                    if is_loader_name(low.as_str()) {
                        return Some(i);
                    }
                },
                None => {},
            }
        }
        i = i + 1;
    }
    None
}

/// The index of the first loader among `entries`, names matched without
/// regard to case.
pub fn find_loader(entries: &Vec<EfiEntry>) -> (r: Option<usize>)
    ensures
        match r {
            Some(i) => first_loader_in(entries@, lowered_names(entries@), 0) == Some(i as int),
            None => first_loader_in(entries@, lowered_names(entries@), 0) is None,
        },
{
    let lowered = lowered_listing(entries);
    find_loader_in(entries, &lowered)
}

/// Where a device is mounted: `/var/run/bootloader/mounts/<name>`.
pub open spec fn mount_point_of(name: Seq<char>) -> Seq<char> {
    "/var/run/bootloader/mounts/"@ + name
}

/// Builds the mount point of a device.
pub fn mount_point(name: &str) -> (r: String)
    ensures
        r@ == mount_point_of(name@),
{
    String::from_str("/var/run/bootloader/mounts/").concat(name)
}

/// The contents of a probe.
pub struct ProbeView {
    pub name: Seq<char>,
    pub device: Seq<char>,
    pub devicetype: BlockDeviceType,
    pub point: Seq<char>,
    pub state: BlockState,
    pub entries: Seq<EntryView>,
}

/// Discovery state of one block device.
pub struct DeviceProbe {
    name: String,
    device: String,
    devicetype: BlockDeviceType,
    point: String,
    state: BlockState,
    entries: Vec<BootEntry>,
}

impl View for DeviceProbe {
    type V = ProbeView;

    closed spec fn view(&self) -> ProbeView {
        ProbeView {
            name: self.name@,
            device: self.device@,
            devicetype: self.devicetype,
            point: self.point@,
            state: self.state,
            entries: self.entries@.map_values(|e: BootEntry| e@),
        }
    }
}

/// A probe is consistent: mounted at the point its name gives, never
/// resting in `Scanning` (a scan runs within the step that starts it), with
/// at most one entry, found only once the probe is complete.
pub open spec fn probe_wf(p: ProbeView) -> bool {
    &&& p.point == mount_point_of(p.name)
    &&& p.state != BlockState::Scanning
    &&& p.entries.len() <= 1
    &&& p.entries.len() == 1 ==> p.state == BlockState::Complete
}

/// How a probe answers an event, given the listing of its `EFI` directory
/// and the lower-case form of each name there: only the exit of its own
/// mount helper moves it. On success it scans the listing at once and
/// completes with what the scan found; otherwise it completes with no entry.
pub open spec fn probe_event_lowered(
    p: ProbeView,
    e: ServiceEvent,
    efi: Seq<EfiEntry>,
    lowered: Seq<Option<Seq<char>>>,
) -> ProbeView {
    if probe_consumes(p, e) {
        match e {
            ServiceEvent::ProcessExited { code, .. } => if exit_success(code) {
                ProbeView { state: BlockState::Complete, entries: entries_for(efi, lowered), ..p }
            } else {
                ProbeView { state: BlockState::Complete, ..p }
            },
            _ => p,
        }
    } else {
        p
    }
}

/// How a probe answers an event, given the listing of its `EFI` directory;
/// the loader's name is matched there without regard to case.
pub open spec fn probe_event_step(p: ProbeView, e: ServiceEvent, efi: Seq<EfiEntry>) -> ProbeView {
    probe_event_lowered(p, e, efi, lowered_names(efi))
}

/// Whether a probe consumes an event: it is mounting and the event is the
/// exit of the process it waits for.
pub open spec fn probe_consumes(p: ProbeView, e: ServiceEvent) -> bool {
    match (p.state, e) {
        (BlockState::Mounting { pid }, ServiceEvent::ProcessExited { pid: epid, .. }) => pid == epid,
        _ => false,
    }
}

/// A step of a probe moves it forward or leaves it as it is: name, device,
/// type and mount point stay, the state does not go back, a mount helper is
/// waited for until the probe leaves `Mounting`, and a complete probe is
/// never touched again.
pub open spec fn probe_advances(p: ProbeView, q: ProbeView) -> bool {
    &&& q.name == p.name
    &&& q.device == p.device
    &&& q.devicetype == p.devicetype
    &&& q.point == p.point
    &&& state_rank(p.state) <= state_rank(q.state)
    &&& (p.state is Mounting && q.state is Mounting ==> q.state == p.state)
    &&& (p.state == BlockState::Complete ==> q == p)
}

impl DeviceProbe {
    /// A probe of device `name` with node `device`, not yet mounted.
    pub fn new(name: &str, device: String, devicetype: BlockDeviceType) -> (r: DeviceProbe)
        ensures
            r@.name == name@,
            r@.device == device@,
            r@.devicetype == devicetype,
            r@.point == mount_point_of(name@),
            r@.state == BlockState::Unchecked,
            r@.entries.len() == 0,
    {
        let r = DeviceProbe {
            name: name.to_owned(),
            device,
            devicetype,
            point: mount_point(name),
            state: BlockState::Unchecked,
            entries: Vec::new(),
        };
        assert(r@.entries =~= Seq::<EntryView>::empty());
        r
    }

    pub fn name(&self) -> (r: &String)
        ensures
            r@ == self@.name,
    {
        &self.name
    }

    pub fn device(&self) -> (r: &String)
        ensures
            r@ == self@.device,
    {
        &self.device
    }

    pub fn point(&self) -> (r: &String)
        ensures
            r@ == self@.point,
    {
        &self.point
    }

    pub fn devicetype(&self) -> (r: BlockDeviceType)
        ensures
            r == self@.devicetype,
    {
        self.devicetype
    }

    pub fn state(&self) -> (r: BlockState)
        ensures
            r == self@.state,
    {
        self.state
    }

    pub fn entry_count(&self) -> (r: usize)
        ensures
            r == self@.entries.len(),
    {
        self.entries.len()
    }

    /// A copy of the entry at `i`.
    pub fn entry(&self, i: usize) -> (r: BootEntry)
        requires
            i < self@.entries.len(),
        ensures
            r@ == self@.entries[i as int],
    {
        self.entries[i].duplicate()
    }

    /// The arguments of the mount helper: the device node, the mount point,
    /// and the read-only option.
    pub fn mount_arguments(&self) -> (r: Vec<String>)
        ensures
            r.deep_view() == seq![self@.device, self@.point, "-o"@, "ro"@],
    {
        let mut r: Vec<String> = Vec::new();
        r.push(self.device.clone());
        r.push(self.point.clone());
        r.push(String::from_str("-o"));
        r.push(String::from_str("ro"));
        assert(r.deep_view() =~= seq![self@.device, self@.point, "-o"@, "ro"@]) by {
            assert(r.deep_view()[0] == r@[0]@);
            assert(r.deep_view()[1] == r@[1]@);
            assert(r.deep_view()[2] == r@[2]@);
            assert(r.deep_view()[3] == r@[3]@);
        }
        r
    }

    /// Records how the start of the mount went. A spawned helper is waited
    /// for; a helper that could not be spawned completes the probe with no
    /// entries. A device mounted elsewhere, or a mount point that could not
    /// be made, is refused and the probe left as it was.
    pub fn mount(&mut self, outcome: MountOutcome) -> (r: Result<(), MountError>)
        requires
            old(self)@.state == BlockState::Unchecked,
        ensures
            final(self)@ == (match outcome {
                MountOutcome::Spawned(pid) => ProbeView { state: BlockState::Mounting { pid }, ..old(self)@ },
                MountOutcome::SpawnFailed => ProbeView { state: BlockState::Complete, ..old(self)@ },
                _ => old(self)@,
            }),
            r == (match outcome {
                MountOutcome::AlreadyMounted => Err(MountError::AlreadyMounted),
                MountOutcome::NoMountPoint => Err(MountError::NoMountPoint),
                _ => Ok::<(), MountError>(()),
            }),
    {
        match outcome {
            MountOutcome::AlreadyMounted => Err(MountError::AlreadyMounted),
            MountOutcome::NoMountPoint => Err(MountError::NoMountPoint),
            MountOutcome::Spawned(pid) => {
                self.state = BlockState::Mounting { pid };
                Ok(())
            },
            MountOutcome::SpawnFailed => {
                self.state = BlockState::Complete;
                Ok(())
            },
        }
    }

    /// Offers an event, with the listing of the probe's `EFI` directory and
    /// the lower-case form of each name there; returns whether the probe
    /// consumed it. See `probe_event_lowered`.
    pub fn event_lowered(
        &mut self,
        event: &ServiceEvent,
        efi: &Vec<EfiEntry>,
        lowered: &Vec<Option<String>>,
    ) -> (r: bool)
        requires
            lowered.len() == efi.len(),
        ensures
            r == probe_consumes(old(self)@, *event),
            final(self)@ == probe_event_lowered(old(self)@, *event, efi@, opt_views(lowered@)),
    {
        match event {
            ServiceEvent::ProcessExited { pid, code } => {
                match self.state {
                    BlockState::Mounting { pid: child } => {
                        if child != *pid {
                            return false;
                        }
                        let ok = match code {
                            Some(c) => *c == 0,
                            None => false,
                        };
                        if ok {
                            self.state = BlockState::Scanning;
                            self.complete_scan(efi, lowered);
                        } else {
                            self.state = BlockState::Complete;
                        }
                        true
                    },
                    _ => false,
                }
            },
            ServiceEvent::Device(_) => false,
        }
    }

    /// Offers an event, with the listing of the probe's `EFI` directory;
    /// returns whether the probe consumed it. See `probe_event_step`.
    pub fn event(&mut self, event: &ServiceEvent, efi: &Vec<EfiEntry>) -> (r: bool)
        ensures
            r == probe_consumes(old(self)@, *event),
            final(self)@ == probe_event_step(old(self)@, *event, efi@),
    {
        let lowered = lowered_listing(efi);
        self.event_lowered(event, efi, &lowered)
    }

    /// Scans the `EFI` listing right after a successful mount: the probe
    /// completes, with one entry for the first loader found.
    fn complete_scan(&mut self, efi: &Vec<EfiEntry>, lowered: &Vec<Option<String>>)
        requires
            old(self)@.state == BlockState::Scanning,
            lowered.len() == efi.len(),
        ensures
            final(self)@ == (ProbeView {
                state: BlockState::Complete,
                entries: entries_for(efi@, opt_views(lowered@)),
                ..old(self)@
            }),
    {
        proof { lemma_first_loader(efi@, opt_views(lowered@), 0); }
        let mut found: Vec<BootEntry> = Vec::new();
        match find_loader_in(efi, lowered) {
            Some(k) => {
                let fname = match &efi[k].name {
                    Some(n) => n,
                    None => {
                        proof { assert(false); }
                        return;
                    },
                };
                let kernel = String::from_str("EFI/").concat(fname.as_str());
                found.push(BootEntry { kernel, initramfs: None, append: None });
            },
            None => {},
        }
        self.entries = found;
        self.state = BlockState::Complete;
        assert(self@.entries =~= entries_for(efi@, opt_views(lowered@)));
    }
}

/// Whether some probe carries `name`.
pub open spec fn has_probe(v: Seq<ProbeView>, name: Seq<char>) -> bool {
    exists|i: int| 0 <= i < v.len() && (#[trigger] v[i]).name == name
}

/// No two probes carry the same name.
pub open spec fn names_unique(v: Seq<ProbeView>) -> bool {
    forall|i: int, j: int|
        0 <= i < v.len() && 0 <= j < v.len() && (#[trigger] v[i]).name == (#[trigger] v[j]).name
            ==> i == j
}

/// The collection is consistent: names are unique and every probe is.
pub open spec fn bootloader_wf(v: Seq<ProbeView>) -> bool {
    &&& names_unique(v)
    &&& forall|i: int| 0 <= i < v.len() ==> probe_wf(#[trigger] v[i])
}

/// A new probe of `name` on node `device`, in state `state`.
pub open spec fn fresh_probe(
    name: Seq<char>,
    device: Seq<char>,
    t: BlockDeviceType,
    state: BlockState,
) -> ProbeView {
    ProbeView {
        name,
        device,
        devicetype: t,
        point: mount_point_of(name),
        state,
        entries: Seq::empty(),
    }
}

/// The node resolution result with its path as characters.
pub open spec fn node_view(node: Result<String, NodeError>) -> Result<Seq<char>, NodeError> {
    match node {
        Ok(p) => Ok(p@),
        Err(e) => Err(e),
    }
}

/// Probing `name`: nothing happens when a probe of that name exists or its
/// node was not resolved; otherwise a probe is added when its mount helper
/// was spawned (waiting for it) or could not be spawned (complete, with no
/// entries), and none when the mount was refused.
pub open spec fn probe_step(
    v: Seq<ProbeView>,
    name: Seq<char>,
    node: Result<Seq<char>, NodeError>,
    t: BlockDeviceType,
    mount: MountOutcome,
) -> Seq<ProbeView> {
    if has_probe(v, name) {
        v
    } else {
        match node {
            Err(_) => v,
            Ok(device) => match mount {
                MountOutcome::Spawned(pid) => v.push(
                    fresh_probe(name, device, t, BlockState::Mounting { pid }),
                ),
                MountOutcome::SpawnFailed => v.push(
                    fresh_probe(name, device, t, BlockState::Complete),
                ),
                _ => v,
            },
        }
    }
}

/// Every probe answers the event, given the listing of the `EFI`
/// directory of the probe whose helper exited.
pub open spec fn events_step(v: Seq<ProbeView>, e: ServiceEvent, efi: Seq<EfiEntry>) -> Seq<ProbeView> {
    Seq::new(v.len(), |i: int| probe_event_step(v[i], e, efi))
}

/// The first probe, from index `i` on, that waits for process `pid`.
pub open spec fn awaiting_from(v: Seq<ProbeView>, pid: u32, i: int) -> Option<int>
    decreases v.len() - i,
{
    if i < 0 || i >= v.len() {
        None
    } else if v[i].state == (BlockState::Mounting { pid }) {
        Some(i)
    } else {
        awaiting_from(v, pid, i + 1)
    }
}

/// Whether some entry of a device's sysfs directory names a partition.
pub open spec fn has_partition_entry(name: Seq<char>, entries: Seq<String>) -> bool {
    exists|i: int| 0 <= i < entries.len() && has_prefix(#[trigger] entries[i]@, name)
}

/// The device a hotplug announcement leads to probe: the announced device,
/// when its sysfs directory shows no partitions.
pub open spec fn hotplug_target_of(new_device: Option<String>, entries: Seq<String>) -> Option<Seq<char>> {
    match new_device {
        Some(n) => if has_partition_entry(n@, entries) {
            None
        } else {
            Some(n@)
        },
        None => None,
    }
}

/// Decides which device a hotplug announcement leads to probe, given the
/// listing of the announced device's sysfs directory.
pub fn hotplug_target(new_device: &Option<String>, entries: &Vec<String>) -> (r: Option<String>)
    ensures
        opt_view(r) == hotplug_target_of(*new_device, entries@),
{
    match new_device {
        Some(n) => {
            if block_device_has_partitions(n.as_str(), entries) {
                None
            } else {
                Some(n.clone())
            }
        },
        None => None,
    }
}

/// The device name a hotplug notification announces: a `block` device
/// being added, with a `DEVNAME`.
pub open spec fn hotplug_name(e: ServiceEvent) -> Option<Seq<char>> {
    match e {
        ServiceEvent::Device(rec) => if rec.field("SUBSYSTEM"@) == Some("block"@) && rec.action
            == EventAction::Add {
            rec.field("DEVNAME"@)
        } else {
            None
        },
        _ => None,
    }
}

/// The first entry of the first probe, from index `j` on, that is complete,
/// of type `t`, and found an entry.
pub open spec fn pick_of_type(v: Seq<ProbeView>, t: BlockDeviceType, j: int) -> Option<EntryView>
    decreases v.len() - j,
{
    if j < 0 || j >= v.len() {
        None
    } else if v[j].state == BlockState::Complete && v[j].devicetype == t && v[j].entries.len() > 0 {
        Some(v[j].entries[0])
    } else {
        pick_of_type(v, t, j + 1)
    }
}

/// The entry chosen for the preference order `order` from index `k` on:
/// types in order of preference, probes of a type in order of creation.
pub open spec fn select_from(v: Seq<ProbeView>, order: Seq<BlockDeviceType>, k: int) -> Option<EntryView>
    decreases order.len() - k,
{
    if k < 0 || k >= order.len() {
        None
    } else {
        match pick_of_type(v, order[k], 0) {
            Some(e) => Some(e),
            None => select_from(v, order, k + 1),
        }
    }
}

/// Each probe of `v` has moved forward or stayed in `w`, and `w` has at
/// least the probes of `v`.
pub open spec fn collection_advances(v: Seq<ProbeView>, w: Seq<ProbeView>) -> bool {
    &&& v.len() <= w.len()
    &&& forall|i: int| 0 <= i < v.len() ==> probe_advances(#[trigger] v[i], w[i])
}

/// What the boot-source service did with an event.
pub struct EventOutcome {
    /// Some probe consumed the event.
    pub handled: bool,
    /// A block device announced by hotplug, to be probed when it shows no
    /// partitions (see `hotplug_target`).
    pub new_device: Option<String>,
}

/// The boot-source service: one probe per block device seen.
pub struct Bootloader {
    checked: Vec<DeviceProbe>,
}

impl View for Bootloader {
    type V = Seq<ProbeView>;

    closed spec fn view(&self) -> Seq<ProbeView> {
        self.checked@.map_values(|p: DeviceProbe| p@)
    }
}

impl Bootloader {
    pub fn new() -> (r: Bootloader)
        ensures
            r@ == Seq::<ProbeView>::empty(),
            bootloader_wf(r@),
    {
        let r = Bootloader { checked: Vec::new() };
        assert(r@ =~= Seq::<ProbeView>::empty());
        r
    }

    pub fn probe_count(&self) -> (r: usize)
        ensures
            r == self@.len(),
    {
        self.checked.len()
    }

    pub fn probe(&self, i: usize) -> (r: &DeviceProbe)
        requires
            i < self@.len(),
        ensures
            r@ == self@[i as int],
    {
        &self.checked[i]
    }

    /// The index of the probe named `name`.
    pub fn find_probe(&self, name: &str) -> (r: Option<usize>)
        ensures
            match r {
                Some(i) => i < self@.len() && self@[i as int].name == name@,
                None => !has_probe(self@, name@),
            },
    {
        let mut i: usize = 0;
        while i < self.checked.len()
            invariant
                i <= self.checked.len(),
                forall|j: int| 0 <= j < i ==> (#[trigger] self@[j]).name != name@,
            decreases self.checked.len() - i,
        {
            if text_eq(self.checked[i].name.as_str(), name) {
                return Some(i);
            }
            i = i + 1;
        }
        None
    }

    /// Whether `name` has no probe yet, so that probing it does something.
    pub fn needs_probe(&self, name: &str) -> (r: bool)
        ensures
            r == !has_probe(self@, name@),
    {
        self.find_probe(name).is_none()
    }

    /// Probes device `name`, given the resolution of its node, its type,
    /// and how the start of its mount went; see `probe_step`. Returns
    /// whether the device was new and its node resolved.
    pub fn probe_partition(
        &mut self,
        name: &str,
        node: Result<String, NodeError>,
        devicetype: BlockDeviceType,
        mount: MountOutcome,
    ) -> (r: bool)
        requires
            bootloader_wf(old(self)@),
        ensures
            final(self)@ == probe_step(old(self)@, name@, node_view(node), devicetype, mount),
            r == (!has_probe(old(self)@, name@) && node is Ok),
            bootloader_wf(final(self)@),
            collection_advances(old(self)@, final(self)@),
    {
        proof { lemma_probe_keeps_wf(self@, name@, node_view(node), devicetype, mount); }
        if !self.needs_probe(name) {
            return false;
        }
        match node {
            Err(_) => false,
            Ok(device) => {
                let mut block = DeviceProbe::new(name, device, devicetype);
                assert(block@.entries =~= Seq::<EntryView>::empty());
                match block.mount(mount) {
                    Ok(_) => {
                        let ghost before = self.checked@;
                        self.checked.push(block);
                        assert(self.checked@ == before.push(block));
                        assert(self@ =~= old(self)@.push(block@));
                        assert(self@ =~= probe_step(old(self)@, name@, node_view(node), devicetype, mount));
                    },
                    Err(_) => {},
                }
                true
            },
        }
    }

    /// The index of the first probe that waits for process `pid`: the
    /// probe whose `EFI` directory `event` needs when `pid` exits.
    pub fn awaiting(&self, pid: u32) -> (r: Option<usize>)
        ensures
            match r {
                Some(i) => awaiting_from(self@, pid, 0) == Some(i as int),
                None => awaiting_from(self@, pid, 0) is None,
            },
    {
        let mut i: usize = 0;
        while i < self.checked.len()
            invariant
                i <= self.checked.len(),
                awaiting_from(self@, pid, 0) == awaiting_from(self@, pid, i as int),
            decreases self.checked.len() - i,
        {
            assert(self@[i as int] == self.checked@[i as int]@);
            if self.checked[i].state == (BlockState::Mounting { pid }) {
                return Some(i);
            }
            i = i + 1;
        }
        None
    }

    /// Offers an event to every probe, in order of creation, with the
    /// listing of the `EFI` directory of the probe that waits for the
    /// exited process (see `awaiting`; any listing otherwise). A probe whose
    /// mount succeeded is scanned within this call. Reports whether a probe
    /// consumed the event and which new device it announces.
    pub fn event(&mut self, event: &ServiceEvent, efi: &Vec<EfiEntry>) -> (r: EventOutcome)
        requires
            bootloader_wf(old(self)@),
        ensures
            final(self)@ == events_step(old(self)@, *event, efi@),
            bootloader_wf(final(self)@),
            collection_advances(old(self)@, final(self)@),
            r.handled == exists|i: int| 0 <= i < old(self)@.len() && probe_consumes(#[trigger] old(self)@[i], *event),
            opt_view(r.new_device) == (if r.handled {
                None
            } else {
                hotplug_name(*event)
            }),
    {
        proof { lemma_events_keep_wf(self@, *event, efi@); }
        let lowered = lowered_listing(efi);
        let ghost v0 = self@;
        let mut handled = false;
        let mut i: usize = 0;
        while i < self.checked.len()
            invariant
                i <= self.checked.len(),
                lowered.len() == efi.len(),
                opt_views(lowered@) == lowered_names(efi@),
                self@.len() == v0.len(),
                forall|j: int| 0 <= j < i ==> (#[trigger] self@[j]) == probe_event_step(v0[j], *event, efi@),
                forall|j: int| i <= j < v0.len() ==> (#[trigger] self@[j]) == v0[j],
                handled == exists|j: int| 0 <= j < i && probe_consumes(#[trigger] v0[j], *event),
            decreases self.checked.len() - i,
        {
            let ghost before = self.checked@;
            let ghost vb = self@;
            assert(vb[i as int] == before[i as int]@);
            assert(vb[i as int] == v0[i as int]);
            let consumed = self.checked[i].event_lowered(event, efi, &lowered);
            proof {
                assert(self.checked@ == before.update(i as int, self.checked@[i as int]));
                assert(self@[i as int] == probe_event_step(v0[i as int], *event, efi@));
                assert forall|j: int| 0 <= j < v0.len() && j != i implies (#[trigger] self@[j]) == vb[j] by {
                    assert(self.checked@[j] == before[j]);
                    assert(vb[j] == before[j]@);
                }
            }
            if consumed {
                handled = true;
            }
            i = i + 1;
        }
        assert(self@ =~= events_step(v0, *event, efi@));
        let new_device = if handled {
            None
        } else {
            match event {
                ServiceEvent::Device(rec) => {
                    let sub = rec.get("SUBSYSTEM");
                    let is_block = match &sub {
                        Some(s) => text_eq(s.as_str(), "block"),
                        None => false,
                    };
                    if is_block && rec.action == EventAction::Add {
                        rec.get("DEVNAME")
                    } else {
                        None
                    }
                },
                _ => None,
            }
        };
        EventOutcome { handled, new_device }
    }

    /// The entry to boot for the preference order `order`: see `select_from`.
    pub fn select_boot_entry(&self, order: &Vec<BlockDeviceType>) -> (r: Option<BootEntry>)
        ensures
            match r {
                Some(e) => select_from(self@, order@, 0) == Some(e@),
                None => select_from(self@, order@, 0) is None,
            },
    {
        let mut k: usize = 0;
        while k < order.len()
            invariant
                k <= order.len(),
                select_from(self@, order@, 0) == select_from(self@, order@, k as int),
            decreases order.len() - k,
        {
            let t = order[k];
            let mut j: usize = 0;
            while j < self.checked.len()
                invariant
                    j <= self.checked.len(),
                    t == order@[k as int],
                    k < order.len(),
                    select_from(self@, order@, 0) == select_from(self@, order@, k as int),
                    pick_of_type(self@, t, 0) == pick_of_type(self@, t, j as int),
                decreases self.checked.len() - j,
            {
                let p = &self.checked[j];
                assert(self@[j as int] == p@);
                if p.state == BlockState::Complete && p.devicetype == t && p.entries.len() != 0 {
                    assert(p@.entries[0] == p.entries@[0]@);
                    return Some(p.entries[0].duplicate());
                }
                j = j + 1;
            }
            k = k + 1;
        }
        None
    }

    /// `Inactive` until some device is probed, `Running` afterwards.
    pub fn state(&self) -> (r: ServiceState)
        ensures
            r == (if self@.len() == 0 {
                ServiceState::Inactive
            } else {
                ServiceState::Running
            }),
    {
        if self.checked.len() == 0 {
            ServiceState::Inactive
        } else {
            ServiceState::Running
        }
    }
}

/// Probing keeps the collection consistent and moves no probe backward.
pub proof fn lemma_probe_keeps_wf(
    v: Seq<ProbeView>,
    name: Seq<char>,
    node: Result<Seq<char>, NodeError>,
    t: BlockDeviceType,
    mount: MountOutcome,
)
    requires
        bootloader_wf(v),
    ensures
        bootloader_wf(probe_step(v, name, node, t, mount)),
        collection_advances(v, probe_step(v, name, node, t, mount)),
{
    let w = probe_step(v, name, node, t, mount);
    if w.len() > v.len() {
        assert forall|i: int, j: int|
            0 <= i < w.len() && 0 <= j < w.len() && (#[trigger] w[i]).name == (#[trigger] w[j]).name
            implies i == j by {
            if i < v.len() && j == v.len() {
                assert(v[i].name == name);
            }
            if j < v.len() && i == v.len() {
                assert(v[j].name == name);
            }
        }
    }
    assert forall|i: int| 0 <= i < v.len() implies probe_advances(#[trigger] v[i], w[i]) by {
        assert(w[i] == v[i]);
    }
}

/// Every probe answers an event without going backward, and the
/// collection stays consistent: in particular no probe is left in
/// `Scanning`.
pub proof fn lemma_events_keep_wf(v: Seq<ProbeView>, e: ServiceEvent, efi: Seq<EfiEntry>)
    requires
        bootloader_wf(v),
    ensures
        bootloader_wf(events_step(v, e, efi)),
        collection_advances(v, events_step(v, e, efi)),
        events_step(v, e, efi).len() == v.len(),
{
    let w = events_step(v, e, efi);
    assert forall|i: int| 0 <= i < v.len() implies probe_advances(#[trigger] v[i], w[i]) by {
        assert(probe_wf(v[i]));
        lemma_event_moves_forward(v[i], e, efi);
    }
    assert forall|i: int| 0 <= i < w.len() implies probe_wf(#[trigger] w[i]) by {
        assert(probe_wf(v[i]));
        lemma_event_moves_forward(v[i], e, efi);
    }
    assert forall|i: int, j: int|
        0 <= i < w.len() && 0 <= j < w.len() && (#[trigger] w[i]).name == (#[trigger] w[j]).name
        implies i == j by {
        assert(v[i].name == w[i].name && v[j].name == w[j].name);
    }
}

/// A probe never moves backward on an event, a complete probe ignores
/// every event, and a consistent probe stays consistent: it never ends an
/// event in `Scanning`.
pub proof fn lemma_event_moves_forward(p: ProbeView, e: ServiceEvent, efi: Seq<EfiEntry>)
    ensures
        probe_advances(p, probe_event_step(p, e, efi)),
        probe_wf(p) ==> probe_wf(probe_event_step(p, e, efi)),
{
}

/// A successful exit of the mount helper a probe waits for scans the
/// probe's `EFI` listing within the same step: the probe completes with
/// what the scan found.
pub proof fn lemma_successful_exit_scans(p: ProbeView, code: Option<i32>, efi: Seq<EfiEntry>)
    requires
        probe_wf(p),
        p.state is Mounting,
        exit_success(code),
    ensures
        ({
            let e = ServiceEvent::ProcessExited { pid: p.state->pid, code };
            &&& probe_consumes(p, e)
            &&& probe_event_step(p, e, efi) == (ProbeView {
                state: BlockState::Complete,
                entries: scan_entries(efi),
                ..p
            })
        }),
{
}

/// An exit whose process id is not the one a mounting probe waits for
/// leaves the probe as it is.
pub proof fn lemma_foreign_exit_ignored(p: ProbeView, pid: u32, code: Option<i32>)
    requires
        p.state is Mounting,
        p.state->pid != pid,
    ensures
        forall|efi: Seq<EfiEntry>| #[trigger] probe_event_step(p, ServiceEvent::ProcessExited { pid, code }, efi) == p,
        !probe_consumes(p, ServiceEvent::ProcessExited { pid, code }),
{
}

/// Probing the same name twice never yields a second probe of it: once a
/// probe of `name` exists, probing it again changes nothing.
pub proof fn lemma_probe_twice(
    v: Seq<ProbeView>,
    name: Seq<char>,
    node1: Result<Seq<char>, NodeError>,
    t1: BlockDeviceType,
    mount1: MountOutcome,
    node2: Result<Seq<char>, NodeError>,
    t2: BlockDeviceType,
    mount2: MountOutcome,
)
    requires
        bootloader_wf(v),
    ensures
        ({
            let v1 = probe_step(v, name, node1, t1, mount1);
            let v2 = probe_step(v1, name, node2, t2, mount2);
            &&& has_probe(v1, name) ==> v2 == v1
            &&& names_unique(v2)
        }),
{
    lemma_probe_keeps_wf(v, name, node1, t1, mount1);
    let v1 = probe_step(v, name, node1, t1, mount1);
    lemma_probe_keeps_wf(v1, name, node2, t2, mount2);
}

} // verus!

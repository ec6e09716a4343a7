//! Block device classification by its sysfs backing chain.
use vstd::prelude::*;
use crate::sysfs::path_has_subdir;
use crate::text::{has_prefix, opt_view, text_eq, text_starts_with};

verus! {

/// The transport that backs a block device.
#[derive(PartialEq, Eq, Structural, Clone, Copy, Debug)]
pub enum BlockDeviceType {
    Other,
    Internal,
    USB,
    /// Reserved for network transports; classification never yields it.
    Network,
}

/// What classification reads from sysfs for one device.
pub struct BackingChain {
    /// File name of the target of the backing device's `subsystem` link;
    /// `None` when there is no backing device or the link does not resolve.
    pub subsystem: Option<String>,
    /// File name of the `subsystem` link target of the parent of the nearest
    /// ancestor of the backing device that holds a `scsi_host` entry; `None`
    /// when there is no such ancestor or the link does not resolve.
    pub host_subsystem: Option<String>,
}

impl BackingChain {
    pub open spec fn view(&self) -> (Option<Seq<char>>, Option<Seq<char>>) {
        (opt_view(self.subsystem), opt_view(self.host_subsystem))
    }
}

/// Classification of a backing chain: `virtio` is internal; `scsi` is USB
/// when its host hangs off the `usb` subsystem and internal otherwise;
/// anything else, or no subsystem at all, is other.
pub open spec fn device_type_of(
    subsystem: Option<Seq<char>>,
    host_subsystem: Option<Seq<char>>,
) -> BlockDeviceType {
    match subsystem {
        Some(s) => if s == "virtio"@ {
            BlockDeviceType::Internal
        } else if s == "scsi"@ {
            if host_subsystem == Some("usb"@) {
                BlockDeviceType::USB
            } else {
                BlockDeviceType::Internal
            }
        } else {
            BlockDeviceType::Other
        },
        None => BlockDeviceType::Other,
    }
}

/// A device listed under the block directory provides storage when its
/// directory there holds a `device` entry (loop and ram devices do not).
pub fn block_device_is_storage(entries: &Vec<String>) -> (r: bool)
    ensures
        r == entries.deep_view().contains("device"@),
{
    path_has_subdir(entries, "device")
}

/// Whether some entry of the device's sysfs directory is named with the
/// device's name as prefix, which is how partitions appear there.
pub fn block_device_has_partitions(name: &str, entries: &Vec<String>) -> (r: bool)
    ensures
        r == exists|i: int| 0 <= i < entries.len() && has_prefix(#[trigger] entries@[i]@, name@),
{
    let mut i: usize = 0;
    while i < entries.len()
        invariant
            i <= entries.len(),
            forall|j: int| 0 <= j < i ==> !has_prefix(#[trigger] entries@[j]@, name@),
        decreases entries.len() - i,
    {
        if text_starts_with(entries[i].as_str(), name) {
            return true;
        }
        i = i + 1;
    }
    false
}

/// The entries of a whole disk's sysfs directory that name its partitions:
/// those prefixed by the disk's name, in listing order.
pub fn partition_names(name: &str, entries: &Vec<String>) -> (r: Vec<String>)
    ensures
        r.deep_view() == entries.deep_view().filter(|e: Seq<char>| has_prefix(e, name@)),
{
    let ghost f = |e: Seq<char>| has_prefix(e, name@);
    let mut out: Vec<String> = Vec::new();
    let mut i: usize = 0;
    while i < entries.len()
        invariant
            i <= entries.len(),
            f == (|e: Seq<char>| has_prefix(e, name@)),
            out.deep_view() == entries.deep_view().subrange(0, i as int).filter(f),
        decreases entries.len() - i,
    {
        let ghost dv = entries.deep_view();
        let ghost before = out.deep_view();
        assert(dv.subrange(0, i + 1).drop_last() =~= dv.subrange(0, i as int));
        assert(dv.subrange(0, i + 1).last() == entries@[i as int]@);
        reveal(Seq::filter);
        if text_starts_with(entries[i].as_str(), name) {
            out.push(entries[i].clone());
            assert(out.deep_view() =~= before.push(entries@[i as int]@)) by {
                assert forall|k: int| 0 <= k < out@.len() implies #[trigger] out.deep_view()[k]
                    == before.push(entries@[i as int]@)[k] by {
                    assert(out.deep_view()[k] == out@[k]@);
                }
            }
        }
        i = i + 1;
    }
    assert(entries.deep_view().subrange(0, entries.len() as int) =~= entries.deep_view());
    out
}

/// The devices to probe at start among those of one listed block device,
/// given the listing of its directory under the block directory: its
/// partitions when it provides storage, none otherwise.
pub fn start_targets(name: &str, entries: &Vec<String>) -> (r: Vec<String>)
    ensures
        r.deep_view() == (if entries.deep_view().contains("device"@) {
            entries.deep_view().filter(|e: Seq<char>| has_prefix(e, name@))
        } else {
            Seq::empty()
        }),
{
    if block_device_is_storage(entries) {
        partition_names(name, entries)
    } else {
        let r: Vec<String> = Vec::new();
        assert(r.deep_view() =~= Seq::<Seq<char>>::empty());
        r
    }
}

/// The path with `leaf` appended.
pub open spec fn child_of(dir: Seq<Seq<char>>, leaf: Seq<char>) -> Seq<Seq<char>> {
    dir.push(leaf)
}

/// The parent directory; the root is its own parent.
pub open spec fn parent_of(dir: Seq<Seq<char>>) -> Seq<Seq<char>> {
    if dir.len() == 0 {
        dir
    } else {
        dir.drop_last()
    }
}

fn push_component(dir: &Vec<String>, upto: usize, leaf: &str) -> (r: Vec<String>)
    requires
        upto <= dir.len(),
    ensures
        r.deep_view() == dir.deep_view().subrange(0, upto as int).push(leaf@),
{
    let mut out: Vec<String> = Vec::new();
    let mut j: usize = 0;
    while j < upto
        invariant
            j <= upto,
            upto <= dir.len(),
            out@.len() == j,
            out.deep_view() == dir.deep_view().subrange(0, j as int),
        decreases upto - j,
    {
        let c = dir[j].clone();
        let ghost before = out.deep_view();
        out.push(c);
        assert forall|i: int| 0 <= i < j + 1 implies #[trigger] out.deep_view()[i]
            == dir.deep_view()[i] by {
            assert(out.deep_view()[i] == out@[i]@);
            assert(dir.deep_view()[i] == dir@[i]@);
            if i < j {
                assert(before[i] == dir.deep_view()[i]);
            }
        }
        assert(out.deep_view() =~= dir.deep_view().subrange(0, j + 1));
        j = j + 1;
    }
    let ghost before = out.deep_view();
    out.push(leaf.to_owned());
    assert forall|i: int| 0 <= i < upto + 1 implies #[trigger] out.deep_view()[i]
        == before.push(leaf@)[i] by {
        assert(out.deep_view()[i] == out@[i]@);
    }
    assert(out.deep_view() =~= before.push(leaf@));
    out
}

/// The `device` entry of a canonical block device directory.
pub fn device_dir(block: &Vec<String>) -> (r: Vec<String>)
    ensures
        r.deep_view() == child_of(block.deep_view(), "device"@),
{
    let r = push_component(block, block.len(), "device");
    assert(block.deep_view().subrange(0, block.len() as int) =~= block.deep_view());
    r
}

/// The `device` entry beside a canonical block device directory, which is
/// where a partition finds the device of its whole disk.
pub fn parent_device_dir(block: &Vec<String>) -> (r: Vec<String>)
    ensures
        r.deep_view() == child_of(parent_of(block.deep_view()), "device"@),
{
    let upto: usize = if block.len() == 0 { 0 } else { block.len() - 1 };
    let r = push_component(block, upto, "device");
    assert(parent_of(block.deep_view()) =~= block.deep_view().subrange(0, upto as int));
    r
}

/// The backing device directory of a block device, given its canonical
/// sysfs directory (`None` when that did not resolve) and whether
/// `device_dir` and `parent_device_dir` of it exist.
pub fn block_device_path(block: &Option<Vec<String>>, device_exists: bool, parent_device_exists: bool) -> (r:
    Option<Vec<String>>)
    ensures
        match block {
            None => r is None,
            Some(b) => if device_exists {
                r is Some && r->0.deep_view() == child_of(b.deep_view(), "device"@)
            } else if parent_device_exists {
                r is Some && r->0.deep_view() == child_of(parent_of(b.deep_view()), "device"@)
            } else {
                r is None
            },
        },
{
    match block {
        None => None,
        Some(b) => {
            if device_exists {
                Some(device_dir(b))
            } else if parent_device_exists {
                Some(parent_device_dir(b))
            } else {
                None
            }
        },
    }
}

/// Classifies a block device by its backing chain.
pub fn block_device_type(chain: &BackingChain) -> (r: BlockDeviceType)
    ensures
        r == device_type_of(chain.view().0, chain.view().1),
{
    match &chain.subsystem {
        Some(s) => {
            if text_eq(s.as_str(), "virtio") {
                BlockDeviceType::Internal
            } else if text_eq(s.as_str(), "scsi") {
                match &chain.host_subsystem {
                    Some(h) => {
                        if text_eq(h.as_str(), "usb") {
                            BlockDeviceType::USB
                        } else {
                            BlockDeviceType::Internal
                        }
                    },
                    None => BlockDeviceType::Internal,
                }
            } else {
                BlockDeviceType::Other
            }
        },
        None => BlockDeviceType::Other,
    }
}

/// Classification reads nothing but the backing chain: two chains that read
/// the same give the same type.
pub proof fn lemma_classification_deterministic(a: BackingChain, b: BackingChain)
    requires
        a.view() == b.view(),
    ensures
        device_type_of(a.view().0, a.view().1) == device_type_of(b.view().0, b.view().1),
{
}

} // verus!

//! Events offered to services, and the lifecycle stages services report.
use vstd::prelude::*;
use crate::text::text_eq;

verus! {

/// Lifecycle stage of a service.
#[derive(PartialEq, Eq, Structural, Clone, Copy, Debug)]
pub enum ServiceState {
    Inactive,
    Running,
    Ready,
    Stopped,
    Failed,
}

/// What a kernel hotplug notification reports happened to a device.
#[derive(PartialEq, Eq, Structural, Clone, Copy, Debug)]
pub enum EventAction {
    Add,
    Remove,
    Change,
}

/// One kernel hotplug notification: its action and its `KEY=value` fields.
pub struct UeventRecord {
    pub action: EventAction,
    pub fields: Vec<(String, String)>,
}

/// The value of the first field named `key` at or after index `i`.
pub open spec fn field_from(fields: Seq<(String, String)>, key: Seq<char>, i: int) -> Option<Seq<char>>
    decreases fields.len() - i,
{
    if i < 0 || i >= fields.len() {
        None
    } else if fields[i].0@ == key {
        Some(fields[i].1@)
    } else {
        field_from(fields, key, i + 1)
    }
}

impl UeventRecord {
    /// The value of field `key`.
    pub open spec fn field(&self, key: Seq<char>) -> Option<Seq<char>> {
        field_from(self.fields@, key, 0)
    }

    /// Looks up field `key`.
    pub fn get(&self, key: &str) -> (r: Option<String>)
        ensures
            crate::text::opt_view(r) == self.field(key@),
    {
        let mut i: usize = 0;
        while i < self.fields.len()
            invariant
                i <= self.fields.len(),
                self.field(key@) == field_from(self.fields@, key@, i as int),
            decreases self.fields.len() - i,
        {
            if text_eq(self.fields[i].0.as_str(), key) {
                return Some(self.fields[i].1.clone());
            }
            i = i + 1;
        }
        None
    }
}

/// An occurrence dispatched to every service.
pub enum ServiceEvent {
    /// A child process exited; `code` is its exit code, `None` when a
    /// signal ended it.
    ProcessExited { pid: u32, code: Option<i32> },
    /// A kernel hotplug notification.
    Device(UeventRecord),
}

/// Whether an exit means success: it exited with code zero.
pub open spec fn exit_success(code: Option<i32>) -> bool {
    code == Some(0i32)
}

} // verus!

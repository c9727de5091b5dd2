//! The fixed list of targets, read once at startup, and the monitor that
//! each one gets.
use crate::monitor::{DeviceMonitor, DomainMonitor};
use vstd::prelude::*;

verus! {

/// A device to watch: its name and its IP address as written.
pub struct DeviceTarget {
    pub name: String,
    pub ip: String,
}

/// Every target of this process.
pub struct TargetRegistry {
    pub devices: Vec<DeviceTarget>,
    pub domains: Vec<String>,
}

impl TargetRegistry {
    /// One monitor per device, in registry order, each starting at sequence 0.
    pub fn device_monitors(&self) -> (r: Vec<DeviceMonitor>)
        ensures
            r@.len() == self.devices@.len(),
            forall|i: int|
                0 <= i < r@.len() ==> {
                    &&& (#[trigger] r@[i]).name == self.devices@[i].name
                    &&& r@[i].ip == self.devices@[i].ip
                    &&& r@[i].sequence == 0
                },
    {
        let mut out: Vec<DeviceMonitor> = Vec::new();
        let mut i: usize = 0;
        while i < self.devices.len()
            invariant
                i <= self.devices@.len(),
                out@.len() == i,
                forall|k: int|
                    0 <= k < i ==> {
                        &&& (#[trigger] out@[k]).name == self.devices@[k].name
                        &&& out@[k].ip == self.devices@[k].ip
                        &&& out@[k].sequence == 0
                    },
            decreases self.devices@.len() - i,
        {
            let d = &self.devices[i];
            out.push(DeviceMonitor::new(d.name.clone(), d.ip.clone()));
            i = i + 1;
        }
        out
    }

    /// One monitor per domain, in registry order.
    pub fn domain_monitors(&self) -> (r: Vec<DomainMonitor>)
        ensures
            r@.len() == self.domains@.len(),
            forall|i: int| 0 <= i < r@.len() ==> (#[trigger] r@[i]).domain == self.domains@[i],
    {
        let mut out: Vec<DomainMonitor> = Vec::new();
        let mut i: usize = 0;
        while i < self.domains.len()
            invariant
                i <= self.domains@.len(),
                out@.len() == i,
                forall|k: int| 0 <= k < i ==> (#[trigger] out@[k]).domain == self.domains@[k],
            decreases self.domains@.len() - i,
        {
            out.push(DomainMonitor::new(self.domains[i].clone()));
            i = i + 1;
        }
        out
    }
}

} // verus!

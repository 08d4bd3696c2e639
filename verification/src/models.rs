//! Plain data records for containers and their raw statistics, as the
//! container engine reports them.  Ids, names and states are opaque strings;
//! CPU counters are cumulative, memory values are instantaneous gauges.

use vstd::prelude::*;

verus! {

/// One container as the engine lists it.
#[derive(Debug)]
pub struct Container {
    pub id: String,
    pub names: Vec<String>,
    pub image: String,
    pub command: String,
    /// Creation time, unix seconds.
    pub created: i64,
    /// Lifecycle state; `"running"` is the one this dashboard singles out.
    pub state: String,
    pub status: String,
    pub ports: Vec<Port>,
    pub health: Option<Health>,
}

/// One published port of a container.
#[derive(Debug)]
pub struct Port {
    pub ip: Option<String>,
    pub internal: u16,
    pub external: Option<u16>,
    pub protocol: String,
}

/// The engine's health probe result for a container.
#[derive(Debug)]
pub struct Health {
    pub status: String,
}

/// One raw statistics snapshot for a container.  The engine reports the
/// current counter readings together with the readings of the previous
/// sampling period (`precpu_stats`), so one snapshot suffices to derive a
/// rate.
#[derive(Debug)]
pub struct ContainerStats {
    pub name: String,
    pub read: String,
    pub preread: String,
    pub cpu_stats: CpuStats,
    pub memory_stats: MemoryStats,
    pub precpu_stats: CpuStats,
    pub gpu_stats: Option<GpuStats>,
    pub num_procs: u64,
}

/// Cumulative CPU counters at one sampling instant.
#[derive(Debug)]
pub struct CpuStats {
    pub cpu_usage: CpuUsage,
    /// Cumulative CPU time of the whole system; absent in the zeroed
    /// previous-period block of a first observation.
    pub system_cpu_usage: Option<u64>,
    pub online_cpus: Option<u32>,
    pub throttling_data: ThrottlingData,
}

/// Cumulative CPU time used by one container.
#[derive(Debug)]
pub struct CpuUsage {
    pub total_usage: u64,
    pub usage_in_kernelmode: u64,
    pub usage_in_usermode: u64,
}

/// CPU throttling counters; carried through, not interpreted.
#[derive(Debug)]
pub struct ThrottlingData {
    pub periods: u64,
    pub throttled_periods: u64,
    pub throttled_time: u64,
}

/// Memory gauges at one sampling instant.
#[derive(Debug)]
pub struct MemoryStats {
    pub usage: Option<u64>,
    pub limit: Option<u64>,
}

/// GPU statistics, when the engine reports any devices.
#[derive(Debug)]
pub struct GpuStats {
    pub devices: Vec<GpuDevice>,
}

/// One GPU device's gauges; `utilization` is a whole percentage.
#[derive(Debug)]
pub struct GpuDevice {
    pub memory_used: u64,
    pub memory_total: u64,
    pub utilization: u32,
}

/// An exact copy of a vector of strings.
fn clone_string_vec(v: &Vec<String>) -> (res: Vec<String>)
    ensures
        res@ == v@,
{
    let mut out: Vec<String> = Vec::new();
    let mut i: usize = 0;
    while i < v.len()
        invariant
            i <= v.len(),
            out@ =~= v@.subrange(0, i as int),
        decreases v.len() - i,
    {
        out.push(v[i].clone());
        i += 1;
    }
    proof {
        assert(out@ =~= v@);
    }
    out
}

impl Clone for Port {
    /// An exact copy.
    fn clone(&self) -> (res: Self)
        ensures
            res == *self,
    {
        Port {
            ip: match &self.ip {
                Some(s) => Some(s.clone()),
                None => None,
            },
            internal: self.internal,
            external: self.external,
            protocol: self.protocol.clone(),
        }
    }
}

impl Clone for Health {
    /// An exact copy.
    fn clone(&self) -> (res: Self)
        ensures
            res == *self,
    {
        Health { status: self.status.clone() }
    }
}

/// An exact copy of a vector of ports.
fn clone_port_vec(v: &Vec<Port>) -> (res: Vec<Port>)
    ensures
        res@ == v@,
{
    let mut out: Vec<Port> = Vec::new();
    let mut i: usize = 0;
    while i < v.len()
        invariant
            i <= v.len(),
            out@ =~= v@.subrange(0, i as int),
        decreases v.len() - i,
    {
        out.push(v[i].clone());
        i += 1;
    }
    proof {
        assert(out@ =~= v@);
    }
    out
}

/// Whether two container records carry the same data.  (Two `Vec` values
/// with equal contents need not be equal as values, so this is the right
/// notion of "the same record".)
pub open spec fn same_container(a: Container, b: Container) -> bool {
    &&& a.id == b.id
    &&& a.names@ == b.names@
    &&& a.image == b.image
    &&& a.command == b.command
    &&& a.created == b.created
    &&& a.state == b.state
    &&& a.status == b.status
    &&& a.ports@ == b.ports@
    &&& a.health == b.health
}

impl Clone for Container {
    /// An exact copy.
    fn clone(&self) -> (res: Self)
        ensures
            same_container(res, *self),
    {
        Container {
            id: self.id.clone(),
            names: clone_string_vec(&self.names),
            image: self.image.clone(),
            command: self.command.clone(),
            created: self.created,
            state: self.state.clone(),
            status: self.status.clone(),
            ports: clone_port_vec(&self.ports),
            health: match &self.health {
                Some(h) => Some(h.clone()),
                None => None,
            },
        }
    }
}

} // verus!

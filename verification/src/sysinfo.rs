//! System telemetry as plain values, and the arithmetic on what the platform
//! reports.

use vstd::prelude::*;
use vstd::string::*;
use crate::text::str_eq;

verus! {

#[derive(Debug, Clone)]
pub struct MemoryInfo {
    pub total_bytes: u64,
    pub used_bytes: u64,
    pub available_bytes: u64,
}

#[derive(Debug, Clone)]
pub struct DiskInfo {
    pub mount_point: String,
    pub filesystem: String,
    pub total_bytes: u64,
    pub used_bytes: u64,
    pub available_bytes: u64,
}

#[derive(Debug, Clone)]
pub struct NetworkInfo {
    pub name: String,
    pub mac_address: Option<String>,
    pub ipv4: Option<String>,
    pub ipv6: Option<String>,
}

/// The counters of `/proc/meminfo` that the agent reads, in KiB.
#[derive(Debug, Clone, Copy, PartialEq, Eq, Structural)]
pub struct MemoryCounters {
    pub total_kb: u64,
    pub available_kb: u64,
    pub free_kb: u64,
    pub buffers_kb: u64,
    pub cached_kb: u64,
}

/// A value cut to the largest `u64`.
pub open spec fn cut_u64(v: int) -> u64 {
    if v > u64::MAX {
        u64::MAX
    } else {
        v as u64
    }
}

/// The available memory in KiB: what the kernel reports, or on kernels that
/// report none the sum of free memory, buffers and cache.
pub open spec fn available_kb_of(c: MemoryCounters) -> int {
    if c.available_kb == 0 {
        c.free_kb + c.buffers_kb + c.cached_kb
    } else {
        c.available_kb as int
    }
}

fn kb_to_bytes(kb: u128) -> (bytes: u64)
    requires
        kb <= 3 * u64::MAX,
    ensures
        bytes == cut_u64(kb * 1024),
{
    let bytes: u128 = kb * 1024;
    if bytes > u64::MAX as u128 {
        u64::MAX
    } else {
        bytes as u64
    }
}

/// The memory figures in bytes from the counters in KiB. What does not fit
/// is cut to the largest `u64`; the used memory is the total less the
/// available, and nothing where more is available than there is.
pub fn memory_info(c: MemoryCounters) -> (m: MemoryInfo)
    ensures
        m.total_bytes == cut_u64(c.total_kb * 1024),
        m.available_bytes == cut_u64(available_kb_of(c) * 1024),
        m.used_bytes == (if m.total_bytes >= m.available_bytes {
            m.total_bytes - m.available_bytes
        } else {
            0
        }) as u64,
{
    let available_kb: u128 = if c.available_kb == 0 {
        c.free_kb as u128 + c.buffers_kb as u128 + c.cached_kb as u128
    } else {
        c.available_kb as u128
    };
    let total_bytes = kb_to_bytes(c.total_kb as u128);
    let available_bytes = kb_to_bytes(available_kb);
    let used_bytes = if total_bytes >= available_bytes {
        total_bytes - available_bytes
    } else {
        0
    };
    MemoryInfo { total_bytes, used_bytes, available_bytes }
}

/// Whether a file system has no storage of its own behind it.
pub open spec fn pseudo_filesystem(name: Seq<char>) -> bool {
    name == "proc"@ || name == "sysfs"@ || name == "devtmpfs"@ || name == "devpts"@ || name
        == "tmpfs"@ || name == "securityfs"@ || name == "cgroup"@ || name == "cgroup2"@ || name
        == "pstore"@ || name == "debugfs"@ || name == "hugetlbfs"@ || name == "mqueue"@ || name
        == "fusectl"@ || name == "configfs"@ || name == "binfmt_misc"@ || name == "autofs"@
        || name == "tracefs"@ || name == "bpf"@ || name == "efivarfs"@ || name == "overlay"@
        || name == "nsfs"@ || name == "ramfs"@ || name == "rpc_pipefs"@ || name == "nfsd"@
}

/// Whether a file system has no storage of its own behind it.
pub fn is_pseudo_filesystem(name: &str) -> (r: bool)
    ensures
        r == pseudo_filesystem(name@),
{
    str_eq(name, "proc") || str_eq(name, "sysfs") || str_eq(name, "devtmpfs") || str_eq(
        name,
        "devpts",
    ) || str_eq(name, "tmpfs") || str_eq(name, "securityfs") || str_eq(name, "cgroup") || str_eq(
        name,
        "cgroup2",
    ) || str_eq(name, "pstore") || str_eq(name, "debugfs") || str_eq(name, "hugetlbfs") || str_eq(
        name,
        "mqueue",
    ) || str_eq(name, "fusectl") || str_eq(name, "configfs") || str_eq(name, "binfmt_misc")
        || str_eq(name, "autofs") || str_eq(name, "tracefs") || str_eq(name, "bpf") || str_eq(
        name,
        "efivarfs",
    ) || str_eq(name, "overlay") || str_eq(name, "nsfs") || str_eq(name, "ramfs") || str_eq(
        name,
        "rpc_pipefs",
    ) || str_eq(name, "nfsd")
}

fn blocks_to_bytes(blocks: u64, block_size: u64) -> (bytes: u64)
    ensures
        bytes == cut_u64(blocks * block_size),
{
    assert(blocks as u128 * block_size as u128 <= 0xFFFF_FFFF_FFFF_FFFF * 0xFFFF_FFFF_FFFF_FFFF)
        by (nonlinear_arith)
        requires
            blocks as u128 <= 0xFFFF_FFFF_FFFF_FFFF,
            block_size as u128 <= 0xFFFF_FFFF_FFFF_FFFF,
    ;
    let bytes: u128 = blocks as u128 * block_size as u128;
    if bytes > u64::MAX as u128 {
        u64::MAX
    } else {
        bytes as u64
    }
}

/// The usage of a mounted file system from its block counts, or nothing for
/// a file system without blocks. What does not fit is cut to the largest
/// `u64`.
pub fn disk_usage(
    mount_point: &str,
    filesystem: &str,
    block_size: u64,
    blocks: u64,
    blocks_available: u64,
    blocks_free: u64,
) -> (r: Option<DiskInfo>)
    ensures
        r is Some <==> blocks * block_size != 0,
        r matches Some(d) ==> {
            &&& d.mount_point@ == mount_point@
            &&& d.filesystem@ == filesystem@
            &&& d.total_bytes == cut_u64(blocks * block_size)
            &&& d.available_bytes == cut_u64(blocks_available * block_size)
            &&& d.used_bytes == (if d.total_bytes >= cut_u64(blocks_free * block_size) {
                d.total_bytes - cut_u64(blocks_free * block_size)
            } else {
                0
            }) as u64
        },
{
    let total_bytes = blocks_to_bytes(blocks, block_size);
    let available_bytes = blocks_to_bytes(blocks_available, block_size);
    let free_bytes = blocks_to_bytes(blocks_free, block_size);
    if total_bytes == 0 {
        proof {
            assert(blocks * block_size == 0);
        }
        return None;
    }
    let used_bytes = if total_bytes >= free_bytes {
        total_bytes - free_bytes
    } else {
        0
    };
    Some(
        DiskInfo {
            mount_point: String::from_str(mount_point),
            filesystem: String::from_str(filesystem),
            total_bytes,
            used_bytes,
            available_bytes,
        },
    )
}

/// The counts of a processor: at least one core and one thread. Without
/// core ids every processor counts as a core.
pub fn cpu_counts(processors: u32, distinct_core_ids: u32) -> (r: (u32, u32))
    ensures
        r.0 == (if distinct_core_ids == 0 {
            if processors == 0 {
                1
            } else {
                processors
            }
        } else {
            distinct_core_ids
        }),
        r.1 == (if processors == 0 {
            1
        } else {
            processors
        }),
{
    let cores = if distinct_core_ids == 0 {
        processors
    } else {
        distinct_core_ids
    };
    (
        if cores == 0 {
            1
        } else {
            cores
        },
        if processors == 0 {
            1
        } else {
            processors
        },
    )
}

/// The busy and the total time of the processors from the counters of
/// `/proc/stat`: user, nice and system count as busy; idle and waiting for
/// I/O besides them as total. What does not fit is cut to the largest `u64`.
pub fn cpu_times(user: u64, nice: u64, system: u64, idle: u64, iowait: u64) -> (r: (u64, u64))
    ensures
        r.0 == cut_u64(user + nice + system),
        r.1 == cut_u64(user + nice + system + idle + iowait),
{
    let busy: u128 = user as u128 + nice as u128 + system as u128;
    let total: u128 = busy + idle as u128 + iowait as u128;
    (
        if busy > u64::MAX as u128 {
            u64::MAX
        } else {
            busy as u64
        },
        if total > u64::MAX as u128 {
            u64::MAX
        } else {
            total as u64
        },
    )
}

/// A Windows file time from its two halves.
pub fn filetime_to_u64(high: u32, low: u32) -> (t: u64)
    ensures
        t == high as int * 0x1_0000_0000 + low,
{
    high as u64 * 0x1_0000_0000 + low as u64
}

/// The permissions of a file as Windows shows them: `d` or `-` for the kind,
/// then `r-` for a read-only file and `rw` for any other.
pub fn windows_permissions(is_dir: bool, readonly: bool) -> (p: String)
    ensures
        p@ == (if is_dir {
            "d"@
        } else {
            "-"@
        }) + (if readonly {
            "r-"@
        } else {
            "rw"@
        }),
{
    let mut p = String::from_str(
        if is_dir {
            "d"
        } else {
            "-"
        },
    );
    p.append(
        if readonly {
            "r-"
        } else {
            "rw"
        },
    );
    p
}

} // verus!

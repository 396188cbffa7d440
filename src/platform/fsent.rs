//! Mounted filesystems: what is known of each, and how a path's mount point
//! is found.
use vstd::prelude::*;

verus! {

/// One mounted filesystem.
#[derive(Debug)]
pub struct FilesystemEntry {
    pub filesystem_name: String,
    pub mount_point: String,
    pub mount_from: String,
    pub mount_options: String,
}

/// Block counts of one filesystem.
#[derive(Debug)]
pub struct FilesystemStats {
    pub block_size: u64,
    pub blocks_total: u64,
    pub blocks_free: u64,
    pub blocks_available: u64,
}

/// How many entries at the front of `devices` are on the same device as the
/// first.
pub open spec fn same_device_run(devices: Seq<u64>) -> nat
    decreases devices.len(),
{
    if devices.len() <= 1 {
        devices.len()
    } else if devices[1] != devices[0] {
        1
    } else {
        1 + same_device_run(devices.drop_first())
    }
}

proof fn lemma_run_bounds(devices: Seq<u64>)
    ensures
        devices.len() > 0 ==> 1 <= same_device_run(devices) <= devices.len(),
    decreases devices.len(),
{
    if devices.len() > 1 {
        lemma_run_bounds(devices.drop_first());
    }
}

/// The mount point of a path, given the path (made canonical) followed by
/// each of its ancestors up to the root, each with the device it lies on:
/// the last ancestor reached before the device changes.
pub fn get_path_mountpoint(ancestors: &Vec<(String, u64)>) -> (r: String)
    requires
        ancestors@.len() > 0,
    ensures
        same_device_run(ancestors@.map_values(|a: (String, u64)| a.1)) >= 1,
        r == ancestors@[same_device_run(ancestors@.map_values(|a: (String, u64)| a.1)) - 1].0,
{
    let ghost devs = ancestors@.map_values(|a: (String, u64)| a.1);
    let mut child: usize = 0;
    proof {
        lemma_run_bounds(devs);
        assert(devs.skip(0) =~= devs);
    }
    while child < ancestors.len() - 1 && ancestors[child + 1].1 == ancestors[child].1
        invariant
            child < ancestors@.len(),
            devs == ancestors@.map_values(|a: (String, u64)| a.1),
            same_device_run(devs) == child + same_device_run(devs.skip(child as int)),
        decreases ancestors@.len() - child,
    {
        let ghost rest = devs.skip(child as int);
        assert(rest.drop_first() =~= devs.skip(child + 1));
        assert(rest[1] == devs[child + 1]);
        assert(rest[0] == devs[child as int]);
        child = child + 1;
    }
    proof {
        let rest = devs.skip(child as int);
        assert(rest.len() == ancestors@.len() - child);
        if child + 1 < ancestors@.len() {
            assert(rest[1] == devs[child + 1]);
            assert(rest[0] == devs[child as int]);
        }
        assert(same_device_run(rest) == 1);
    }
    ancestors[child].0.clone()
}

} // verus!

//! FAT32 geometry.

use vstd::prelude::*;

verus! {

/// First cluster number that names data: clusters 0 and 1 are reserved.
pub const FIRST_DATA_CLUSTER: u32 = 2;

/// What it takes to find the sector at which a cluster begins.
#[allow(non_snake_case)]
#[derive(Debug, Clone, Copy, PartialEq, Eq, Structural)]
pub struct ClusterToLBA {
    /// Sector at which the first data cluster begins.
    pub FirstUsableCluster: u32,
    pub SectorsPerCluster: u32,
}

/// The sector at which a cluster begins:
/// `first + cluster * sectors - 2 * sectors`.
pub open spec fn lba_of(first: u32, sectors: u32, cluster: u32) -> int {
    first + cluster * sectors - FIRST_DATA_CLUSTER * sectors
}

impl ClusterToLBA {
    /// The sector at which `cluster` begins, where that is a sector number
    /// at all: not below zero and within 32 bits.
    pub fn cluster_to_lba(&self, cluster: u32) -> (lba: Option<u32>)
        ensures
            lba == if 0 <= lba_of(self.FirstUsableCluster, self.SectorsPerCluster, cluster)
                <= u32::MAX {
                Some(lba_of(self.FirstUsableCluster, self.SectorsPerCluster, cluster) as u32)
            } else {
                None
            },
    {
        assert(cluster * self.SectorsPerCluster <= 0xFFFF_FFFF * 0xFFFF_FFFF) by (nonlinear_arith)
            requires
                cluster <= 0xFFFF_FFFF,
                self.SectorsPerCluster <= 0xFFFF_FFFF,
        ;
        let upto = self.FirstUsableCluster as u64 + cluster as u64 * self.SectorsPerCluster as u64;
        let reserved = 2 * (self.SectorsPerCluster as u64);
        if upto < reserved || upto - reserved > u32::MAX as u64 {
            None
        } else {
            Some((upto - reserved) as u32)
        }
    }
}

} // verus!

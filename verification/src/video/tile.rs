use vstd::prelude::*;
use crate::video::cluster::{Cluster, valid_depth, depth_mask};
use crate::video::consts::TILE_CLUSTER_COUNT;

verus! {

/// Unique identifier for a tile. Starts at zero when chip is reset.
#[derive(Debug, Clone, Copy, Eq, PartialOrd, Ord, PartialEq, Structural, Hash, Default)]
pub struct TileID(pub u8);

/// Byte `n` (0 to 15) of the 128 bits `data0 data1`, most significant byte first.
pub open spec fn tile_byte(data0: u64, data1: u64, n: int) -> u8 {
    if n < 8 {
        (data0 >> ((56 - 8 * n) as u64)) as u8
    } else {
        (data1 >> ((120 - 8 * n) as u64)) as u8
    }
}

/// An array of clusters, each holding a row of 8 pixels.
#[derive(Debug, Clone, Copy, Hash, PartialEq, Default)]
pub struct Tile<const BITS_PER_PIXEL: usize> {
    pub clusters: [Cluster<BITS_PER_PIXEL>; TILE_CLUSTER_COUNT],
}

impl<const BITS_PER_PIXEL: usize> Tile<BITS_PER_PIXEL> {
    /// The pixel at column `x` of row `y`.
    pub open spec fn pixel(self, x: int, y: int) -> u8 {
        self.clusters@[y].pixel(x)
    }

    /// A tile with every pixel 0.
    pub fn blank() -> (r: Self)
        requires
            valid_depth(BITS_PER_PIXEL),
        ensures
            forall|x: int, y: int| 0 <= x < 8 && 0 <= y < 8 ==> #[trigger] r.pixel(x, y) == 0,
    {
        let c = Cluster::<BITS_PER_PIXEL>::blank();
        let r = Self { clusters: [c; TILE_CLUSTER_COUNT] };
        proof {
            assert forall|x: int, y: int| 0 <= x < 8 && 0 <= y < 8 implies #[trigger] r.pixel(x, y)
                == 0 by {
                assert(c.pixels()[x] == 0);
            }
        }
        r
    }

    /// The pixel at column `x` of row `y`.
    pub fn get_pixel(&self, x: u8, y: u8) -> (r: u8)
        requires
            valid_depth(BITS_PER_PIXEL),
            x < 8,
            y < 8,
        ensures
            r == self.pixel(x as int, y as int),
            r <= depth_mask(BITS_PER_PIXEL),
    {
        self.clusters[y as usize].get_subpixel(x)
    }

    /// Writes into row `y` the way this tile always has: the pixel at column `value`
    /// of row `y` takes `x` (cut to a pixel's bits). The other pixels keep their values.
    pub fn set_pixel(&mut self, x: u8, y: u8, value: u8)
        requires
            valid_depth(BITS_PER_PIXEL),
            y < 8,
            value < 8,
        ensures
            forall|row: int|
                0 <= row < 8 && row != y ==> #[trigger] final(self).clusters@[row] == old(
                    self,
                ).clusters@[row],
            final(self).clusters@[y as int].pixels() == old(self).clusters@[y as int].pixels().update(
                value as int,
                x & depth_mask(BITS_PER_PIXEL),
            ),
    {
        let mut cluster = self.clusters[y as usize];
        cluster.set_subpixel(x, value);
        self.clusters[y as usize] = cluster;
    }
}

impl Tile<2> {
    /// Creates a tile from two u64 values containing packed cluster data: each u64 holds
    /// 4 clusters of 2 bytes, most significant byte first.
    pub fn new(data0: u64, data1: u64) -> (r: Self)
        ensures
            forall|k: int|
                0 <= k < 8 ==> #[trigger] r.clusters@[k].data@ == seq![
                    tile_byte(data0, data1, 2 * k),
                    tile_byte(data0, data1, 2 * k + 1),
                ],
    {
        let r = Self {
            clusters: [
                Cluster { data: [(data0 >> 56u64) as u8, (data0 >> 48u64) as u8] },
                Cluster { data: [(data0 >> 40u64) as u8, (data0 >> 32u64) as u8] },
                Cluster { data: [(data0 >> 24u64) as u8, (data0 >> 16u64) as u8] },
                Cluster { data: [(data0 >> 8u64) as u8, (data0 >> 0u64) as u8] },
                Cluster { data: [(data1 >> 56u64) as u8, (data1 >> 48u64) as u8] },
                Cluster { data: [(data1 >> 40u64) as u8, (data1 >> 32u64) as u8] },
                Cluster { data: [(data1 >> 24u64) as u8, (data1 >> 16u64) as u8] },
                Cluster { data: [(data1 >> 8u64) as u8, (data1 >> 0u64) as u8] },
            ],
        };
        proof {
            assert forall|k: int| 0 <= k < 8 implies #[trigger] r.clusters@[k].data@ == seq![
                tile_byte(data0, data1, 2 * k),
                tile_byte(data0, data1, 2 * k + 1),
            ] by {
                assert(r.clusters@[k].data@ =~= seq![
                    tile_byte(data0, data1, 2 * k),
                    tile_byte(data0, data1, 2 * k + 1),
                ]);
            }
        }
        r
    }
}

} // verus!

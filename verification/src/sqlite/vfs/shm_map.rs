//! How the shared memory beside a database is mapped: in regions of one size,
//! as many at a time as fill a page.

use vstd::prelude::*;

verus! {

/// The file grows by blocks of this size.
pub const EXT_BLK: u64 = 4096;

/// What is mapped of the shared memory.
#[derive(Clone, Copy, Debug, PartialEq, Eq, Structural)]
pub struct ShmRegions {
    /// The size of a region; zero until the first is asked for.
    pub sz_region: usize,
    /// How many regions are mapped at a time.
    pub regions_per_map: usize,
    /// How many regions are mapped.
    pub mapped: usize,
}

/// How many regions are mapped at a time.
pub open spec fn group_size(region_size: int, page_size: int) -> int {
    if page_size >= region_size {
        page_size / region_size
    } else {
        1
    }
}

/// How many regions are mapped once the region `i` is, in groups of `group`.
pub open spec fn needed_regions(i: int, group: int) -> int {
    (i / group + 1) * group
}

/// A part of the file to map.
#[derive(Clone, Copy, Debug, PartialEq, Eq, Structural)]
pub struct MapGroup {
    pub offset: usize,
    pub len: usize,
}

/// What to do for a region that is not mapped.
#[derive(Debug)]
pub enum MapPlan {
    /// Nothing: the file is too short and is not to grow.
    TooShort,
    /// Write a byte at each of these places, then map these parts.
    Extend { writes: Vec<u64>, groups: Vec<MapGroup> },
}

/// Where the bytes go that make a file grow from one size to another: at the
/// end of each block.
pub open spec fn growth(from: int, to: int) -> Seq<u64> {
    let start = from / EXT_BLK as int;
    let end = to / EXT_BLK as int;
    Seq::new(
        if start <= end {
            (end - start) as nat
        } else {
            0
        },
        |k: int| ((start + k) * EXT_BLK + EXT_BLK - 1) as u64,
    )
}

/// The parts that are mapped, one after the other, to get from `from` regions
/// to `to`.
pub open spec fn groups_between(from: int, to: int, group: int, region_size: int) -> Seq<MapGroup>
    decreases
            if from < to {
                to - from
            } else {
                0
            },
{
    if group <= 0 || from >= to {
        Seq::empty()
    } else {
        seq![
            MapGroup {
                offset: (from * region_size) as usize,
                len: (group * region_size) as usize,
            },
        ] + groups_between(from + group, to, group, region_size)
    }
}

impl ShmRegions {
    /// Whether as many regions are mapped as some number of groups has.
    pub open spec fn whole(self) -> bool {
        &&& self.regions_per_map > 0
        &&& self.mapped as int % self.regions_per_map as int == 0
    }

    /// Nothing is mapped.
    pub fn new() -> (s: ShmRegions)
        ensures
            s == (ShmRegions { sz_region: 0, regions_per_map: 1, mapped: 0 }),
            s.whole(),
    {
        ShmRegions { sz_region: 0, regions_per_map: 1, mapped: 0 }
    }

    /// Fixes the size of the regions when the first one is asked for.
    pub fn fix_size(&mut self, region_size: usize, page_size: usize)
        requires
            region_size > 0,
            old(self).whole(),
            old(self).sz_region == 0 ==> old(self).mapped == 0,
        ensures
            final(self).whole(),
            *final(self) == if old(self).sz_region == 0 {
                ShmRegions {
                    sz_region: region_size,
                    regions_per_map: group_size(region_size as int, page_size as int) as usize,
                    mapped: 0,
                }
            } else {
                *old(self)
            },
    {
        if self.sz_region == 0 {
            self.sz_region = region_size;
            if page_size >= region_size {
                proof {
                    vstd::arithmetic::div_mod::lemma_div_non_zero(
                        page_size as int,
                        region_size as int,
                    );
                    vstd::arithmetic::div_mod::lemma_div_is_ordered_by_denominator(
                        page_size as int,
                        1,
                        region_size as int,
                    );
                }
                self.regions_per_map = page_size / region_size;
            } else {
                self.regions_per_map = 1;
            }
            proof {
                vstd::arithmetic::div_mod::lemma_small_mod(0, self.regions_per_map as nat);
            }
        }
    }

    /// Whether the region is mapped.
    pub fn is_mapped(&self, region: usize) -> (r: bool)
        ensures
            r == (region < self.mapped),
    {
        region < self.mapped
    }

    /// What to do to map the region `region` of a file of the size
    /// `file_size`.
    pub fn shm_map(
        &self,
        region: usize,
        region_size: usize,
        file_size: usize,
        extend: bool,
        readonly: bool,
    ) -> (plan: MapPlan)
        requires
            self.whole(),
            self.mapped <= region,
            region_size > 0,
            needed_regions(region as int, self.regions_per_map as int) * region_size <= usize::MAX,
        ensures
            ({
                let group = self.regions_per_map as int;
                let needed = needed_regions(region as int, group);
                let bytes = needed * region_size;
                if file_size < bytes && (!extend || readonly) {
                    plan is TooShort
                } else {
                    &&& plan is Extend
                    &&& plan->writes@ == if file_size < bytes {
                        growth(file_size as int, bytes)
                    } else {
                        Seq::empty()
                    }
                    &&& plan->groups@ == groups_between(
                        self.mapped as int,
                        needed,
                        group,
                        region_size as int,
                    )
                }
            }),
    {
        let group: usize = self.regions_per_map;
        let ghost needed_ = needed_regions(region as int, group as int);
        proof {
            lemma_needed(region as int, group as int);
            assert(needed_ * region_size >= needed_) by (nonlinear_arith)
                requires
                    region_size >= 1,
                    needed_ >= 0,
            ;
            vstd::arithmetic::div_mod::lemma_div_is_ordered_by_denominator(
                region as int,
                1,
                group as int,
            );
            let q = region as int / group as int + 1;
            assert(q * group >= q) by (nonlinear_arith)
                requires
                    group >= 1,
                    q >= 0,
            ;
        }
        let needed: usize = (region / group + 1) * group;
        let bytes: usize = needed * region_size;
        let mut writes: Vec<u64> = Vec::new();
        if file_size < bytes {
            if !extend || readonly {
                return MapPlan::TooShort;
            }
            let start: u64 = file_size as u64 / EXT_BLK;
            let end: u64 = bytes as u64 / EXT_BLK;
            let mut blk: u64 = start;
            let ghost all = growth(file_size as int, bytes as int);
            assert(start <= end) by {
                vstd::arithmetic::div_mod::lemma_div_is_ordered(
                    file_size as int,
                    bytes as int,
                    EXT_BLK as int,
                );
            }
            assert(all.len() == end - start);
            assert(writes@ =~= all.take(0));
            while blk < end
                invariant
                    start <= blk <= end,
                    start == file_size as int / EXT_BLK as int,
                    end == bytes as int / EXT_BLK as int,
                    all == growth(file_size as int, bytes as int),
                    all.len() == end - start,
                    writes@ == all.take(blk - start),
                decreases end - blk,
            {
                proof {
                    vstd::arithmetic::div_mod::lemma_fundamental_div_mod(
                        bytes as int,
                        EXT_BLK as int,
                    );
                    assert(blk * EXT_BLK + EXT_BLK <= end * EXT_BLK) by (nonlinear_arith)
                        requires
                            blk + 1 <= end,
                    ;
                    assert(end * EXT_BLK <= bytes);
                }
                writes.push(blk * EXT_BLK + (EXT_BLK - 1));
                assert(all.take(blk - start + 1) =~= all.take(blk - start).push(all[blk - start]));
                blk = blk + 1;
            }
            assert(all.take(end - start) =~= all);
        }
        let mut groups: Vec<MapGroup> = Vec::new();
        let mut at: usize = self.mapped;
        let ghost all = groups_between(self.mapped as int, needed_, group as int, region_size as int);
        proof {
            lemma_same_remainder(self.mapped as int, needed_, group as int);
        }
        assert(groups@ + groups_between(at as int, needed_, group as int, region_size as int)
            =~= all);
        while at < needed
            invariant
                group > 0,
                region_size > 0,
                needed == needed_,
                at <= needed,
                (needed - at) as int % group as int == 0,
                needed * region_size <= usize::MAX,
                groups@ + groups_between(at as int, needed_, group as int, region_size as int) == all,
            decreases needed - at,
        {
            proof {
                vstd::arithmetic::div_mod::lemma_fundamental_div_mod(
                    needed - at,
                    group as int,
                );
                let q = (needed - at) as int / group as int;
                assert(group <= needed - at) by (nonlinear_arith)
                    requires
                        needed - at == group * q,
                        needed - at > 0,
                        group > 0,
                ;
                assert(at * region_size <= needed * region_size) by (nonlinear_arith)
                    requires
                        at <= needed,
                ;
                assert(group * region_size <= needed * region_size) by (nonlinear_arith)
                    requires
                        group <= needed,
                ;
                vstd::arithmetic::div_mod::lemma_mod_sub_multiples_vanish(
                    needed - at,
                    group as int,
                );
            }
            let next = MapGroup { offset: at * region_size, len: group * region_size };
            let ghost before = groups@;
            groups.push(next);
            assert(groups@ + groups_between(
                at + group,
                needed_,
                group as int,
                region_size as int,
            ) =~= before + groups_between(at as int, needed_, group as int, region_size as int));
            at = at + group;
        }
        assert(groups@ =~= all);
        MapPlan::Extend { writes, groups }
    }

    /// One more group was mapped.
    pub fn group_mapped(&mut self)
        requires
            old(self).whole(),
            old(self).mapped + old(self).regions_per_map <= usize::MAX,
        ensures
            final(self).whole(),
            *final(self) == (ShmRegions {
                mapped: (old(self).mapped + old(self).regions_per_map) as usize,
                ..*old(self)
            }),
    {
        proof {
            vstd::arithmetic::div_mod::lemma_mod_add_multiples_vanish(
                self.mapped as int,
                self.regions_per_map as int,
            );
        }
        self.mapped = self.mapped + self.regions_per_map;
    }

    /// Where a region that is mapped stands: in which group, and how far into
    /// it.
    pub fn place(&self, region: usize, region_size: usize) -> (r: (usize, usize))
        requires
            self.whole(),
            self.regions_per_map * region_size <= usize::MAX,
        ensures
            r.0 == region as int / self.regions_per_map as int,
            r.1 == (region as int % self.regions_per_map as int) * region_size,
    {
        let group: usize = self.regions_per_map;
        let within: usize = region % group;
        proof {
            assert(within * region_size <= group * region_size) by (nonlinear_arith)
                requires
                    within <= group,
            ;
        }
        (region / group, within * region_size)
    }
}

proof fn lemma_needed(i: int, group: int)
    requires
        i >= 0,
        group > 0,
    ensures
        i < needed_regions(i, group) <= i + group,
        needed_regions(i, group) % group == 0,
{
    vstd::arithmetic::div_mod::lemma_fundamental_div_mod(i, group);
    let q = i / group;
    let r = i % group;
    vstd::arithmetic::div_mod::lemma_mod_bound(i, group);
    assert((q + 1) * group == group * q + group) by (nonlinear_arith);
    vstd::arithmetic::div_mod::lemma_mod_multiples_basic(q + 1, group);
}

proof fn lemma_same_remainder(a: int, b: int, group: int)
    requires
        group > 0,
        a % group == 0,
        b % group == 0,
    ensures
        (b - a) % group == 0,
{
    vstd::arithmetic::div_mod::lemma_sub_mod_noop(b, a, group);
    vstd::arithmetic::div_mod::lemma_small_mod(0, group as nat);
}

/// Once what the plan says is mapped, the region is, and no more than one
/// group of regions beyond it.
pub proof fn mapping_reaches_the_region(region: int, group: int)
    requires
        region >= 0,
        group > 0,
    ensures
        region < needed_regions(region, group) <= region + group,
        needed_regions(region, group) % group == 0,
{
    lemma_needed(region, group);
}

/// A region stands in its group where it stands in the file.
pub proof fn places_follow_the_file(region: int, group: int, region_size: int)
    requires
        region >= 0,
        group > 0,
        region_size > 0,
    ensures
        (region / group) * (group * region_size) + (region % group) * region_size == region
            * region_size,
{
    vstd::arithmetic::div_mod::lemma_fundamental_div_mod(region, group);
    let q = region / group;
    let r = region % group;
    assert(q * (group * region_size) + r * region_size == (group * q + r) * region_size)
        by (nonlinear_arith);
}

/// The bytes that are written make the file as long as it has to be, if that
/// is a whole number of blocks.
pub proof fn growth_suffices(from: int, to: int)
    requires
        0 <= from < to <= usize::MAX,
        to % EXT_BLK as int == 0,
    ensures
        growth(from, to).len() > 0,
        growth(from, to).last() + 1 == to,
{
    let b = EXT_BLK as int;
    vstd::arithmetic::div_mod::lemma_fundamental_div_mod(from, b);
    vstd::arithmetic::div_mod::lemma_fundamental_div_mod(to, b);
    vstd::arithmetic::div_mod::lemma_mod_bound(from, b);
    let start = from / b;
    let end = to / b;
    assert(start < end) by (nonlinear_arith)
        requires
            b * start <= from,
            from < to,
            to == b * end,
            b > 0,
    ;
    let n = end - start;
    assert((start + (n - 1)) * b + b - 1 == b * end - 1) by (nonlinear_arith)
        requires
            n == end - start,
    ;
}

/// If pages are made of whole regions, every part that is mapped starts and
/// ends at a page.
pub proof fn groups_are_pages(region_size: int, page_size: int, k: int)
    requires
        0 < region_size <= page_size,
        page_size % region_size == 0,
        k >= 0,
    ensures
        group_size(region_size, page_size) * region_size == page_size,
        ((k * group_size(region_size, page_size)) * region_size) % page_size == 0,
{
    vstd::arithmetic::div_mod::lemma_fundamental_div_mod(page_size, region_size);
    let g = page_size / region_size;
    assert(g * region_size == region_size * g) by (nonlinear_arith);
    assert((k * g) * region_size == k * (g * region_size)) by (nonlinear_arith);
    vstd::arithmetic::div_mod::lemma_mod_multiples_basic(k, page_size);
}

} // verus!

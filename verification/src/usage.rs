//! How much storage is in use.

use vstd::prelude::*;
use vstd::string::*;

use crate::number::Fraction;
use crate::text::{before, comes_before, lemma_before_total, lemma_before_transitive, same};

verus! {

/// What a volume takes.
#[derive(Clone, Copy, Debug, PartialEq, Eq, Structural)]
pub struct VolumeUsage {
    /// The size that it was given.
    pub provisioned: u64,
    /// The bytes that only this volume holds.
    pub exclusive: u64,
    /// The bytes that it holds, alone or with others; `None` where the storage
    /// cannot tell.
    pub referenced: Option<u64>,
    /// The bytes before compression; `None` where the storage cannot tell.
    pub logical: Option<u64>,
}

/// `a - b`, no less than zero.
pub open spec fn minus(a: u64, b: u64) -> u64 {
    if a < b {
        0
    } else {
        (a - b) as u64
    }
}

/// How much smaller compression made something: `None` where one side is not
/// known, or is nothing.
pub open spec fn ratio_of(logical: Option<u64>, physical: Option<u64>) -> Option<Fraction> {
    match (logical, physical) {
        (Some(l), Some(p)) => if l > 0 && p > 0 {
            Some(Fraction { num: l, den: p })
        } else {
            None
        },
        _ => None,
    }
}

/// How much smaller compression made something.
pub fn ratio(logical: Option<u64>, physical: Option<u64>) -> (r: Option<Fraction>)
    ensures
        r == ratio_of(logical, physical),
        r matches Some(f) ==> f.den > 0,
{
    match (logical, physical) {
        (Some(l), Some(p)) => {
            if l > 0 && p > 0 {
                Some(Fraction { num: l, den: p })
            } else {
                None
            }
        },
        _ => None,
    }
}

/// The bytes that a volume holds together with others.
pub open spec fn shared_of(u: VolumeUsage) -> Option<u64> {
    match u.referenced {
        Some(x) => Some(minus(x, u.exclusive)),
        None => None,
    }
}

impl VolumeUsage {
    /// The bytes that it holds together with others.
    pub fn shared(&self) -> (r: Option<u64>)
        ensures
            r == shared_of(*self),
    {
        match self.referenced {
            Some(x) => Some(x.saturating_sub(self.exclusive)),
            None => None,
        }
    }

    /// How much smaller compression made it.
    pub fn compression_ratio(&self) -> (r: Option<Fraction>)
        ensures
            r == ratio_of(self.logical, self.referenced),
            r matches Some(f) ==> f.den > 0,
    {
        ratio(self.logical, self.referenced)
    }
}

/// What the metadata of a pool takes.
#[derive(Clone, Copy, Debug, PartialEq, Eq, Structural)]
pub struct MetadataUsage {
    pub capacity: u64,
    pub used: u64,
}

/// What a pool takes.
#[derive(Clone, Copy, Debug, PartialEq, Eq, Structural)]
pub struct PoolUsage {
    pub capacity: u64,
    pub allocated: u64,
    /// The part of `allocated` that holds no data.
    pub reserved: u64,
    /// The bytes before compression; `None` for a pool without.
    pub logical: Option<u64>,
    /// The bytes that the pool may hand out, where they differ from what it
    /// has.
    pub addressable: Option<u64>,
    pub metadata: Option<MetadataUsage>,
}

/// The bytes of a pool that are left.
pub open spec fn free_of(p: PoolUsage) -> u64 {
    minus(p.capacity, p.allocated)
}

impl PoolUsage {
    /// The bytes that are left.
    pub fn free(&self) -> (r: u64)
        ensures
            r == free_of(*self),
    {
        self.capacity.saturating_sub(self.allocated)
    }

    /// The bytes that hold data.
    pub fn occupied(&self) -> (r: u64)
        ensures
            r == minus(self.allocated, self.reserved),
    {
        self.allocated.saturating_sub(self.reserved)
    }

    /// How much smaller compression made the data.
    pub fn compression_ratio(&self) -> (r: Option<Fraction>)
        ensures
            r == ratio_of(self.logical, Some(minus(self.allocated, self.reserved))),
            r matches Some(f) ==> f.den > 0,
    {
        ratio(self.logical, Some(self.occupied()))
    }

    /// The bytes that the pool may still hand out.
    pub fn addressable_free(&self) -> (r: Option<u64>)
        ensures
            r == match self.addressable {
                Some(a) => Some(
                    minus(
                        a,
                        match self.logical {
                            Some(l) => l,
                            None => 0u64,
                        },
                    ),
                ),
                None => None::<u64>,
            },
    {
        match self.addressable {
            Some(a) => {
                let handed_out: u64 = match self.logical {
                    Some(l) => l,
                    None => 0,
                };
                Some(a.saturating_sub(handed_out))
            },
            None => None,
        }
    }
}

/// One line of a [`VolumeTable`].
#[derive(Debug)]
pub struct VolumeEntry {
    pub name: String,
    pub usage: VolumeUsage,
}

/// Volumes by name, in the order of their names.
#[derive(Debug)]
pub struct VolumeTable {
    rows: Vec<VolumeEntry>,
}

/// Whether the names go up from row to row.
spec fn ascending(rows: Seq<VolumeEntry>) -> bool {
    forall|i: int, j: int|
        0 <= i < j < rows.len() ==> before((#[trigger] rows[i]).name@, (#[trigger] rows[j]).name@)
}

/// Whether a row has the given name.
spec fn has_name(rows: Seq<VolumeEntry>, name: Seq<char>) -> bool {
    exists|i: int| 0 <= i < rows.len() && (#[trigger] rows[i]).name@ == name
}

/// The number of the row with the given name.
spec fn row_of(rows: Seq<VolumeEntry>, name: Seq<char>) -> int {
    choose|i: int| 0 <= i < rows.len() && (#[trigger] rows[i]).name@ == name
}

impl VolumeTable {
    /// Whether the names go up from row to row.
    pub closed spec fn in_order(self) -> bool {
        ascending(self.rows@)
    }

    /// The rows, from the first to the last.
    pub closed spec fn entries(self) -> Seq<(Seq<char>, VolumeUsage)> {
        self.rows@.map_values(|e: VolumeEntry| (e.name@, e.usage))
    }

    /// The volumes by name.
    pub closed spec fn view(self) -> Map<Seq<char>, VolumeUsage> {
        Map::new(
            |n: Seq<char>| has_name(self.rows@, n),
            |n: Seq<char>| self.rows@[row_of(self.rows@, n)].usage,
        )
    }

    /// A table without rows.
    pub fn new() -> (r: VolumeTable)
        ensures
            r.in_order(),
            r@ == Map::<Seq<char>, VolumeUsage>::empty(),
            r.entries().len() == 0,
    {
        let r = VolumeTable { rows: Vec::new() };
        assert(r@ =~= Map::<Seq<char>, VolumeUsage>::empty());
        r
    }

    /// The number of rows.
    pub fn len(&self) -> (r: usize)
        ensures
            r == self.entries().len(),
    {
        self.rows.len()
    }

    /// Whether there are no rows.
    pub fn is_empty(&self) -> (r: bool)
        ensures
            r == (self.entries().len() == 0),
            r == (self@ == Map::<Seq<char>, VolumeUsage>::empty()),
    {
        proof {
            if self.rows@.len() > 0 {
                assert(has_name(self.rows@, self.rows@[0].name@));
                assert(self@.contains_key(self.rows@[0].name@));
            } else {
                assert(self@ =~= Map::<Seq<char>, VolumeUsage>::empty());
            }
        }
        self.rows.is_empty()
    }

    /// The row number `i`.
    pub fn row(&self, i: usize) -> (r: &VolumeEntry)
        requires
            i < self.entries().len(),
        ensures
            (r.name@, r.usage) == self.entries()[i as int],
    {
        &self.rows[i]
    }

    /// The names go up from row to row, every row is in the map, and every
    /// name of the map has a row.
    pub proof fn law_rows_are_the_map_in_order(self)
        requires
            self.in_order(),
        ensures
            forall|i: int, j: int|
                0 <= i < j < self.entries().len() ==> before(
                    (#[trigger] self.entries()[i]).0,
                    (#[trigger] self.entries()[j]).0,
                ),
            forall|i: int|
                0 <= i < self.entries().len() ==> self@.contains_key(
                    (#[trigger] self.entries()[i]).0,
                ) && self@[self.entries()[i].0] == self.entries()[i].1,
            forall|n: Seq<char>| #[trigger]
                self@.contains_key(n) ==> exists|i: int|
                    0 <= i < self.entries().len() && (#[trigger] self.entries()[i]).0 == n,
    {
        let rows = self.rows@;
        assert forall|i: int| 0 <= i < self.entries().len() implies self@.contains_key(
            (#[trigger] self.entries()[i]).0,
        ) && self@[self.entries()[i].0] == self.entries()[i].1 by {
            assert(rows[i].name@ == self.entries()[i].0);
            lemma_row(rows, i);
        }
        assert forall|n: Seq<char>| #[trigger] self@.contains_key(n) implies exists|i: int|
            0 <= i < self.entries().len() && (#[trigger] self.entries()[i]).0 == n by {
            let i = row_of(rows, n);
            assert(self.entries()[i].0 == n);
        }
    }

    /// The volume with the given name.
    pub fn get(&self, name: &str) -> (r: Option<VolumeUsage>)
        requires
            self.in_order(),
        ensures
            r == (if self@.contains_key(name@) {
                Some(self@[name@])
            } else {
                None::<VolumeUsage>
            }),
    {
        let mut i: usize = 0;
        while i < self.rows.len()
            invariant
                i <= self.rows.len(),
                ascending(self.rows@),
                forall|j: int| 0 <= j < i ==> (#[trigger] self.rows@[j]).name@ != name@,
            decreases self.rows.len() - i,
        {
            if same(self.rows[i].name.as_str(), name) {
                proof {
                    lemma_row(self.rows@, i as int);
                }
                return Some(self.rows[i].usage);
            }
            i = i + 1;
        }
        None
    }

    /// The table with one more volume, or another figure for one of its own.
    pub fn insert(self, name: String, usage: VolumeUsage) -> (r: VolumeTable)
        requires
            self.in_order(),
        ensures
            r.in_order(),
            r@ == self@.insert(name@, usage),
    {
        let ghost before_map = self@;
        let mut rows = self.rows;
        let ghost rows0 = rows@;
        let mut i: usize = 0;
        while i < rows.len() && comes_before(rows[i].name.as_str(), name.as_str())
            invariant
                i <= rows.len(),
                rows@ == rows0,
                ascending(rows0),
                forall|j: int| 0 <= j < i ==> before((#[trigger] rows0[j]).name@, name@),
            decreases rows.len() - i,
        {
            i = i + 1;
        }
        let entry = VolumeEntry { name, usage };
        if i < rows.len() && same(rows[i].name.as_str(), entry.name.as_str()) {
            proof {
                lemma_table_set(rows0, i as int, entry);
            }
            rows.set(i, entry);
            let r = VolumeTable { rows };
            assert(r@ =~= before_map.insert(name@, usage)) by {
                lemma_table_set(rows0, i as int, entry);
            }
            r
        } else {
            proof {
                if i < rows0.len() {
                    lemma_before_total(rows0[i as int].name@, name@);
                }
                lemma_table_insert(rows0, i as int, entry);
            }
            rows.insert(i, entry);
            assert(rows@ =~= rows0.insert(i as int, entry));
            let r = VolumeTable { rows };
            assert(r@ =~= before_map.insert(name@, usage)) by {
                lemma_table_insert(rows0, i as int, entry);
            }
            r
        }
    }
}

/// In a table no two rows have the same name.
proof fn lemma_row(rows: Seq<VolumeEntry>, i: int)
    requires
        ascending(rows),
        0 <= i < rows.len(),
    ensures
        has_name(rows, rows[i].name@),
        row_of(rows, rows[i].name@) == i,
{
    let j = row_of(rows, rows[i].name@);
    assert(rows[i].name@ == rows[i].name@);
    lemma_before_total(rows[i].name@, rows[j].name@);
}

proof fn lemma_table_set(rows: Seq<VolumeEntry>, i: int, e: VolumeEntry)
    requires
        ascending(rows),
        0 <= i < rows.len(),
        rows[i].name@ == e.name@,
    ensures
        ascending(rows.update(i, e)),
        forall|n: Seq<char>| #[trigger] has_name(rows.update(i, e), n) == has_name(rows, n),
        forall|n: Seq<char>|
            has_name(rows, n) ==> (#[trigger] rows.update(i, e)[row_of(rows.update(i, e), n)]).usage
                == (if n == e.name@ {
                e.usage
            } else {
                rows[row_of(rows, n)].usage
            }),
        has_name(rows, e.name@),
{
    let u = rows.update(i, e);
    assert forall|n: Seq<char>| #[trigger] has_name(u, n) == has_name(rows, n) by {
        if has_name(u, n) {
            let k = row_of(u, n);
            assert(rows[k].name@ == n);
        }
        if has_name(rows, n) {
            let k = row_of(rows, n);
            assert(u[k].name@ == n);
        }
    }
    assert forall|n: Seq<char>| has_name(rows, n) implies (#[trigger] u[row_of(u, n)]).usage == (
    if n == e.name@ {
        e.usage
    } else {
        rows[row_of(rows, n)].usage
    }) by {
        let k = row_of(rows, n);
        lemma_row(rows, k);
        assert(u[k].name@ == n);
        lemma_row(u, k);
        if n == e.name@ {
            lemma_row(rows, i);
        }
    }
    assert(rows[i].name@ == e.name@);
}

proof fn lemma_table_insert(rows: Seq<VolumeEntry>, i: int, e: VolumeEntry)
    requires
        ascending(rows),
        0 <= i <= rows.len(),
        forall|j: int| 0 <= j < i ==> before((#[trigger] rows[j]).name@, e.name@),
        i < rows.len() ==> before(e.name@, rows[i].name@),
    ensures
        ascending(rows.insert(i, e)),
        !has_name(rows, e.name@),
        forall|n: Seq<char>| #[trigger]
            has_name(rows.insert(i, e), n) == (has_name(rows, n) || n == e.name@),
        forall|n: Seq<char>|
            has_name(rows, n) || n == e.name@ ==> (#[trigger] rows.insert(i, e)[row_of(
                rows.insert(i, e),
                n,
            )]).usage == (if n == e.name@ {
                e.usage
            } else {
                rows[row_of(rows, n)].usage
            }),
{
    let u = rows.insert(i, e);
    assert forall|a: int, b: int| 0 <= a < b < u.len() implies before(
        (#[trigger] u[a]).name@,
        (#[trigger] u[b]).name@,
    ) by {
        if a < i && b > i {
            assert(u[a] == rows[a]);
            assert(u[b] == rows[b - 1]);
        } else if b < i {
            assert(u[a] == rows[a] && u[b] == rows[b]);
        } else if a > i {
            assert(u[a] == rows[a - 1] && u[b] == rows[b - 1]);
        } else if b == i {
            assert(u[a] == rows[a]);
        } else {
            assert(u[b] == rows[b - 1]);
            if b - 1 > i {
                lemma_before_transitive(e.name@, rows[i].name@, rows[b - 1].name@);
            }
        }
    }
    if has_name(rows, e.name@) {
        let k = row_of(rows, e.name@);
        if k < i {
            lemma_before_total(rows[k].name@, e.name@);
        } else {
            lemma_before_total(e.name@, rows[i].name@);
            if k > i {
                lemma_before_transitive(e.name@, rows[i].name@, rows[k].name@);
            }
            lemma_before_total(e.name@, e.name@);
        }
    }
    assert(u[i] == e);
    assert forall|n: Seq<char>| #[trigger]
        has_name(u, n) == (has_name(rows, n) || n == e.name@) by {
        if has_name(u, n) {
            let k = row_of(u, n);
            if k < i {
                assert(rows[k].name@ == n);
            } else if k > i {
                assert(rows[k - 1].name@ == n);
            }
        }
        if has_name(rows, n) {
            let k = row_of(rows, n);
            if k < i {
                assert(u[k].name@ == n);
            } else {
                assert(u[k + 1].name@ == n);
            }
        }
        if n == e.name@ {
            assert(u[i].name@ == n);
        }
    }
    assert forall|n: Seq<char>| has_name(rows, n) || n == e.name@ implies (#[trigger] u[row_of(
        u,
        n,
    )]).usage == (if n == e.name@ {
        e.usage
    } else {
        rows[row_of(rows, n)].usage
    }) by {
        if n == e.name@ {
            lemma_row(u, i);
        } else {
            let k = row_of(rows, n);
            if k < i {
                assert(u[k] == rows[k]);
                lemma_row(u, k);
            } else {
                assert(u[k + 1] == rows[k]);
                lemma_row(u, k + 1);
            }
        }
    }
}

/// What is in use.
#[derive(Debug)]
pub struct StorageUsage {
    pub pool: PoolUsage,
    pub vms: VolumeTable,
    pub images: VolumeTable,
}

/// Whether no volume of the table knows its size before compression.
pub open spec fn none_logical(t: VolumeTable) -> bool {
    forall|i: int| 0 <= i < t.entries().len() ==> (#[trigger] t.entries()[i]).1.logical is None
}

fn all_opaque(t: &VolumeTable) -> (r: bool)
    ensures
        r == none_logical(*t),
{
    let mut i: usize = 0;
    while i < t.len()
        invariant
            i <= t.entries().len(),
            forall|j: int| 0 <= j < i ==> (#[trigger] t.entries()[j]).1.logical is None,
        decreases t.entries().len() - i,
    {
        let row = t.row(i);
        if row.usage.logical.is_some() {
            assert(t.entries()[i as int].1.logical is Some);
            return false;
        }
        i = i + 1;
    }
    true
}

impl StorageUsage {
    /// Whether the pool compresses below the volumes, so that their figures
    /// are those before compression: it compresses, there are volumes, and none
    /// of them knows its own size before compression.
    pub fn volumes_above_compression(&self) -> (r: bool)
        ensures
            r == {
                &&& self.pool.logical is Some
                &&& self.vms.entries().len() + self.images.entries().len() > 0
                &&& none_logical(self.vms)
                &&& none_logical(self.images)
            },
    {
        if self.pool.logical.is_none() {
            return false;
        }
        !(self.vms.is_empty() && self.images.is_empty()) && all_opaque(&self.vms) && all_opaque(
            &self.images,
        )
    }
}

/// What is in use and what is left make up the whole; what a volume holds alone and what
/// it holds with others make up what it holds. Where more is in use than there is, nothing
/// is left.
pub proof fn law_parts_make_up_the_whole(p: PoolUsage, u: VolumeUsage)
    ensures
        p.allocated <= p.capacity ==> free_of(p) + p.allocated == p.capacity,
        p.allocated > p.capacity ==> free_of(p) == 0,
        u.referenced matches Some(x) ==> shared_of(u) is Some && if u.exclusive <= x {
            shared_of(u)->0 + u.exclusive == x
        } else {
            shared_of(u)->0 == 0
        },
        u.referenced is None ==> shared_of(u) is None,
{
}

} // verus!

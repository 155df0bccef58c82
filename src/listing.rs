use vstd::prelude::*;

verus! {

/// One entry of the save directory: its file name and when it was last modified,
/// in nanoseconds since the Unix epoch.
pub struct SaveEntry {
    pub file_name: String,
    pub modified: u128,
}

/// A file name whose extension is `hp`: it ends in `.hp` and has something
/// before that dot, so that `.hp` alone is a hidden file with no extension.
pub open spec fn is_save_name(name: Seq<char>) -> bool {
    &&& name.len() > 3
    &&& name[name.len() - 3] == '.'
    &&& name[name.len() - 2] == 'h'
    &&& name[name.len() - 1] == 'p'
}

/// Entry `a` comes before entry `b` in the listing: it is newer, or as new and
/// listed earlier by the directory.
pub open spec fn comes_before(entries: Seq<SaveEntry>, a: int, b: int) -> bool {
    entries[a].modified > entries[b].modified
        || (entries[a].modified == entries[b].modified && a < b)
}

/// Index `i` stands somewhere in `order`.
pub open spec fn listed(order: Seq<usize>, i: int) -> bool {
    exists|k: int| 0 <= k < order.len() && order[k] as int == i
}

/// `order` lists, by index into `entries`, each save file exactly once, newest
/// first, entries modified at the same time in directory order.
pub open spec fn is_newest_first(entries: Seq<SaveEntry>, order: Seq<usize>) -> bool {
    &&& order.no_duplicates()
    &&& forall|k: int|
        0 <= k < order.len() ==> order[k] < entries.len() && is_save_name(
            #[trigger] entries[order[k] as int].file_name@,
        )
    &&& forall|i: int|
        0 <= i < entries.len() && is_save_name(#[trigger] entries[i].file_name@) ==> listed(order, i)
    &&& forall|a: int, b: int|
        0 <= a < b < order.len() ==> comes_before(entries, #[trigger] order[a] as int, #[trigger] order[b] as int)
}

/// Tells whether a file name has the save extension `hp`.
pub fn is_save_file_name(name: &str) -> (r: bool)
    ensures
        r == is_save_name(name@),
{
    let n = name.unicode_len();
    if n <= 3 {
        return false;
    }
    name.get_char(n - 3) == '.' && name.get_char(n - 2) == 'h' && name.get_char(n - 1) == 'p'
}

/// The save files among `entries`, by index, newest first; entries modified at
/// the same time keep their directory order.
pub fn save_order(entries: &Vec<SaveEntry>) -> (order: Vec<usize>)
    ensures
        is_newest_first(entries@, order@),
{
    let mut order: Vec<usize> = Vec::new();
    let mut i: usize = 0;
    while i < entries.len()
        invariant
            i <= entries@.len(),
            order@.no_duplicates(),
            forall|k: int| 0 <= k < order@.len() ==> order@[k] < i,
            forall|k: int|
                0 <= k < order@.len() ==> is_save_name(
                    #[trigger] entries@[order@[k] as int].file_name@,
                ),
            forall|j: int|
                0 <= j < i && is_save_name(#[trigger] entries@[j].file_name@) ==> listed(order@, j),
            forall|a: int, b: int|
                0 <= a < b < order@.len() ==> comes_before(
                    entries@,
                    #[trigger] order@[a] as int,
                    #[trigger] order@[b] as int,
                ),
        decreases entries@.len() - i,
    {
        if is_save_file_name(entries[i].file_name.as_str()) {
            let stamp = entries[i].modified;
            let mut k: usize = 0;
            while k < order.len() && entries[order[k]].modified >= stamp
                invariant
                    i < entries@.len(),
                    stamp == entries@[i as int].modified,
                    k <= order@.len(),
                    forall|x: int| 0 <= x < order@.len() ==> order@[x] < i,
                    forall|a: int| 0 <= a < k ==> entries@[order@[a] as int].modified >= stamp,
                decreases order@.len() - k,
            {
                k = k + 1;
            }
            let ghost before = order@;
            proof {
                assert forall|b: int| k <= b < before.len() implies entries@[before[b] as int].modified
                    < stamp by {
                    if b > k {
                        assert(comes_before(entries@, before[k as int] as int, before[b] as int));
                    }
                }
            }
            order.insert(k, i);
            proof {
                assert forall|a: int, b: int| 0 <= a < b < order@.len() implies comes_before(
                    entries@,
                    #[trigger] order@[a] as int,
                    #[trigger] order@[b] as int,
                ) by {
                    if b < k {
                        assert(order@[a] == before[a] && order@[b] == before[b]);
                    } else if b == k {
                        assert(order@[a] == before[a]);
                    } else if a == k {
                        assert(order@[b] == before[b - 1]);
                    } else if a < k {
                        assert(order@[a] == before[a] && order@[b] == before[b - 1]);
                    } else {
                        assert(order@[a] == before[a - 1] && order@[b] == before[b - 1]);
                    }
                }
                assert forall|j: int|
                    0 <= j <= i && is_save_name(#[trigger] entries@[j].file_name@) implies listed(
                    order@,
                    j,
                ) by {
                    if j < i {
                        let x = choose|x: int| 0 <= x < before.len() && before[x] as int == j;
                        if x < k {
                            assert(order@[x] as int == j);
                        } else {
                            assert(order@[x + 1] as int == j);
                        }
                    } else {
                        assert(order@[k as int] as int == i);
                    }
                }
                assert forall|a: int, b: int| 0 <= a < b < order@.len() implies order@[a] != order@[b] by {
                    if b == k || a == k {
                    } else if b < k {
                        assert(order@[a] == before[a] && order@[b] == before[b]);
                    } else if a < k {
                        assert(order@[a] == before[a] && order@[b] == before[b - 1]);
                    } else {
                        assert(order@[a] == before[a - 1] && order@[b] == before[b - 1]);
                    }
                }
            }
        }
        i = i + 1;
    }
    order
}

} // verus!

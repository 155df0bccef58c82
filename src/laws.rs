use vstd::prelude::*;
use crate::listing::{comes_before, is_newest_first, is_save_name, listed, SaveEntry};
use crate::save::{is_selection, HellpointSave, SaveError};

verus! {

/// With the saves read in the order `save_order` gives, selecting with no name
/// picks the save of the most recently modified save file: no save file of the
/// directory is newer, and one as new was listed later.
pub proof fn lemma_default_pick_is_newest(
    entries: Seq<SaveEntry>,
    order: Seq<usize>,
    saves: Seq<HellpointSave>,
    k: usize,
)
    requires
        is_newest_first(entries, order),
        saves.len() == order.len(),
        is_selection(saves, None, Ok(k)),
    ensures
        k == 0,
        forall|j: int|
            0 <= j < entries.len() && is_save_name(#[trigger] entries[j].file_name@) ==> {
                let newest = order[0] as int;
                ||| entries[newest].modified > entries[j].modified
                ||| entries[newest].modified == entries[j].modified && newest <= j
            },
{
    assert forall|j: int|
        0 <= j < entries.len() && is_save_name(#[trigger] entries[j].file_name@) implies {
            let newest = order[0] as int;
            ||| entries[newest].modified > entries[j].modified
            ||| entries[newest].modified == entries[j].modified && newest <= j
        } by {
        assert(listed(order, j));
        let b = choose|b: int| 0 <= b < order.len() && order[b] as int == j;
        if b > 0 {
            assert(comes_before(entries, order[0] as int, order[b] as int));
        }
    }
}

/// Selecting by a name that some save has picks the first save, newest first,
/// of that name.
pub proof fn lemma_named_pick_is_first_match(
    saves: Seq<HellpointSave>,
    name: Seq<char>,
    r: Result<usize, SaveError>,
)
    requires
        exists|i: int| 0 <= i < saves.len() && (#[trigger] saves[i]).name@ == name,
        is_selection(saves, Some(name), r),
    ensures
        r is Ok,
        saves[r->Ok_0 as int].name@ == name,
        forall|j: int| 0 <= j < r->Ok_0 ==> (#[trigger] saves[j]).name@ != name,
{
}

/// Selecting by a name that no save has fails with `NotFound`.
pub proof fn lemma_absent_name_not_found(
    saves: Seq<HellpointSave>,
    name: Seq<char>,
    r: Result<usize, SaveError>,
)
    requires
        forall|i: int| 0 <= i < saves.len() ==> (#[trigger] saves[i]).name@ != name,
        is_selection(saves, Some(name), r),
    ensures
        r == Err::<usize, SaveError>(SaveError::NotFound),
{
    if let Ok(k) = r {
        assert(saves[k as int].name@ == name);
    }
}

/// A directory with no save file lists no save, and selecting from it, with or
/// without a name, fails with `NotFound`.
pub proof fn lemma_no_save_file_not_found(
    entries: Seq<SaveEntry>,
    order: Seq<usize>,
    saves: Seq<HellpointSave>,
    name: Option<Seq<char>>,
    r: Result<usize, SaveError>,
)
    requires
        forall|i: int| 0 <= i < entries.len() ==> !is_save_name(#[trigger] entries[i].file_name@),
        is_newest_first(entries, order),
        saves.len() == order.len(),
        is_selection(saves, name, r),
    ensures
        order.len() == 0,
        r == Err::<usize, SaveError>(SaveError::NotFound),
{
    if order.len() > 0 {
        assert(is_save_name(entries[order[0] as int].file_name@));
    }
}

} // verus!

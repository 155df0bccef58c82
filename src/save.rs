use vstd::prelude::*;
use crate::level::{get_player_level, level_of};
use crate::text::{clock_text, opt_chars, format_time, signed_decimal, to_signed_decimal};

verus! {

/// The player part of a save: raw attribute points, in the game's order.
pub struct Player {
    pub stats: Vec<i64>,
}

/// One save file: the character's name, the play time in seconds, and the player.
pub struct HellpointSave {
    pub name: String,
    pub total_time: usize,
    pub player: Player,
}

/// Why a run finds nothing to report.
#[derive(Debug, Clone, Copy, PartialEq, Eq, Structural)]
pub enum SaveError {
    /// No save directory, or no save that fits the selection.
    NotFound,
    /// The save directory or a save file could not be read.
    Io,
    /// A save file does not hold a save.
    Decode,
    /// The home directory is unknown.
    Configuration,
}

/// `r` is what selecting from `saves` (newest first) gives: with no name the
/// first save, with a name the first save of that name; `NotFound` when there
/// is none.
pub open spec fn is_selection(
    saves: Seq<HellpointSave>,
    name: Option<Seq<char>>,
    r: Result<usize, SaveError>,
) -> bool {
    match name {
        None => if saves.len() == 0 {
            r == Err::<usize, SaveError>(SaveError::NotFound)
        } else {
            r == Ok::<usize, SaveError>(0)
        },
        Some(n) => match r {
            Ok(k) => {
                &&& k < saves.len()
                &&& saves[k as int].name@ == n
                &&& forall|j: int| 0 <= j < k ==> (#[trigger] saves[j]).name@ != n
            },
            Err(e) => {
                &&& e == SaveError::NotFound
                &&& forall|j: int| 0 <= j < saves.len() ==> (#[trigger] saves[j]).name@ != n
            },
        },
    }
}

/// The report line of a save: `<name> (Level <level>) <HH>:<MM>:<SS>`.
pub open spec fn report_text(save: HellpointSave) -> Seq<char> {
    save.name@ + " (Level "@ + signed_decimal(level_of(save.player.stats@)) + ") "@ + clock_text(
        save.total_time as nat,
    )
}

/// Picks a save from `saves`, which are ordered newest first: the first one
/// when no name is given, else the first one whose name is exactly `name`.
pub fn select_save(saves: &Vec<HellpointSave>, name: Option<&String>) -> (r: Result<usize, SaveError>)
    ensures
        is_selection(saves@, opt_chars(name), r),
{
    match name {
        None => {
            if saves.len() == 0 {
                Err(SaveError::NotFound)
            } else {
                Ok(0)
            }
        },
        Some(n) => {
            let mut i: usize = 0;
            while i < saves.len()
                invariant
                    i <= saves@.len(),
                    name == Some(n),
                    forall|j: int| 0 <= j < i ==> (#[trigger] saves@[j]).name@ != n@,
                decreases saves@.len() - i,
            {
                if saves[i].name.eq(n) {
                    return Ok(i);
                }
                i = i + 1;
            }
            Err(SaveError::NotFound)
        },
    }
}

/// Writes the report line of a save.
pub fn report_line(save: &HellpointSave) -> (r: String)
    ensures
        r@ == report_text(*save),
{
    let mut s = save.name.clone();
    s.append(" (Level ");
    let level = to_signed_decimal(get_player_level(&save.player));
    s.append(level.as_str());
    s.append(") ");
    let time = format_time(save.total_time);
    s.append(time.as_str());
    s
}

/// Selects a save as `select_save` does and writes its report line.
pub fn describe_save(saves: &Vec<HellpointSave>, name: Option<&String>) -> (r: Result<String, SaveError>)
    ensures
        forall|k: usize|
            is_selection(saves@, opt_chars(name), Ok(k)) ==> (r matches Ok(s) && s@ == report_text(
                saves@[k as int],
            )),
        is_selection(saves@, opt_chars(name), Err(SaveError::NotFound)) ==> r == Err::<String, SaveError>(
            SaveError::NotFound,
        ),
{
    match select_save(saves, name) {
        Ok(k) => Ok(report_line(&saves[k])),
        Err(e) => Err(e),
    }
}

} // verus!

//! What is shown when the active workspace runs empty.

use vstd::prelude::*;

verus! {

/// Whether another workspace is shown by default when the active one runs empty.
pub const SWITCH_TO_NON_EMPTY_WORKSPACE_ON_EMPTY: bool = true;

/// The first workspace at or after `from` that has windows.
pub open spec fn first_non_empty(windows: Seq<usize>, from: int) -> Option<int>
    decreases windows.len() - from,
{
    if from < 0 || from >= windows.len() {
        None
    } else if windows[from] > 0 {
        Some(from)
    } else {
        first_non_empty(windows, from + 1)
    }
}

/// The workspace to show in place of `active`, if any. `windows` holds the number of windows
/// of every workspace. An active workspace that has windows stays; an empty one gives way to
/// the first workspace that has any, unless that is switched off.
pub fn workspace_on_empty(
    windows: &Vec<usize>,
    active: usize,
    switch_to_non_empty_workspace_on_empty: bool,
) -> (r: Option<usize>)
    requires
        active < windows@.len(),
    ensures
        match r {
            Some(shown) => {
                &&& switch_to_non_empty_workspace_on_empty
                &&& windows@[active as int] == 0
                &&& first_non_empty(windows@, 0) == Some(shown as int)
            },
            None => {
                ||| !switch_to_non_empty_workspace_on_empty
                ||| windows@[active as int] > 0
                ||| first_non_empty(windows@, 0) is None
            },
        },
{
    if windows[active] > 0 || !switch_to_non_empty_workspace_on_empty {
        return None;
    }
    let mut i: usize = 0;
    while i < windows.len()
        invariant
            i <= windows.len(),
            switch_to_non_empty_workspace_on_empty,
            active < windows@.len(),
            windows@[active as int] == 0,
            first_non_empty(windows@, 0) == first_non_empty(windows@, i as int),
        decreases windows.len() - i,
    {
        if windows[i] > 0 {
            return Some(i);
        }
        i = i + 1;
    }
    None
}

/// The workspace that is shown has windows and none before it has; there is none only where
/// all are empty.
pub proof fn law_first_non_empty_workspace_is_found(windows: Seq<usize>, from: int)
    requires
        0 <= from,
    ensures
        match first_non_empty(windows, from) {
            Some(i) => {
                &&& from <= i < windows.len()
                &&& windows[i] > 0
                &&& forall|j: int| from <= j < i ==> #[trigger] windows[j] == 0
            },
            None => forall|j: int| from <= j < windows.len() ==> #[trigger] windows[j] == 0,
        },
    decreases windows.len() - from,
{
    if from < windows.len() && windows[from] == 0 {
        law_first_non_empty_workspace_is_found(windows, from + 1);
    }
}

/// Another workspace is shown exactly where that is switched on, the active one is empty and
/// some other has windows. The one that is shown has windows, and none before it has.
pub proof fn law_only_an_empty_workspace_gives_way(
    windows: Vec<usize>,
    active: usize,
    switch_on: bool,
    shown: Option<usize>,
)
    requires
        active < windows@.len(),
        call_ensures(workspace_on_empty, (&windows, active, switch_on), shown),
    ensures
        shown is Some <==> switch_on && windows@[active as int] == 0 && exists|i: int|
            0 <= i < windows@.len() && #[trigger] windows@[i] > 0,
        shown matches Some(i) ==> i != active && i < windows@.len() && windows@[i as int] > 0
            && forall|j: int| 0 <= j < i ==> #[trigger] windows@[j] == 0,
{
    law_first_non_empty_workspace_is_found(windows@, 0);
}

} // verus!

//! The panes of a tab, as the tree of splits in which they are laid out.

use vstd::prelude::*;

verus! {

pub type PaneId = usize;

pub type WindowId = usize;

/// A pane and the window that holds it.
#[derive(Debug, Clone, Copy, PartialEq, Eq, Structural)]
pub struct PaneEntry {
    pub pane_id: PaneId,
    pub window_id: WindowId,
}

/// The panes of a tab.
pub enum PaneTree {
    Empty,
    Leaf(PaneEntry),
    Split(Box<PaneTree>, Box<PaneTree>),
}

impl PaneTree {
    /// The panes of the tree in preorder.
    pub open spec fn panes(self) -> Seq<PaneEntry>
        decreases self,
    {
        match self {
            PaneTree::Empty => Seq::empty(),
            PaneTree::Leaf(entry) => seq![entry],
            PaneTree::Split(left, right) => left.panes() + right.panes(),
        }
    }

    /// The window of the first pane with this id.
    pub fn find_window(&self, pane_id: PaneId) -> (r: Option<WindowId>)
        ensures
            r == window_of(self.panes(), pane_id),
        decreases self,
    {
        match self {
            PaneTree::Empty => {
                assert(self.panes().len() == 0);
                None
            },
            PaneTree::Leaf(entry) => if entry.pane_id == pane_id {
                Some(entry.window_id)
            } else {
                assert(self.panes().drop_first().len() == 0);
                assert(window_of(self.panes().drop_first(), pane_id) is None);
                None
            },
            PaneTree::Split(left, right) => {
                proof {
                    lemma_window_of_concat(left.panes(), right.panes(), pane_id);
                }
                match left.find_window(pane_id) {
                    Some(window_id) => Some(window_id),
                    None => right.find_window(pane_id),
                }
            },
        }
    }
}

/// The window of the first pane with this id.
pub open spec fn window_of(panes: Seq<PaneEntry>, pane_id: PaneId) -> Option<WindowId>
    decreases panes.len(),
{
    if panes.len() == 0 {
        None
    } else if panes[0].pane_id == pane_id {
        Some(panes[0].window_id)
    } else {
        window_of(panes.drop_first(), pane_id)
    }
}

/// The panes of all tabs, tab by tab.
pub open spec fn all_panes(tabs: Seq<PaneTree>) -> Seq<PaneEntry>
    decreases tabs.len(),
{
    if tabs.len() == 0 {
        Seq::empty()
    } else {
        all_panes(tabs.drop_last()) + tabs.last().panes()
    }
}

proof fn lemma_window_of_concat(a: Seq<PaneEntry>, b: Seq<PaneEntry>, pane_id: PaneId)
    ensures
        window_of(a + b, pane_id) == (match window_of(a, pane_id) {
            Some(window_id) => Some(window_id),
            None => window_of(b, pane_id),
        }),
    decreases a.len(),
{
    if a.len() == 0 {
        assert(a + b =~= b);
    } else {
        assert((a + b).drop_first() =~= a.drop_first() + b);
        lemma_window_of_concat(a.drop_first(), b, pane_id);
    }
}

/// The window of the first pane with this id, over all tabs.
pub fn find_window(tabs: &Vec<PaneTree>, pane_id: PaneId) -> (r: Option<WindowId>)
    ensures
        r == window_of(all_panes(tabs@), pane_id),
{
    let mut found: Option<WindowId> = None;
    let mut i: usize = 0;
    while i < tabs.len()
        invariant
            i <= tabs.len(),
            found == window_of(all_panes(tabs@.take(i as int)), pane_id),
        decreases tabs.len() - i,
    {
        proof {
            let next = tabs@.take(i + 1);
            assert(next.drop_last() =~= tabs@.take(i as int));
            lemma_window_of_concat(
                all_panes(tabs@.take(i as int)),
                tabs@[i as int].panes(),
                pane_id,
            );
        }
        if found.is_none() {
            found = tabs[i].find_window(pane_id);
        }
        i = i + 1;
    }
    assert(tabs@.take(i as int) =~= tabs@);
    found
}

/// The window that is found holds a pane with this id, and one is found whenever there is
/// such a pane.
pub proof fn law_window_is_found_iff_the_pane_is_there(panes: Seq<PaneEntry>, pane_id: PaneId)
    ensures
        window_of(panes, pane_id) is Some <==> exists|i: int|
            0 <= i < panes.len() && (#[trigger] panes[i]).pane_id == pane_id,
        window_of(panes, pane_id) matches Some(window_id) ==> panes.contains(
            PaneEntry { pane_id, window_id },
        ),
    decreases panes.len(),
{
    if panes.len() > 0 {
        let rest = panes.drop_first();
        law_window_is_found_iff_the_pane_is_there(rest, pane_id);
        assert forall|i: int| 0 <= i < rest.len() implies #[trigger] rest[i] == panes[i + 1] by {}
        if panes[0].pane_id != pane_id {
            if window_of(panes, pane_id) is Some {
                let entry = PaneEntry { pane_id, window_id: window_of(panes, pane_id)->0 };
                let i = choose|i: int| 0 <= i < rest.len() && rest[i] == entry;
                assert(panes[i + 1] == entry);
            }
            if exists|i: int| 0 <= i < panes.len() && (#[trigger] panes[i]).pane_id == pane_id {
                let i = choose|i: int|
                    0 <= i < panes.len() && (#[trigger] panes[i]).pane_id == pane_id;
                assert(rest[i - 1].pane_id == pane_id);
            }
        }
    }
}

/// Looking for a pane goes by the shape of the tree: an empty tree has none, a leaf has its
/// own pane, and a split is looked through on its left and, only if it is not there, on its
/// right. Tabs are looked through one after the other in the same way.
pub proof fn law_panes_are_looked_for_from_left_to_right(
    left: PaneTree,
    right: PaneTree,
    entry: PaneEntry,
    tabs: Seq<PaneTree>,
    pane_id: PaneId,
)
    ensures
        window_of(PaneTree::Empty.panes(), pane_id) is None,
        entry.pane_id == pane_id ==> window_of(PaneTree::Leaf(entry).panes(), pane_id) == Some(
            entry.window_id,
        ),
        entry.pane_id != pane_id ==> window_of(PaneTree::Leaf(entry).panes(), pane_id) is None,
        window_of(left.panes(), pane_id) is Some ==> window_of(
            PaneTree::Split(Box::new(left), Box::new(right)).panes(),
            pane_id,
        ) == window_of(left.panes(), pane_id),
        window_of(left.panes(), pane_id) is None ==> window_of(
            PaneTree::Split(Box::new(left), Box::new(right)).panes(),
            pane_id,
        ) == window_of(right.panes(), pane_id),
        window_of(all_panes(Seq::empty()), pane_id) is None,
        window_of(all_panes(tabs), pane_id) is Some ==> window_of(
            all_panes(tabs.push(left)),
            pane_id,
        ) == window_of(all_panes(tabs), pane_id),
        window_of(all_panes(tabs), pane_id) is None ==> window_of(
            all_panes(tabs.push(left)),
            pane_id,
        ) == window_of(left.panes(), pane_id),
{
    let leaf = PaneTree::Leaf(entry).panes();
    assert(leaf =~= seq![entry]);
    assert(leaf.drop_first().len() == 0);
    assert(window_of(leaf.drop_first(), pane_id) is None);
    lemma_window_of_concat(left.panes(), right.panes(), pane_id);
    assert(tabs.push(left).drop_last() =~= tabs);
    lemma_window_of_concat(all_panes(tabs), left.panes(), pane_id);
}

} // verus!

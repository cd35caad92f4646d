use crate::resolve::{
    lemma_path_ok_drop_last, lemma_siblings_push, siblings_at, tree_path_ok, tree_siblings,
};
use crate::tree::CommandTree;
use vstd::prelude::*;

verus! {

/// The four navigation keys and the request to leave the session.
#[derive(Clone, Copy, Debug, PartialEq, Eq, Structural)]
pub enum NavEvent {
    Up,
    Down,
    Select,
    Back,
    Exit,
}

/// The mathematical value of a session state: the chain of selections made
/// from the root, the highlighted position, the size of the displayed
/// sibling list, and the action chosen for execution, if any.
#[verifier::ext_equal]
pub struct NavModel {
    pub path: Seq<usize>,
    pub selected_index: int,
    pub sibling_count: int,
    pub pending: Option<Seq<char>>,
}

/// The per-session navigation state. `path` holds, level by level, the
/// position that was selected in the sibling list of that level, so the
/// current menu is always re-derivable from the immutable tree.
pub struct NavigationState {
    pub path: Vec<usize>,
    pub selected_index: usize,
    pub sibling_count: usize,
    pub pending_execution: Option<String>,
}

impl View for NavigationState {
    type V = NavModel;

    open spec fn view(&self) -> NavModel {
        NavModel {
            path: self.path@,
            selected_index: self.selected_index as int,
            sibling_count: self.sibling_count as int,
            pending: match self.pending_execution {
                Some(s) => Some(s@),
                None => None,
            },
        }
    }
}

/// The session invariant: the path is a valid chain of selections, the
/// cached sibling count never drifts from re-resolving the path against
/// the tree, and the highlighted position is in bounds — zero whenever the
/// displayed list is empty.
pub open spec fn nav_inv(tree: CommandTree, m: NavModel) -> bool {
    &&& tree_path_ok(tree, m.path)
    &&& m.sibling_count == tree_siblings(tree, m.path).len()
    &&& m.sibling_count == 0 ==> m.selected_index == 0
    &&& m.sibling_count > 0 ==> 0 <= m.selected_index < m.sibling_count
}

/// Move the highlight one entry up, stopping at the top; a no-op on an
/// empty list or once an action is pending.
pub open spec fn up_spec(m: NavModel) -> NavModel {
    if m.pending is Some || m.sibling_count == 0 {
        m
    } else {
        NavModel {
            selected_index: if m.selected_index > 0 {
                m.selected_index - 1
            } else {
                0
            },
            ..m
        }
    }
}

/// Move the highlight one entry down, stopping at the last entry; a no-op
/// on an empty list or once an action is pending.
pub open spec fn down_spec(m: NavModel) -> NavModel {
    if m.pending is Some || m.sibling_count == 0 {
        m
    } else {
        NavModel {
            selected_index: if m.selected_index + 1 < m.sibling_count {
                m.selected_index + 1
            } else {
                m.sibling_count - 1
            },
            ..m
        }
    }
}

/// Select the highlighted node. A node with children always descends —
/// even when it also carries an action — so an ambiguous configuration
/// never fires a command by surprise; a childless node with an action
/// records it as pending; a dead end, an empty list, or an out-of-range
/// highlight is a no-op.
pub open spec fn select_spec(tree: CommandTree, m: NavModel) -> NavModel {
    let sib = tree_siblings(tree, m.path);
    if m.pending is Some || !(0 <= m.selected_index < sib.len()) {
        m
    } else {
        let node = sib[m.selected_index];
        if node.children@.len() > 0 {
            NavModel {
                path: m.path.push(m.selected_index as usize),
                selected_index: 0,
                sibling_count: node.children@.len() as int,
                pending: m.pending,
            }
        } else {
            match node.action {
                Some(act) => NavModel { pending: Some(act@), ..m },
                None => m,
            }
        }
    }
}

/// Go up one menu level: drop the last selection, re-resolve the sibling
/// list for the shorter path, and reset the highlight to the top. A no-op
/// at the root or once an action is pending.
pub open spec fn back_spec(tree: CommandTree, m: NavModel) -> NavModel {
    if m.pending is Some || m.path.len() == 0 {
        m
    } else {
        let p = m.path.drop_last();
        NavModel {
            path: p,
            selected_index: 0,
            sibling_count: tree_siblings(tree, p).len() as int,
            pending: m.pending,
        }
    }
}

/// The state a fresh session starts in: at the root, top entry
/// highlighted, nothing pending.
pub open spec fn initial_model(tree: CommandTree) -> NavModel {
    NavModel {
        path: Seq::empty(),
        selected_index: 0,
        sibling_count: tree.commands@.len() as int,
        pending: None,
    }
}

/// The transition a single input event makes; `Exit` leaves the state as
/// it is and only ends the session.
pub open spec fn step_spec(tree: CommandTree, m: NavModel, ev: NavEvent) -> NavModel {
    match ev {
        NavEvent::Up => up_spec(m),
        NavEvent::Down => down_spec(m),
        NavEvent::Select => select_spec(tree, m),
        NavEvent::Back => back_spec(tree, m),
        NavEvent::Exit => m,
    }
}

impl NavigationState {
    /// A fresh session: at the root, top entry highlighted, nothing pending.
    pub fn new(tree: &CommandTree) -> (s: NavigationState)
        ensures
            s@ == initial_model(*tree),
            nav_inv(*tree, s@),
    {
        let s = NavigationState {
            path: Vec::new(),
            selected_index: 0,
            sibling_count: tree.commands.len(),
            pending_execution: None,
        };
        proof {
            assert(tree_siblings(*tree, s@.path) == tree.commands@);
        }
        s
    }

    /// Is the session over? It is once an action has been chosen.
    pub fn is_done(&self) -> (r: bool)
        ensures
            r == (self@.pending is Some),
    {
        self.pending_execution.is_some()
    }

    pub fn move_up(&mut self, tree: &CommandTree)
        requires
            nav_inv(*tree, old(self)@),
        ensures
            final(self)@ == up_spec(old(self)@),
            nav_inv(*tree, final(self)@),
    {
        if self.pending_execution.is_none() && self.sibling_count > 0 && self.selected_index > 0 {
            self.selected_index = self.selected_index - 1;
        }
    }

    pub fn move_down(&mut self, tree: &CommandTree)
        requires
            nav_inv(*tree, old(self)@),
        ensures
            final(self)@ == down_spec(old(self)@),
            nav_inv(*tree, final(self)@),
    {
        if self.pending_execution.is_none() && self.sibling_count > 0 {
            if self.selected_index + 1 < self.sibling_count {
                self.selected_index = self.selected_index + 1;
            } else {
                self.selected_index = self.sibling_count - 1;
            }
        }
    }

    pub fn select(&mut self, tree: &CommandTree)
        requires
            nav_inv(*tree, old(self)@),
        ensures
            final(self)@ == select_spec(*tree, old(self)@),
            nav_inv(*tree, final(self)@),
    {
        if self.pending_execution.is_some() {
            return;
        }
        let sib = siblings_at(tree, &self.path);
        if self.selected_index < sib.len() {
            let children_len = sib[self.selected_index].children.len();
            if children_len > 0 {
                let i = self.selected_index;
                proof {
                    lemma_siblings_push(tree.commands@, self.path@, i);
                }
                self.path.push(i);
                self.selected_index = 0;
                self.sibling_count = children_len;
            } else {
                match &sib[self.selected_index].action {
                    Some(a) => {
                        self.pending_execution = Some(a.clone());
                    },
                    None => {},
                }
            }
        }
    }

    pub fn back(&mut self, tree: &CommandTree)
        requires
            nav_inv(*tree, old(self)@),
        ensures
            final(self)@ == back_spec(*tree, old(self)@),
            nav_inv(*tree, final(self)@),
    {
        if self.pending_execution.is_some() || self.path.len() == 0 {
            return;
        }
        proof {
            lemma_path_ok_drop_last(tree.commands@, self.path@);
            assert(self.path@.subrange(0, self.path@.len() - 1) =~= self.path@.drop_last());
        }
        self.path.pop();
        let sib = siblings_at(tree, &self.path);
        self.sibling_count = sib.len();
        self.selected_index = 0;
    }

    /// Feed one input event to the session. Returns whether the session is
    /// over: the user asked to leave, or an action is now pending.
    pub fn step(&mut self, tree: &CommandTree, ev: NavEvent) -> (done: bool)
        requires
            nav_inv(*tree, old(self)@),
        ensures
            final(self)@ == step_spec(*tree, old(self)@, ev),
            nav_inv(*tree, final(self)@),
            done == (ev is Exit || final(self)@.pending is Some),
    {
        match ev {
            NavEvent::Up => {
                self.move_up(tree);
            },
            NavEvent::Down => {
                self.move_down(tree);
            },
            NavEvent::Select => {
                self.select(tree);
            },
            NavEvent::Back => {
                self.back(tree);
            },
            NavEvent::Exit => {},
        }
        let is_exit = matches!(ev, NavEvent::Exit);
        is_exit || self.pending_execution.is_some()
    }
}

} // verus!

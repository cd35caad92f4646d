use crate::nav::{
    back_spec, down_spec, initial_model, nav_inv, select_spec, step_spec, up_spec, NavEvent,
    NavModel,
};
use crate::resolve::{
    cli_action_spec, lemma_path_ok_drop_last, lemma_siblings_of_len, lemma_siblings_push,
    resolve_cli_spec, tree_siblings, ResolveError,
};
use crate::tree::{CommandNode, CommandTree};
use vstd::prelude::*;

verus! {

/// Resolution is deterministic: the sibling list depends on nothing but
/// the tree and the path, so resolving the same path again always yields
/// the same list.
pub proof fn lemma_resolution_deterministic(tree: CommandTree, p1: Seq<usize>, p2: Seq<usize>)
    requires
        p1 == p2,
    ensures
        tree_siblings(tree, p1) == tree_siblings(tree, p2),
{
}

/// Every transition keeps the session invariant: the path stays a valid
/// chain of selections, the cached sibling count equals re-deriving the
/// path and resolving it afresh, and the highlight stays in bounds. Since
/// a fresh session satisfies the invariant, so does every state reachable
/// by any sequence of events.
pub proof fn lemma_step_preserves_inv(tree: CommandTree, m: NavModel, ev: NavEvent)
    requires
        nav_inv(tree, m),
    ensures
        nav_inv(tree, step_spec(tree, m, ev)),
{
    match ev {
        NavEvent::Select => {
            let sib = tree_siblings(tree, m.path);
            if m.pending is None && 0 <= m.selected_index < sib.len() && sib[m.selected_index].children@.len() > 0 {
                lemma_siblings_of_len(tree.commands, m.path);
                lemma_siblings_push(tree.commands@, m.path, m.selected_index as usize);
            }
        },
        NavEvent::Back => {
            if m.pending is None && m.path.len() > 0 {
                lemma_path_ok_drop_last(tree.commands@, m.path);
            }
        },
        _ => {},
    }
}

/// The state a session is in after a fresh start and then this whole
/// sequence of events, one after the other.
pub open spec fn run_events(tree: CommandTree, evs: Seq<NavEvent>) -> NavModel
    decreases evs.len(),
{
    if evs.len() == 0 {
        initial_model(tree)
    } else {
        step_spec(tree, run_events(tree, evs.drop_last()), evs.last())
    }
}

/// Every state reachable from a fresh session — by any sequence of events
/// whatever, selections included — satisfies the session invariant: its
/// path is a valid chain of selections, re-deriving the path and resolving
/// it afresh yields exactly the cached sibling count, and the highlight is
/// inside `[0, sibling_count - 1]` whenever the list is non-empty and zero
/// when it is empty.
pub proof fn lemma_reachable_states_satisfy_inv(tree: CommandTree, evs: Seq<NavEvent>)
    ensures
        nav_inv(tree, run_events(tree, evs)),
    decreases evs.len(),
{
    if evs.len() > 0 {
        lemma_reachable_states_satisfy_inv(tree, evs.drop_last());
        lemma_step_preserves_inv(tree, run_events(tree, evs.drop_last()), evs.last());
    }
}

/// `Back` below the root shortens the path by exactly one element and puts
/// the highlight back at the top; together with the invariant this holds
/// after any sequence of selections.
pub proof fn lemma_back_shortens(tree: CommandTree, m: NavModel)
    requires
        nav_inv(tree, m),
        m.pending is None,
        m.path.len() > 0,
    ensures
        back_spec(tree, m).path == m.path.drop_last(),
        back_spec(tree, m).selected_index == 0,
        nav_inv(tree, back_spec(tree, m)),
{
    lemma_path_ok_drop_last(tree.commands@, m.path);
}

/// Repeating `Back` at the root is a no-op: the path stays empty and the
/// state does not change at all.
pub proof fn lemma_back_at_root_noop(tree: CommandTree, m: NavModel)
    requires
        m.path.len() == 0,
    ensures
        back_spec(tree, m) == m,
{
}

/// Selecting a container and then going back restores the original path
/// and sibling count, with the highlight reset to the top.
pub proof fn lemma_back_undoes_select(tree: CommandTree, m: NavModel)
    requires
        nav_inv(tree, m),
        m.pending is None,
        0 <= m.selected_index < tree_siblings(tree, m.path).len(),
        tree_siblings(tree, m.path)[m.selected_index].children@.len() > 0,
    ensures
        back_spec(tree, select_spec(tree, m)).path == m.path,
        back_spec(tree, select_spec(tree, m)).selected_index == 0,
        back_spec(tree, select_spec(tree, m)).sibling_count == m.sibling_count,
{
    let s = select_spec(tree, m);
    lemma_siblings_push(tree.commands@, m.path, m.selected_index as usize);
    assert(s.path.drop_last() =~= m.path);
}

/// `Up` and `Down` keep the highlight inside `[0, sibling_count - 1]` on a
/// non-empty list and leave it at zero on an empty one.
pub proof fn lemma_moves_stay_in_bounds(tree: CommandTree, m: NavModel)
    requires
        nav_inv(tree, m),
    ensures
        m.sibling_count > 0 ==> 0 <= up_spec(m).selected_index < m.sibling_count,
        m.sibling_count > 0 ==> 0 <= down_spec(m).selected_index < m.sibling_count,
        m.sibling_count == 0 ==> up_spec(m).selected_index == 0,
        m.sibling_count == 0 ==> down_spec(m).selected_index == 0,
{
}

/// A node with both children and an action always descends: selecting it
/// grows the path and never records the action for execution.
pub proof fn lemma_ambiguous_select_descends(tree: CommandTree, m: NavModel)
    requires
        nav_inv(tree, m),
        m.pending is None,
        0 <= m.selected_index < tree_siblings(tree, m.path).len(),
        tree_siblings(tree, m.path)[m.selected_index].children@.len() > 0,
        tree_siblings(tree, m.path)[m.selected_index].action is Some,
    ensures
        select_spec(tree, m).path == m.path.push(m.selected_index as usize),
        select_spec(tree, m).pending is None,
{
}

/// An invocation with no tokens never matches a command: it always falls
/// back to the interactive session.
pub proof fn lemma_empty_cli_is_interactive(tree: CommandTree, tokens: Seq<String>)
    requires
        tokens.len() == 0,
    ensures
        resolve_cli_spec(tree, tokens) == Err::<CommandNode, ResolveError>(ResolveError::NoTokens),
        cli_action_spec(tree, tokens) is None,
{
}

} // verus!

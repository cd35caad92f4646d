use crate::tree::{CommandNode, CommandTree};
use vstd::prelude::*;

verus! {

// ---------------------------------------------------------------------------
// Paths through the tree
//
// A path is the chain of selections made from the root: step `k` picks the
// element at position `path[k]` of the sibling list that the first `k` steps
// lead to. Positions rather than copied nodes keep the state small and make
// re-resolution against the immutable tree exact.
// ---------------------------------------------------------------------------

/// Does `path` denote a chain of in-range selections through `nodes`?
pub open spec fn path_ok(nodes: Seq<CommandNode>, path: Seq<usize>) -> bool
    decreases path.len(),
{
    path.len() == 0 || (path[0] < nodes.len() && path_ok(
        nodes[path[0] as int].children@,
        path.drop_first(),
    ))
}

/// The sibling list visible after following `path` from `nodes`: the list
/// itself for an empty path, else the children of the node the steps select,
/// and empty past an out-of-range step (the resolver never fails on one).
pub open spec fn siblings_of(nodes: Seq<CommandNode>, path: Seq<usize>) -> Seq<CommandNode>
    decreases path.len(),
{
    if path.len() == 0 {
        nodes
    } else if path[0] < nodes.len() {
        siblings_of(nodes[path[0] as int].children@, path.drop_first())
    } else {
        Seq::empty()
    }
}

/// Is `path` a valid chain of selections from the root of `tree`?
pub open spec fn tree_path_ok(tree: CommandTree, path: Seq<usize>) -> bool {
    path_ok(tree.commands@, path)
}

/// The sibling list a session at `path` in `tree` displays.
pub open spec fn tree_siblings(tree: CommandTree, path: Seq<usize>) -> Seq<CommandNode> {
    siblings_of(tree.commands@, path)
}

/// Every sibling list is the view of some `Vec` held in the tree, so its
/// length fits in a machine word.
pub proof fn lemma_siblings_of_len(v: Vec<CommandNode>, path: Seq<usize>)
    ensures
        siblings_of(v@, path).len() <= usize::MAX,
    decreases path.len(),
{
    broadcast use vstd::std_specs::vec::axiom_spec_len;

    assert(vstd::std_specs::vec::spec_vec_len(&v) == v@.len());
    if path.len() > 0 && path[0] < v@.len() {
        lemma_siblings_of_len(v@[path[0] as int].children, path.drop_first());
    }
}

/// Extending a valid path by an in-range selection keeps it valid, and the
/// sibling list the longer path re-resolves to is exactly the children of
/// the node just selected.
pub proof fn lemma_siblings_push(nodes: Seq<CommandNode>, path: Seq<usize>, i: usize)
    requires
        path_ok(nodes, path),
        i < siblings_of(nodes, path).len(),
    ensures
        path_ok(nodes, path.push(i)),
        siblings_of(nodes, path.push(i)) == siblings_of(nodes, path)[i as int].children@,
    decreases path.len(),
{
    let p = path.push(i);
    if path.len() == 0 {
        assert(p[0] == i);
        assert(p.drop_first() =~= Seq::<usize>::empty());
        assert(siblings_of(nodes[i as int].children@, p.drop_first())
            == nodes[i as int].children@);
        assert(path_ok(nodes[i as int].children@, p.drop_first()));
    } else {
        let h = nodes[path[0] as int].children@;
        assert(p[0] == path[0]);
        assert(p.drop_first() =~= path.drop_first().push(i));
        lemma_siblings_push(h, path.drop_first(), i);
        assert(siblings_of(nodes, p) == siblings_of(h, p.drop_first()));
        assert(path_ok(h, p.drop_first()));
    }
}

/// A valid non-empty path stays valid after dropping its last step.
pub proof fn lemma_path_ok_drop_last(nodes: Seq<CommandNode>, path: Seq<usize>)
    requires
        path_ok(nodes, path),
        path.len() > 0,
    ensures
        path_ok(nodes, path.drop_last()),
    decreases path.len(),
{
    if path.len() == 1 {
        assert(path.drop_last() =~= Seq::<usize>::empty());
    } else {
        assert(path.drop_last()[0] == path[0]);
        assert(path.drop_last().drop_first() =~= path.drop_first().drop_last());
        lemma_path_ok_drop_last(nodes[path[0] as int].children@, path.drop_first());
    }
}

/// Walk the remaining steps `path[k..]` of a valid path down `nodes`.
fn siblings_from<'a>(nodes: &'a Vec<CommandNode>, path: &Vec<usize>, k: usize) -> (r: &'a Vec<
    CommandNode,
>)
    requires
        k <= path@.len(),
        path_ok(nodes@, path@.skip(k as int)),
    ensures
        r@ == siblings_of(nodes@, path@.skip(k as int)),
    decreases path@.len() - k,
{
    if k == path.len() {
        assert(path@.skip(k as int) =~= Seq::<usize>::empty());
        nodes
    } else {
        let i = path[k];
        assert(path@.skip(k as int)[0] == path@[k as int]);
        assert(path@.skip(k as int).drop_first() =~= path@.skip(k as int + 1));
        siblings_from(&nodes[i].children, path, k + 1)
    }
}

/// The sibling list currently visible after following `path` from the root:
/// the root commands for an empty path, else the children of the path's
/// last node. Resolution is a pure function of the tree and the path.
pub fn siblings_at<'a>(tree: &'a CommandTree, path: &Vec<usize>) -> (r: &'a Vec<CommandNode>)
    requires
        tree_path_ok(*tree, path@),
    ensures
        r@ == tree_siblings(*tree, path@),
{
    assert(path@.skip(0) =~= path@);
    siblings_from(&tree.commands, path, 0)
}

/// The node that step `k` of `path` selects: the element the step picks out
/// of the sibling list the first `k` steps lead to.
pub open spec fn node_at(tree: CommandTree, path: Seq<usize>, k: int) -> CommandNode {
    tree_siblings(tree, path.take(k))[path[k] as int]
}

/// Every prefix of a valid path is valid, and the next step is in range of
/// the sibling list the prefix resolves to.
pub proof fn lemma_path_prefix(nodes: Seq<CommandNode>, path: Seq<usize>, k: int)
    requires
        path_ok(nodes, path),
        0 <= k < path.len(),
    ensures
        path_ok(nodes, path.take(k)),
        path[k] < siblings_of(nodes, path.take(k)).len(),
    decreases path.len(),
{
    let t = path.take(k);
    if k == 0 {
        assert(t =~= Seq::<usize>::empty());
    } else {
        let h = nodes[path[0] as int].children@;
        assert(t[0] == path[0]);
        assert(t.drop_first() =~= path.drop_first().take(k - 1));
        lemma_path_prefix(h, path.drop_first(), k - 1);
        assert(path.drop_first()[k - 1] == path[k]);
        assert(path_ok(h, t.drop_first()));
        assert(siblings_of(nodes, t) == siblings_of(h, t.drop_first()));
    }
}

/// The names along a valid path, in order: what the session's breadcrumb
/// header displays.
pub fn path_names(tree: &CommandTree, path: &Vec<usize>) -> (r: Vec<String>)
    requires
        tree_path_ok(*tree, path@),
    ensures
        r@.len() == path@.len(),
        forall|k: int| 0 <= k < path@.len() ==> r@[k]@ == node_at(*tree, path@, k).name@,
{
    let mut names: Vec<String> = Vec::new();
    let mut cur: &Vec<CommandNode> = &tree.commands;
    let n = path.len();
    proof {
        assert(path@.take(0) =~= Seq::<usize>::empty());
    }
    for k in 0..n
        invariant
            n == path@.len(),
            tree_path_ok(*tree, path@),
            path_ok(tree.commands@, path@.take(k as int)),
            cur@ == tree_siblings(*tree, path@.take(k as int)),
            names@.len() == k,
            forall|j: int| 0 <= j < k ==> names@[j]@ == node_at(*tree, path@, j).name@,
    {
        proof {
            lemma_path_prefix(tree.commands@, path@, k as int);
        }
        let i = path[k];
        names.push(cur[i].name.clone());
        proof {
            lemma_siblings_push(tree.commands@, path@.take(k as int), i);
            assert(path@.take(k as int).push(i) =~= path@.take(k as int + 1));
        }
        cur = &cur[i].children;
    }
    names
}

// ---------------------------------------------------------------------------
// Command-line resolution
// ---------------------------------------------------------------------------

/// Why a sequence of command-line tokens did not resolve to a node.
#[derive(Clone, Copy, Debug, PartialEq, Eq, Structural)]
pub enum ResolveError {
    /// No tokens were given: a bare invocation names no command.
    NoTokens,
    /// The token at this position matched no name at its menu level.
    UnknownToken(usize),
}

/// Position of the first node in `nodes` whose name reads `name`, or -1
/// when no node in the list bears it.
pub open spec fn index_of_name(nodes: Seq<CommandNode>, name: Seq<char>) -> int
    decreases nodes.len(),
{
    if nodes.len() == 0 {
        -1
    } else if nodes[0].name@ == name {
        0
    } else {
        let r = index_of_name(nodes.drop_first(), name);
        if r < 0 {
            -1
        } else {
            r + 1
        }
    }
}

/// `index_of_name` finds the first match: a non-negative result is an
/// in-range position whose node bears the name and before which none does,
/// and a negative result means no node in the list bears it. This is what
/// makes the resolver's `UnknownToken` error exact: it comes if and only
/// if no sibling at that level bears the token's name.
pub proof fn lemma_index_of_name(nodes: Seq<CommandNode>, name: Seq<char>)
    ensures
        index_of_name(nodes, name) >= 0 ==> {
            let r = index_of_name(nodes, name);
            &&& r < nodes.len()
            &&& nodes[r].name@ == name
            &&& forall|j: int| 0 <= j < r ==> nodes[j].name@ != name
        },
        index_of_name(nodes, name) < 0 ==> forall|j: int|
            0 <= j < nodes.len() ==> nodes[j].name@ != name,
    decreases nodes.len(),
{
    if nodes.len() > 0 && nodes[0].name@ != name {
        let rest = nodes.drop_first();
        lemma_index_of_name(rest, name);
        let r = index_of_name(nodes, name);
        if r >= 0 {
            assert(rest[r - 1] == nodes[r]);
            assert forall|j: int| 0 <= j < r implies nodes[j].name@ != name by {
                if j > 0 {
                    assert(rest[j - 1] == nodes[j]);
                }
            }
        } else {
            assert forall|j: int| 0 <= j < nodes.len() implies nodes[j].name@ != name by {
                if j > 0 {
                    assert(rest[j - 1] == nodes[j]);
                }
            }
        }
    }
}

/// If no position before `i` matches, the first match is decided at `i`.
proof fn lemma_index_of_name_first(nodes: Seq<CommandNode>, name: Seq<char>, i: int)
    requires
        0 <= i <= nodes.len(),
        forall|j: int| 0 <= j < i ==> nodes[j].name@ != name,
        i < nodes.len() ==> nodes[i].name@ == name,
    ensures
        i < nodes.len() ==> index_of_name(nodes, name) == i,
        i == nodes.len() ==> index_of_name(nodes, name) < 0,
    decreases nodes.len(),
{
    if nodes.len() > 0 && i > 0 {
        assert(nodes[0].name@ != name);
        assert(forall|j: int|
            0 <= j < nodes.len() - 1 ==> nodes.drop_first()[j] == nodes[j + 1]);
        lemma_index_of_name_first(nodes.drop_first(), name, i - 1);
    }
}

/// First node in `nodes` named `name`, as its position.
fn find_by_name(nodes: &Vec<CommandNode>, name: &String) -> (r: Option<usize>)
    ensures
        match r {
            Some(j) => j < nodes@.len() && index_of_name(nodes@, name@) == j,
            None => index_of_name(nodes@, name@) < 0,
        },
{
    let n = nodes.len();
    for i in 0..n
        invariant
            n == nodes@.len(),
            forall|j: int| 0 <= j < i ==> nodes@[j].name@ != name@,
    {
        if nodes[i].name.eq(name) {
            proof {
                lemma_index_of_name_first(nodes@, name@, i as int);
            }
            return Some(i);
        }
    }
    proof {
        lemma_index_of_name_first(nodes@, name@, n as int);
    }
    None
}

/// Outcome of resolving the tokens `tokens[k..]` against the sibling list
/// `nodes`, one menu level per token: the node the last token names, or the
/// first failure.
pub open spec fn resolve_from(nodes: Seq<CommandNode>, tokens: Seq<String>, k: int) -> Result<
    CommandNode,
    ResolveError,
>
    decreases tokens.len() - k,
{
    if k < 0 || k >= tokens.len() {
        Err(ResolveError::NoTokens)
    } else {
        let j = index_of_name(nodes, tokens[k]@);
        if j < 0 {
            Err(ResolveError::UnknownToken(k as usize))
        } else if k == tokens.len() - 1 {
            Ok(nodes[j])
        } else {
            resolve_from(nodes[j].children@, tokens, k + 1)
        }
    }
}

/// Resolution of command-line tokens against the whole tree, from the root.
pub open spec fn resolve_cli_spec(tree: CommandTree, tokens: Seq<String>) -> Result<
    CommandNode,
    ResolveError,
> {
    resolve_from(tree.commands@, tokens, 0)
}

fn resolve_from_exec<'a>(nodes: &'a Vec<CommandNode>, tokens: &Vec<String>, k: usize) -> (r: Result<
    &'a CommandNode,
    ResolveError,
>)
    requires
        k < tokens@.len(),
    ensures
        match r {
            Ok(n) => resolve_from(nodes@, tokens@, k as int) == Ok::<CommandNode, ResolveError>(*n),
            Err(e) => resolve_from(nodes@, tokens@, k as int) == Err::<CommandNode, ResolveError>(
                e,
            ),
        },
    decreases tokens@.len() - k,
{
    match find_by_name(nodes, &tokens[k]) {
        None => Err(ResolveError::UnknownToken(k)),
        Some(j) => {
            if k == tokens.len() - 1 {
                Ok(&nodes[j])
            } else {
                resolve_from_exec(&nodes[j].children, tokens, k + 1)
            }
        },
    }
}

/// Walk `tokens` one menu level at a time, matching each token against the
/// names of the current sibling list: the first token against the root
/// commands, the next against the matched node's children, and so on.
/// Returns the node the full token list reaches, or the first failure; an
/// empty token list never matches a command.
pub fn resolve_cli_path<'a>(tree: &'a CommandTree, tokens: &Vec<String>) -> (r: Result<
    &'a CommandNode,
    ResolveError,
>)
    ensures
        match r {
            Ok(n) => resolve_cli_spec(*tree, tokens@) == Ok::<CommandNode, ResolveError>(*n),
            Err(e) => resolve_cli_spec(*tree, tokens@) == Err::<CommandNode, ResolveError>(e),
        },
{
    if tokens.len() == 0 {
        Err(ResolveError::NoTokens)
    } else {
        resolve_from_exec(&tree.commands, tokens, 0)
    }
}

/// What a command-line invocation with `tokens` does: the action to run at
/// once, or nothing, in which case the interactive session starts instead.
pub open spec fn cli_action_spec(tree: CommandTree, tokens: Seq<String>) -> Option<String> {
    match resolve_cli_spec(tree, tokens) {
        Ok(n) => if n.spec_executable() {
            n.action
        } else {
            None
        },
        Err(_) => None,
    }
}

/// Decide a command-line invocation: `Some(action)` means the dispatcher
/// runs it immediately and no interactive session starts; `None` (no
/// tokens, an unknown token, or a node that is not directly executable)
/// means the launcher falls back to the interactive session at the root.
pub fn cli_decision(tree: &CommandTree, tokens: &Vec<String>) -> (r: Option<String>)
    ensures
        r == cli_action_spec(*tree, tokens@),
{
    match resolve_cli_path(tree, tokens) {
        Ok(n) => {
            if n.children.len() == 0 {
                match &n.action {
                    Some(a) => Some(a.clone()),
                    None => None,
                }
            } else {
                None
            }
        },
        Err(_) => None,
    }
}

} // verus!

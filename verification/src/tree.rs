use vstd::prelude::*;

verus! {

/// One entry in the command tree: a named, described command that either
/// opens a sub-menu (`children` non-empty) or carries a shell action.
pub struct CommandNode {
    pub name: String,
    pub description: String,
    pub action: Option<String>,
    pub children: Vec<CommandNode>,
}

/// The immutable configuration: the ordered list of root commands.
pub struct CommandTree {
    pub commands: Vec<CommandNode>,
}

impl CommandNode {
    /// A node can be selected if it opens a sub-menu or carries an action;
    /// a node with neither is a dead end and selecting it does nothing.
    pub open spec fn spec_selectable(self) -> bool {
        self.children@.len() > 0 || self.action is Some
    }

    /// A node is directly executable only when it has no children and an
    /// action: when both are present the children win and the node is
    /// treated as a container, so no action is ever skipped silently.
    pub open spec fn spec_executable(self) -> bool {
        self.children@.len() == 0 && self.action is Some
    }

    pub fn is_selectable(&self) -> (r: bool)
        ensures
            r == self.spec_selectable(),
    {
        self.children.len() > 0 || self.action.is_some()
    }

    pub fn is_executable(&self) -> (r: bool)
        ensures
            r == self.spec_executable(),
    {
        self.children.len() == 0 && self.action.is_some()
    }

    pub fn command_name(&self) -> (r: String)
        ensures
            r == self.name,
    {
        self.name.clone()
    }

    pub fn command_description(&self) -> (r: String)
        ensures
            r == self.description,
    {
        self.description.clone()
    }
}

} // verus!

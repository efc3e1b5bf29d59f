use vstd::prelude::*;
use vstd::string::StringExecFns;

verus! {

/// The condition that made an operation fail.
#[derive(Debug, Clone, Copy, PartialEq, Eq, Structural)]
pub enum TreeErrorKind {
    /// A root or a proof was asked of a tree without leaves.
    TreeEmpty,
    /// A level of odd length had no last element to carry forward.
    LeafEmpty,
    /// A pairing step had to look at the tracked digest and none was set.
    PathLeafEmpty,
    /// A proof was folded over no digest at all.
    ProofEmpty,
}

/// What a `TreeError` holds, as mathematical values.
pub struct TreeErrorView {
    pub kind: TreeErrorKind,
    pub message: Seq<char>,
}

/// A failure: its kind and a message for people.
#[derive(Debug)]
pub struct TreeError {
    kind: TreeErrorKind,
    message: String,
}

impl View for TreeError {
    type V = TreeErrorView;

    closed spec fn view(&self) -> TreeErrorView {
        TreeErrorView { kind: self.kind, message: self.message@ }
    }
}

/// The name of a kind, as it is written in the source.
pub open spec fn kind_name(kind: TreeErrorKind) -> Seq<char> {
    match kind {
        TreeErrorKind::TreeEmpty => "TreeEmpty"@,
        TreeErrorKind::LeafEmpty => "LeafEmpty"@,
        TreeErrorKind::PathLeafEmpty => "PathLeafEmpty"@,
        TreeErrorKind::ProofEmpty => "ProofEmpty"@,
    }
}

/// The error that reports an empty tree.
pub open spec fn tree_empty_error() -> TreeErrorView {
    TreeErrorView {
        kind: TreeErrorKind::TreeEmpty,
        message: "Tree must contain at least a single leaf"@,
    }
}

/// The error that reports a missing trailing leaf.
pub open spec fn leaf_empty_error() -> TreeErrorView {
    TreeErrorView { kind: TreeErrorKind::LeafEmpty, message: "Leaves of the tree cannot be empty"@ }
}

/// The error that reports an unset tracked digest.
pub open spec fn path_leaf_not_set_error() -> TreeErrorView {
    TreeErrorView {
        kind: TreeErrorKind::PathLeafEmpty,
        message: "Current path leaf must be set to analyse path"@,
    }
}

/// The error that reports a fold over nothing.
pub open spec fn proof_empty_error() -> TreeErrorView {
    TreeErrorView { kind: TreeErrorKind::ProofEmpty, message: "proof is empty"@ }
}

impl TreeError {
    pub fn new(kind: TreeErrorKind, message: &str) -> (error: Self)
        ensures
            error@.kind == kind,
            error@.message == message@,
    {
        Self { kind, message: message.to_owned() }
    }

    pub fn kind(&self) -> (kind: &TreeErrorKind)
        ensures
            *kind == self@.kind,
    {
        &self.kind
    }

    pub fn message(&self) -> (message: &str)
        ensures
            message@ == self@.message,
    {
        self.message.as_str()
    }

    /// The kind's name, a colon and a space, then the message.
    pub fn describe(&self) -> (text: String)
        ensures
            text@ == kind_name(self@.kind) + ": "@ + self@.message,
    {
        let name = match self.kind {
            TreeErrorKind::TreeEmpty => "TreeEmpty",
            TreeErrorKind::LeafEmpty => "LeafEmpty",
            TreeErrorKind::PathLeafEmpty => "PathLeafEmpty",
            TreeErrorKind::ProofEmpty => "ProofEmpty",
        };
        let mut text = String::from_str(name);
        text.append(": ");
        text.append(self.message.as_str());
        text
    }

    pub fn tree_empty() -> (error: Self)
        ensures
            error@ == tree_empty_error(),
    {
        Self::new(TreeErrorKind::TreeEmpty, "Tree must contain at least a single leaf")
    }

    pub fn leaf_empty() -> (error: Self)
        ensures
            error@ == leaf_empty_error(),
    {
        Self::new(TreeErrorKind::LeafEmpty, "Leaves of the tree cannot be empty")
    }

    pub fn path_leaf_not_set() -> (error: Self)
        ensures
            error@ == path_leaf_not_set_error(),
    {
        Self::new(TreeErrorKind::PathLeafEmpty, "Current path leaf must be set to analyse path")
    }

    pub fn proof_empty() -> (error: Self)
        ensures
            error@ == proof_empty_error(),
    {
        Self::new(TreeErrorKind::ProofEmpty, "proof is empty")
    }
}

} // verus!

//! Instances of a schema: the snapshot, immutable and shared, and the
//! compact value, owned and mutable.
//!
//! A snapshot holds the nodes below it behind reference-counted pointers,
//! so a part of it can be handed out without a copy and can outlive the
//! whole. A compact value holds them by value, so a test can edit any field
//! in place and freeze the result.
use crate::config::share_pointer;
use crate::schema::FieldKind;
use crate::schema::SchemaNode;
use crate::text::texts;
use std::sync::Arc;
use vstd::prelude::*;

verus! {

/// What an instance holds, whatever its representation: a leaf is the
/// encoded value, a node is the values of its fields in order.
pub enum Tree {
    Leaf(Seq<u8>),
    Node(Seq<Tree>),
}

/// A field of a snapshot.
pub enum SnapshotField {
    /// The encoded value of a leaf.
    Leaf(Vec<u8>),
    /// The shared snapshot of a nested node.
    Nested(Arc<Snapshot>),
}

/// An immutable instance of a node.
pub struct Snapshot {
    /// The values of the fields, in declaration order.
    pub fields: Vec<SnapshotField>,
}

/// A field of a compact value.
pub enum CompactField {
    /// The encoded value of a leaf.
    Leaf(Vec<u8>),
    /// The owned value of a nested node.
    Nested(Compact),
}

/// A fully owned, mutable mirror of a snapshot.
pub struct Compact {
    /// The values of the fields, in declaration order.
    pub fields: Vec<CompactField>,
}

impl SnapshotField {
    /// What the field holds.
    pub open spec fn tree(self) -> Tree
        decreases self,
    {
        match self {
            SnapshotField::Leaf(bytes) => Tree::Leaf(bytes@),
            SnapshotField::Nested(node) => node.tree(),
        }
    }
}

impl Snapshot {
    /// What the snapshot holds.
    pub open spec fn tree(self) -> Tree
        decreases self,
    {
        Tree::Node(
            Seq::new(
                self.fields.len() as nat,
                |i: int|
                    if 0 <= i < self.fields.len() {
                        self.fields[i].tree()
                    } else {
                        Tree::Leaf(Seq::empty())
                    },
            ),
        )
    }
}

impl CompactField {
    /// What the field holds.
    pub open spec fn tree(self) -> Tree
        decreases self,
    {
        match self {
            CompactField::Leaf(bytes) => Tree::Leaf(bytes@),
            CompactField::Nested(node) => node.tree(),
        }
    }
}

impl Compact {
    /// What the compact value holds.
    pub open spec fn tree(self) -> Tree
        decreases self,
    {
        Tree::Node(
            Seq::new(
                self.fields.len() as nat,
                |i: int|
                    if 0 <= i < self.fields.len() {
                        self.fields[i].tree()
                    } else {
                        Tree::Leaf(Seq::empty())
                    },
            ),
        )
    }
}

impl Snapshot {
    /// The tree of a snapshot, field by field.
    pub proof fn lemma_tree(&self)
        ensures
            self.tree() is Node,
            self.tree()->Node_0.len() == self.fields.len(),
            forall|i: int|
                0 <= i < self.fields.len() ==> #[trigger] self.tree()->Node_0[i]
                    == self.fields[i].tree(),
    {
    }
}

impl Compact {
    /// The tree of a compact value, field by field.
    pub proof fn lemma_tree(&self)
        ensures
            self.tree() is Node,
            self.tree()->Node_0.len() == self.fields.len(),
            forall|i: int|
                0 <= i < self.fields.len() ==> #[trigger] self.tree()->Node_0[i]
                    == self.fields[i].tree(),
    {
    }
}

impl View for Snapshot {
    type V = Tree;

    open spec fn view(&self) -> Tree {
        self.tree()
    }
}

impl View for Compact {
    type V = Tree;

    open spec fn view(&self) -> Tree {
        self.tree()
    }
}

/// A copy of an encoded value.
pub fn clone_bytes(bytes: &Vec<u8>) -> (copy: Vec<u8>)
    ensures
        copy@ == bytes@,
{
    let mut copy: Vec<u8> = Vec::new();
    let mut at: usize = 0;
    while at < bytes.len()
        invariant
            at <= bytes.len(),
            copy@ == bytes@.subrange(0, at as int),
        decreases bytes.len() - at,
    {
        copy.push(bytes[at]);
        assert(copy@ =~= bytes@.subrange(0, at + 1));
        at += 1;
    }
    assert(bytes@.subrange(0, at as int) =~= bytes@);
    copy
}

/// Whether two encoded values are the same.
pub fn same_bytes(left: &Vec<u8>, right: &Vec<u8>) -> (same: bool)
    ensures
        same == (left@ == right@),
{
    if left.len() != right.len() {
        return false;
    }
    let mut at: usize = 0;
    while at < left.len()
        invariant
            at <= left.len(),
            left.len() == right.len(),
            forall|i: int| 0 <= i < at ==> left[i] == right[i],
        decreases left.len() - at,
    {
        if left[at] != right[at] {
            return false;
        }
        at += 1;
    }
    assert(left@ =~= right@);
    true
}

impl Compact {
    /// Freeze the compact value: a snapshot that holds the same values,
    /// with every nested node behind a shared pointer of its own.
    pub fn arcify(self) -> (snapshot: Arc<Snapshot>)
        ensures
            snapshot@ == self@,
    {
        self.freeze()
    }

    /// Freeze a compact value that is only borrowed.
    pub fn freeze(&self) -> (snapshot: Arc<Snapshot>)
        ensures
            snapshot@ == self@,
        decreases self,
    {
        let mut fields: Vec<SnapshotField> = Vec::new();
        let mut at: usize = 0;
        while at < self.fields.len()
            invariant
                at <= self.fields.len(),
                fields.len() == at,
                forall|i: int| 0 <= i < at ==> #[trigger] fields[i].tree() == self.fields[i].tree(),
            decreases self.fields.len() - at,
        {
            let frozen = match &self.fields[at] {
                CompactField::Leaf(bytes) => SnapshotField::Leaf(clone_bytes(bytes)),
                CompactField::Nested(node) => SnapshotField::Nested(node.freeze()),
            };
            fields.push(frozen);
            at += 1;
        }
        let snapshot = Snapshot { fields };
        proof {
            snapshot.lemma_tree();
            self.lemma_tree();
            assert(snapshot.tree()->Node_0 =~= self.tree()->Node_0);
        }
        Arc::new(snapshot)
    }
}

impl Snapshot {
    /// The compact value of the snapshot: the same values, owned, with
    /// every nested node duplicated.
    pub fn compact(&self) -> (compact: Compact)
        ensures
            compact@ == self@,
        decreases self,
    {
        let mut fields: Vec<CompactField> = Vec::new();
        let mut at: usize = 0;
        while at < self.fields.len()
            invariant
                at <= self.fields.len(),
                fields.len() == at,
                forall|i: int| 0 <= i < at ==> #[trigger] fields[i].tree() == self.fields[i].tree(),
            decreases self.fields.len() - at,
        {
            let owned = match &self.fields[at] {
                SnapshotField::Leaf(bytes) => CompactField::Leaf(clone_bytes(bytes)),
                SnapshotField::Nested(node) => CompactField::Nested(node.compact()),
            };
            fields.push(owned);
            at += 1;
        }
        let compact = Compact { fields };
        proof {
            compact.lemma_tree();
            self.lemma_tree();
            assert(compact.tree()->Node_0 =~= self.tree()->Node_0);
        }
        compact
    }

    /// Whether two snapshots hold the same values, however they are
    /// shared.
    pub fn same(&self, other: &Snapshot) -> (same: bool)
        ensures
            same == (self@ == other@),
        decreases self,
    {
        proof {
            self.lemma_tree();
            other.lemma_tree();
        }
        if self.fields.len() != other.fields.len() {
            return false;
        }
        let mut at: usize = 0;
        while at < self.fields.len()
            invariant
                at <= self.fields.len(),
                self.fields.len() == other.fields.len(),
                forall|i: int|
                    0 <= i < at ==> #[trigger] self.fields[i].tree() == other.fields[i].tree(),
            decreases self.fields.len() - at,
        {
            let equal = self.fields[at].same(&other.fields[at]);
            if !equal {
                proof {
                    self.lemma_tree();
                    other.lemma_tree();
                    assert(self.tree()->Node_0[at as int] != other.tree()->Node_0[at as int]);
                }
                return false;
            }
            at += 1;
        }
        proof {
            self.lemma_tree();
            other.lemma_tree();
            assert(self.tree()->Node_0 =~= other.tree()->Node_0);
        }
        true
    }
}

/// Whether a tree is an instance of a node: one value for each field, a
/// leaf where the field is a leaf and an instance of the nested node where
/// it holds one.
pub open spec fn conforms(node: SchemaNode, tree: Tree) -> bool
    decreases node,
{
    &&& tree is Node
    &&& tree->Node_0.len() == node.fields.len()
    &&& forall|i: int|
        0 <= i < node.fields.len() ==> match (#[trigger] node.fields[i]).kind {
            FieldKind::Leaf(_) => tree->Node_0[i] is Leaf,
            FieldKind::Nested(child) => conforms(child, tree->Node_0[i]),
        }
}

/// Whether two instances of a node differ in a leaf that is tagged as
/// triggering a restart. A tag on a field that holds a node covers every
/// leaf below it: `inherited` says that such a tag was met on the way down.
pub open spec fn tagged_differs(node: SchemaNode, left: Tree, right: Tree, inherited: bool) -> bool
    decreases node,
{
    exists|i: int|
        0 <= i < node.fields.len() && match (#[trigger] node.fields[i]).kind {
            FieldKind::Leaf(_) => (inherited || node.fields[i].restart) && left->Node_0[i]
                != right->Node_0[i],
            FieldKind::Nested(child) => tagged_differs(
                child,
                left->Node_0[i],
                right->Node_0[i],
                inherited || node.fields[i].restart,
            ),
        }
}

/// Where every leaf is covered by a tag, two instances differ in a tagged
/// leaf exactly when they differ at all.
pub proof fn lemma_covered_node_differs(node: SchemaNode, left: Tree, right: Tree)
    requires
        conforms(node, left),
        conforms(node, right),
    ensures
        tagged_differs(node, left, right, true) <==> left != right,
    decreases node,
{
    let lefts = left->Node_0;
    let rights = right->Node_0;
    assert forall|i: int| 0 <= i < node.fields.len() implies (match (#[trigger] node.fields[i]).kind {
        FieldKind::Leaf(_) => lefts[i] != rights[i],
        FieldKind::Nested(child) => tagged_differs(child, lefts[i], rights[i], true),
    }) == (lefts[i] != rights[i]) by {
        match node.fields[i].kind {
            FieldKind::Leaf(_) => {},
            FieldKind::Nested(child) => {
                lemma_covered_node_differs(child, lefts[i], rights[i]);
            },
        }
    }
    if left != right {
        assert(!(lefts =~= rights));
        let i = choose|i: int| 0 <= i < lefts.len() && lefts[i] != rights[i];
        assert(match (#[trigger] node.fields[i]).kind {
            FieldKind::Leaf(_) => lefts[i] != rights[i],
            FieldKind::Nested(child) => tagged_differs(child, lefts[i], rights[i], true),
        });
    }
}

/// An inherited tag makes no leaf count that counted without it.
pub proof fn lemma_tag_is_monotone(node: SchemaNode, left: Tree, right: Tree)
    requires
        tagged_differs(node, left, right, false),
    ensures
        tagged_differs(node, left, right, true),
    decreases node,
{
    let i = choose|i: int|
        0 <= i < node.fields.len() && match (#[trigger] node.fields[i]).kind {
            FieldKind::Leaf(_) => (false || node.fields[i].restart) && left->Node_0[i]
                != right->Node_0[i],
            FieldKind::Nested(child) => tagged_differs(
                child,
                left->Node_0[i],
                right->Node_0[i],
                false || node.fields[i].restart,
            ),
        };
    match node.fields[i].kind {
        FieldKind::Leaf(_) => {},
        FieldKind::Nested(child) => {
            if !node.fields[i].restart {
                lemma_tag_is_monotone(child, left->Node_0[i], right->Node_0[i]);
            }
        },
    }
    assert(match (#[trigger] node.fields[i]).kind {
        FieldKind::Leaf(_) => (true || node.fields[i].restart) && left->Node_0[i]
            != right->Node_0[i],
        FieldKind::Nested(child) => tagged_differs(
            child,
            left->Node_0[i],
            right->Node_0[i],
            true || node.fields[i].restart,
        ),
    });
}

/// What the nested node reached by `path` holds: each name of the path
/// picks the first field of that name, which has to hold a node.
pub open spec fn subtree_at(node: SchemaNode, tree: Tree, path: Seq<Seq<char>>) -> Option<Tree>
    decreases path.len(),
{
    if path.len() == 0 {
        Some(tree)
    } else {
        match node.field_names().index_of_first(path[0]) {
            Some(index) => match node.fields[index].kind {
                FieldKind::Nested(child) => subtree_at(
                    child,
                    tree->Node_0[index],
                    path.drop_first(),
                ),
                FieldKind::Leaf(_) => None,
            },
            None => None,
        }
    }
}

/// Freezing the compact value of a snapshot gives back what the snapshot
/// holds: where `compact` holds what `snapshot` holds, as `Snapshot::compact`
/// ensures, and `frozen` holds what `compact` holds, as `Compact::arcify`
/// ensures, `frozen` is deep-equal to `snapshot` and is an instance of every
/// node that `snapshot` is an instance of.
pub proof fn lemma_freeze_of_compact(
    node: SchemaNode,
    snapshot: Snapshot,
    compact: Compact,
    frozen: Snapshot,
)
    requires
        compact@ == snapshot@,
        frozen@ == compact@,
    ensures
        frozen@ == snapshot@,
        conforms(node, snapshot@) ==> conforms(node, frozen@),
{
}

/// The nested snapshot that `path` leads to from `snapshot`: the pointer
/// that the snapshot holds there, not a copy of what it points to. `None`
/// where the path names a field that the schema does not have, or a leaf.
pub fn share(snapshot: &Arc<Snapshot>, node: &SchemaNode, path: &Vec<String>) -> (shared: Option<
    Arc<Snapshot>,
>)
    requires
        conforms(*node, snapshot@),
    ensures
        match shared {
            Some(pointer) => subtree_at(*node, snapshot@, texts(path@)) == Some(pointer@),
            None => subtree_at(*node, snapshot@, texts(path@)) is None,
        },
{
    let mut current: &Arc<Snapshot> = snapshot;
    let mut schema: &SchemaNode = node;
    let mut at: usize = 0;
    assert(texts(path@).subrange(0, texts(path@).len() as int) =~= texts(path@));
    while at < path.len()
        invariant
            at <= path.len(),
            conforms(*schema, current@),
            subtree_at(*node, snapshot@, texts(path@)) == subtree_at(
                *schema,
                current@,
                texts(path@).subrange(at as int, path.len() as int),
            ),
        decreases path.len() - at,
    {
        let ghost rest = texts(path@).subrange(at as int, path.len() as int);
        assert(rest[0] == path[at as int]@);
        assert(rest.drop_first() =~= texts(path@).subrange(at + 1, path.len() as int));
        proof {
            current.lemma_tree();
        }
        match schema.field_position(&path[at]) {
            Some(index) => {
                assert(match (#[trigger] schema.fields[index as int]).kind {
                    FieldKind::Leaf(_) => current@->Node_0[index as int] is Leaf,
                    FieldKind::Nested(child) => conforms(child, current@->Node_0[index as int]),
                });
                assert(current@->Node_0[index as int] == current.fields[index as int].tree());
                match (&schema.fields[index].kind, &current.fields[index]) {
                    (FieldKind::Nested(child), SnapshotField::Nested(value)) => {
                        schema = child;
                        current = value;
                    },
                    (FieldKind::Nested(child), SnapshotField::Leaf(_)) => {
                        assert(false);
                        return None;
                    },
                    (FieldKind::Leaf(_), _) => {
                        return None;
                    },
                }
            },
            None => {
                return None;
            },
        }
        at += 1;
    }
    Some(share_pointer(current))
}

impl SnapshotField {
    /// Whether two fields hold the same values.
    pub fn same(&self, other: &SnapshotField) -> (same: bool)
        ensures
            same == (self.tree() == other.tree()),
        decreases self,
    {
        match (self, other) {
            (SnapshotField::Leaf(left), SnapshotField::Leaf(right)) => same_bytes(left, right),
            (SnapshotField::Nested(left), SnapshotField::Nested(right)) => {
                proof {
                    left.lemma_tree();
                    right.lemma_tree();
                }
                left.same(right)
            },
            (SnapshotField::Leaf(_), SnapshotField::Nested(right)) => {
                proof {
                    right.lemma_tree();
                }
                false
            },
            (SnapshotField::Nested(left), SnapshotField::Leaf(_)) => {
                proof {
                    left.lemma_tree();
                }
                false
            },
        }
    }
}

impl Snapshot {
    /// Whether the snapshot is an instance of `node`.
    pub fn conforms_to(&self, node: &SchemaNode) -> (fits: bool)
        ensures
            fits == conforms(*node, self@),
        decreases node,
    {
        proof {
            self.lemma_tree();
        }
        if self.fields.len() != node.fields.len() {
            return false;
        }
        let mut at: usize = 0;
        while at < node.fields.len()
            invariant
                at <= node.fields.len(),
                self.fields.len() == node.fields.len(),
                self.tree() is Node,
                forall|i: int|
                    0 <= i < self.fields.len() ==> #[trigger] self.tree()->Node_0[i]
                        == self.fields[i].tree(),
                forall|i: int|
                    0 <= i < at ==> match (#[trigger] node.fields[i]).kind {
                        FieldKind::Leaf(_) => self.tree()->Node_0[i] is Leaf,
                        FieldKind::Nested(child) => conforms(child, self.tree()->Node_0[i]),
                    },
            decreases node.fields.len() - at,
        {
            let fits = match (&node.fields[at].kind, &self.fields[at]) {
                (FieldKind::Leaf(_), SnapshotField::Leaf(_)) => true,
                (FieldKind::Nested(child), SnapshotField::Nested(value)) => value.conforms_to(
                    child,
                ),
                (FieldKind::Leaf(_), SnapshotField::Nested(value)) => {
                    proof {
                        value.lemma_tree();
                    }
                    false
                },
                (FieldKind::Nested(child), SnapshotField::Leaf(_)) => false,
            };
            if !fits {
                assert(!(match (#[trigger] node.fields[at as int]).kind {
                    FieldKind::Leaf(_) => self.tree()->Node_0[at as int] is Leaf,
                    FieldKind::Nested(child) => conforms(child, self.tree()->Node_0[at as int]),
                }));
                return false;
            }
            at += 1;
        }
        true
    }

    /// Whether going from this snapshot to `other` calls for a restart:
    /// whether the two differ in a field that is tagged, or that lies below
    /// a tagged field. Fields without a tag never count.
    pub fn restart_required(&self, other: &Snapshot, node: &SchemaNode) -> (restart: bool)
        requires
            conforms(*node, self@),
            conforms(*node, other@),
        ensures
            restart == tagged_differs(*node, self@, other@, false),
        decreases node,
    {
        proof {
            self.lemma_tree();
            other.lemma_tree();
        }
        let mut at: usize = 0;
        while at < node.fields.len()
            invariant
                at <= node.fields.len(),
                conforms(*node, self@),
                conforms(*node, other@),
                self.tree()->Node_0.len() == self.fields.len(),
                other.tree()->Node_0.len() == other.fields.len(),
                forall|i: int|
                    0 <= i < self.fields.len() ==> #[trigger] self.tree()->Node_0[i]
                        == self.fields[i].tree(),
                forall|i: int|
                    0 <= i < other.fields.len() ==> #[trigger] other.tree()->Node_0[i]
                        == other.fields[i].tree(),
                forall|i: int|
                    0 <= i < at ==> !(match (#[trigger] node.fields[i]).kind {
                        FieldKind::Leaf(_) => (false || node.fields[i].restart)
                            && self@->Node_0[i] != other@->Node_0[i],
                        FieldKind::Nested(child) => tagged_differs(
                            child,
                            self@->Node_0[i],
                            other@->Node_0[i],
                            false || node.fields[i].restart,
                        ),
                    }),
            decreases node.fields.len() - at,
        {
            let field = &node.fields[at];
            let ghost left = self@->Node_0[at as int];
            let ghost right = other@->Node_0[at as int];
            assert(match (#[trigger] node.fields[at as int]).kind {
                FieldKind::Leaf(_) => left is Leaf && right is Leaf,
                FieldKind::Nested(child) => conforms(child, left) && conforms(child, right),
            });
            let differs = if field.restart {
                proof {
                    match node.fields[at as int].kind {
                        FieldKind::Leaf(_) => {},
                        FieldKind::Nested(child) => {
                            lemma_covered_node_differs(child, left, right);
                        },
                    }
                }
                !self.fields[at].same(&other.fields[at])
            } else {
                match (&field.kind, &self.fields[at], &other.fields[at]) {
                    (
                        FieldKind::Nested(child),
                        SnapshotField::Nested(mine),
                        SnapshotField::Nested(theirs),
                    ) => mine.restart_required(theirs, child),
                    (FieldKind::Nested(child), _, _) => {
                        proof {
                            assert(conforms(*child, left));
                            assert(left is Node && right is Node);
                        }
                        false
                    },
                    (FieldKind::Leaf(_), _, _) => false,
                }
            };
            if differs {
                assert(match (#[trigger] node.fields[at as int]).kind {
                    FieldKind::Leaf(_) => (false || node.fields[at as int].restart) && left
                        != right,
                    FieldKind::Nested(child) => tagged_differs(
                        child,
                        left,
                        right,
                        false || node.fields[at as int].restart,
                    ),
                });
                return true;
            }
            at += 1;
        }
        false
    }
}

} // verus!

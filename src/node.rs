//! The accounting tree: groups of nodes, and buildings at the leaves.
use vstd::prelude::*;

use crate::ids::BuildingId;
use crate::settings::BuildingSettings;

verus! {

/// A leaf of the tree: one production building and its settings.
#[derive(Clone, Copy, Debug, PartialEq, Eq, Structural)]
pub struct Building {
    pub building: Option<BuildingId>,
    pub settings: BuildingSettings,
}

/// A named, ordered collection of child nodes.
#[derive(Debug, PartialEq, Eq)]
pub struct Group {
    pub name: String,
    pub children: Vec<Node>,
}

/// A node of the accounting tree.
#[derive(Debug, PartialEq, Eq)]
pub enum Node {
    Group(Group),
    Building(Building),
}

/// The mathematical value of a node.
pub enum NodeModel {
    Group { name: Seq<char>, children: Seq<NodeModel> },
    Building(Building),
}

/// The mathematical values of a sequence of nodes.
pub open spec fn models(s: Seq<Node>) -> Seq<NodeModel> {
    Seq::new(s.len(), |i: int| s[i].model())
}

impl Group {
    /// The group as a node value.
    pub open spec fn model(&self) -> NodeModel {
        NodeModel::Group { name: self.name@, children: models(self.children@) }
    }

    /// A copy of this group with equal name and children.
    pub fn duplicate(&self) -> (r: Group)
        ensures
            r.model() == self.model(),
        decreases self,
    {
        let mut children: Vec<Node> = Vec::with_capacity(self.children.len());
        let mut i: usize = 0;
        while i < self.children.len()
            invariant
                i <= self.children@.len(),
                children@.len() == i,
                forall|j: int| 0 <= j < i ==> #[trigger] children@[j].model() == self.children@[j].model(),
            decreases self.children@.len() - i,
        {
            proof {
                broadcast use vstd::std_specs::vec::group_vec_axioms;
                assert(decreases_to!(self.children => self.children@[i as int]));
            }
            children.push(self.children[i].duplicate());
            i += 1;
        }
        assert(models(children@) =~= models(self.children@));
        Group { name: self.name.clone(), children }
    }
}

impl Node {
    pub open spec fn model(&self) -> NodeModel
        decreases self,
        via Node::lemma_model_decreases
    {
        match self {
            Node::Group(g) => NodeModel::Group {
                name: g.name@,
                children: Seq::new(
                    g.children@.len(),
                    |i: int|
                        if 0 <= i < g.children@.len() {
                            g.children@[i].model()
                        } else {
                            NodeModel::Group { name: Seq::empty(), children: Seq::empty() }
                        },
                ),
            },
            Node::Building(b) => NodeModel::Building(*b),
        }
    }

    /// The node's value, as that of its group where it is one.
    pub proof fn lemma_group_model(g: &Group)
        ensures
            Node::Group(*g).model() == g.model(),
    {
        let n = Node::Group(*g).model();
        assert(n->children =~= models(g.children@));
    }

    /// A copy of this node with an equal value.
    pub fn duplicate(&self) -> (r: Node)
        ensures
            r.model() == self.model(),
        decreases self,
    {
        match self {
            Node::Group(g) => {
                let c = g.duplicate();
                proof {
                    Node::lemma_group_model(g);
                    Node::lemma_group_model(&c);
                }
                Node::Group(c)
            },
            Node::Building(b) => Node::Building(*b),
        }
    }

    #[via_fn]
    proof fn lemma_model_decreases(&self) {
        broadcast use vstd::std_specs::vec::group_vec_axioms;

        if let Node::Group(g) = self {
            assert forall|i: int| 0 <= i < g.children@.len() implies decreases_to!(self => g.children@[i]) by {
                assert(decreases_to!(g.children => g.children@[i]));
            }
        }
    }
}

} // verus!

//! The two-level hierarchy of layers: outer layers, each holding inner layers.

use crate::error::ErrorKind;
use crate::name::Name;
use crate::package::install::{
    plan_for, plan_of, select_packages, targets, Action, Step, StepView,
};
use crate::package::{Package, Packages};
use crate::{Installable, Options};
use vstd::prelude::*;

verus! {

/// A layer as it is declared: a name and the names of the layers under it.
#[derive(Clone, Debug, PartialEq, Eq)]
pub struct Layer {
    pub name: Name,
    pub sub_layers: Vec<Name>,
}

/// A list of declared layers, as one configuration source holds it.
#[derive(Clone, Debug, PartialEq, Eq)]
pub struct Layers {
    pub layers: Vec<Layer>,
}

/// A node of the layer tree.
#[derive(Debug, PartialEq, Eq)]
pub enum LayerKind {
    /// A grouping of inner layers.
    Outer { name: Name, sub_layers: Vec<LayerKind> },
    /// A leaf: the unit that packages attach to.
    Inner { name: Name },
}

/// Whether `node` is the outer layer built from the declaration `layer`: it
/// has the declared name, and under it one inner layer for each declared
/// sub-layer name, in the declared order.
pub open spec fn outer_of(node: LayerKind, layer: Layer) -> bool {
    &&& node matches LayerKind::Outer { name, sub_layers }
    &&& name == layer.name
    &&& sub_layers@.len() == layer.sub_layers@.len()
    &&& forall|j: int|
        0 <= j < sub_layers@.len() ==> #[trigger] sub_layers@[j] == (LayerKind::Inner {
            name: layer.sub_layers@[j],
        })
}

/// Whether `tree` is the layer tree built from `declared`: one outer layer
/// for each declaration, in the same order.
pub open spec fn tree_of(tree: Seq<LayerKind>, declared: Seq<Layer>) -> bool {
    &&& tree.len() == declared.len()
    &&& forall|i: int| 0 <= i < tree.len() ==> outer_of(#[trigger] tree[i], declared[i])
}

/// The first inner layer named `name` among `layers[i..]` and what lies under them.
pub open spec fn find_from(layers: Seq<LayerKind>, i: int, name: Seq<char>) -> Option<LayerKind>
    decreases layers, layers.len() - i,
{
    if 0 <= i < layers.len() {
        match layers[i].find_spec(name) {
            Some(found) => Some(found),
            None => find_from(layers, i + 1, name),
        }
    } else {
        None
    }
}

/// Whether an inner layer named `name` occurs among `layers[i..]` or anywhere under them.
pub open spec fn has_inner_from(layers: Seq<LayerKind>, i: int, name: Seq<char>) -> bool
    decreases layers, layers.len() - i,
{
    if 0 <= i < layers.len() {
        layers[i].has_inner(name) || has_inner_from(layers, i + 1, name)
    } else {
        false
    }
}

/// Whether a layer named `name`, outer or inner, occurs among `layers[i..]` or anywhere under them.
pub open spec fn has_layer_from(layers: Seq<LayerKind>, i: int, name: Seq<char>) -> bool
    decreases layers, layers.len() - i,
{
    if 0 <= i < layers.len() {
        layers[i].has_layer(name) || has_layer_from(layers, i + 1, name)
    } else {
        false
    }
}

impl LayerKind {
    /// The name of the node.
    pub open spec fn name_spec(self) -> Name {
        match self {
            LayerKind::Outer { name, .. } => name,
            LayerKind::Inner { name } => name,
        }
    }

    /// The first inner layer named `name` at or under this node, depth first.
    /// An outer layer is never the answer, whatever its name.
    pub open spec fn find_spec(self, name: Seq<char>) -> Option<LayerKind>
        decreases self, 0int,
    {
        match self {
            LayerKind::Outer { sub_layers, .. } => find_from(sub_layers@, 0, name),
            LayerKind::Inner { name: own } => if own@ == name {
                Some(self)
            } else {
                None
            },
        }
    }

    /// Whether an inner layer named `name` is this node or lies under it, at any depth.
    pub open spec fn has_inner(self, name: Seq<char>) -> bool
        decreases self, 0int,
    {
        match self {
            LayerKind::Outer { sub_layers, .. } => has_inner_from(sub_layers@, 0, name),
            LayerKind::Inner { name: own } => own@ == name,
        }
    }

    /// Whether a layer named `name`, outer or inner, is this node or lies under it.
    pub open spec fn has_layer(self, name: Seq<char>) -> bool
        decreases self, 0int,
    {
        match self {
            LayerKind::Outer { name: own, sub_layers } => own@ == name || has_layer_from(
                sub_layers@,
                0,
                name,
            ),
            LayerKind::Inner { name: own } => own@ == name,
        }
    }

    /// Whether `other` is the same tree: the same kinds of node with the
    /// same names, in the same order.
    pub open spec fn same_tree(self, other: LayerKind) -> bool
        decreases self,
    {
        match self {
            LayerKind::Outer { name, sub_layers } => {
                &&& other matches LayerKind::Outer { name: other_name, sub_layers: other_layers }
                &&& name@ == other_name@
                &&& sub_layers@.len() == other_layers@.len()
                &&& forall|i: int|
                    0 <= i < sub_layers@.len() ==> (#[trigger] sub_layers@[i]).same_tree(
                        other_layers@[i],
                    )
            },
            LayerKind::Inner { name } => other matches LayerKind::Inner { name: other_name }
                && name@ == other_name@,
        }
    }

    /// The name of the node.
    pub fn name(&self) -> (r: &Name)
        ensures
            *r == self.name_spec(),
    {
        match self {
            LayerKind::Outer { name, sub_layers: _ } => name,
            LayerKind::Inner { name } => name,
        }
    }

    /// Looks for the inner layer named `a_name`, depth first.
    pub fn find(&self, a_name: &Name) -> (r: Option<&LayerKind>)
        ensures
            match r {
                Some(found) => self.find_spec(a_name@) == Some(*found),
                None => self.find_spec(a_name@) is None,
            },
        decreases self,
    {
        match self {
            LayerKind::Outer { name: _, sub_layers } => {
                let mut i: usize = 0;
                while i < sub_layers.len()
                    invariant
                        i <= sub_layers@.len(),
                        decreases_to!(self => sub_layers),
                        self.find_spec(a_name@) == find_from(sub_layers@, 0, a_name@),
                        find_from(sub_layers@, 0, a_name@) == find_from(
                            sub_layers@,
                            i as int,
                            a_name@,
                        ),
                    decreases sub_layers@.len() - i,
                {
                    if let Some(found) = sub_layers[i].find(a_name) {
                        return Some(found);
                    }
                    i = i + 1;
                }
                None
            },
            LayerKind::Inner { name } => {
                if *a_name == *name {
                    Some(self)
                } else {
                    None
                }
            },
        }
    }

    /// Whether this is an outer layer.
    pub fn is_outer(&self) -> (r: bool)
        ensures
            r == (self is Outer),
    {
        match self {
            LayerKind::Outer { name: _, sub_layers: _ } => true,
            _ => false,
        }
    }

    /// Whether this is an inner layer.
    pub fn is_inner(&self) -> (r: bool)
        ensures
            r == (self is Inner),
    {
        match self {
            LayerKind::Inner { name: _ } => true,
            _ => false,
        }
    }
}

impl Clone for LayerKind {
    fn clone(&self) -> (r: Self)
        ensures
            self.same_tree(r),
        decreases self,
    {
        match self {
            LayerKind::Outer { name, sub_layers } => {
                let mut copies: Vec<LayerKind> = Vec::new();
                let mut i: usize = 0;
                while i < sub_layers.len()
                    invariant
                        i <= sub_layers@.len(),
                        copies@.len() == i,
                        decreases_to!(self => sub_layers),
                        forall|j: int|
                            0 <= j < i ==> (#[trigger] sub_layers@[j]).same_tree(copies@[j]),
                    decreases sub_layers@.len() - i,
                {
                    copies.push(sub_layers[i].clone());
                    i = i + 1;
                }
                LayerKind::Outer { name: name.clone(), sub_layers: copies }
            },
            LayerKind::Inner { name } => LayerKind::Inner { name: name.clone() },
        }
    }
}

impl Installable for LayerKind {
    /// A layer is handled through the packages that the action reaches,
    /// one package after the other.
    open spec fn steps(&self, action: Action, packages: Seq<Package>, options: Options) -> Seq<
        StepView,
    > {
        plan_of(targets(*self, action, packages), action, options)
    }

    fn install(&self, packages: &Packages, options: &Options) -> (r: Vec<Step>) {
        plan_for(&select_packages(self, Action::Install, packages), Action::Install, options)
    }

    fn update(&self, packages: &Packages, options: &Options) -> (r: Vec<Step>) {
        plan_for(&select_packages(self, Action::Update, packages), Action::Update, options)
    }

    fn delete(&self, packages: &Packages, options: &Options) -> (r: Vec<Step>) {
        plan_for(&select_packages(self, Action::Delete, packages), Action::Delete, options)
    }
}

/// Looks through the roots of a layer tree, in order, for the inner layer named `a_name`.
pub fn find_layer<'a>(layers: &'a Vec<LayerKind>, a_name: &Name) -> (r: Option<&'a LayerKind>)
    ensures
        match r {
            Some(found) => find_from(layers@, 0, a_name@) == Some(*found),
            None => find_from(layers@, 0, a_name@) is None,
        },
{
    let mut i: usize = 0;
    while i < layers.len()
        invariant
            i <= layers@.len(),
            find_from(layers@, 0, a_name@) == find_from(layers@, i as int, a_name@),
        decreases layers@.len() - i,
    {
        if let Some(found) = layers[i].find(a_name) {
            return Some(found);
        }
        i = i + 1;
    }
    None
}

/// `find` answers with an inner layer of exactly the name asked for when the
/// tree holds one at any depth, and with nothing when it holds none.
pub proof fn lemma_find_is_inner_by_name(layer: LayerKind, name: Seq<char>)
    ensures
        layer.find_spec(name) is Some <==> layer.has_inner(name),
        layer.find_spec(name) matches Some(found) ==> found is Inner && found.name_spec()@ == name,
    decreases layer, 0int,
{
    match layer {
        LayerKind::Outer { sub_layers, .. } => {
            lemma_find_from_is_inner_by_name(sub_layers@, 0, name);
        },
        LayerKind::Inner { .. } => {},
    }
}

/// The same over the roots of a tree, from position `i` on.
pub proof fn lemma_find_from_is_inner_by_name(layers: Seq<LayerKind>, i: int, name: Seq<char>)
    ensures
        find_from(layers, i, name) is Some <==> has_inner_from(layers, i, name),
        find_from(layers, i, name) matches Some(found) ==> found is Inner
            && found.name_spec()@ == name,
    decreases layers, layers.len() - i,
{
    if 0 <= i < layers.len() {
        lemma_find_is_inner_by_name(layers[i], name);
        lemma_find_from_is_inner_by_name(layers, i + 1, name);
    }
}

/// An inner layer of some name is a layer of that name.
pub proof fn lemma_inner_is_layer(layer: LayerKind, name: Seq<char>)
    ensures
        layer.has_inner(name) ==> layer.has_layer(name),
    decreases layer, 0int,
{
    match layer {
        LayerKind::Outer { sub_layers, .. } => {
            lemma_inner_is_layer_from(sub_layers@, 0, name);
        },
        LayerKind::Inner { .. } => {},
    }
}

/// The same over the roots of a tree, from position `i` on.
pub proof fn lemma_inner_is_layer_from(layers: Seq<LayerKind>, i: int, name: Seq<char>)
    ensures
        has_inner_from(layers, i, name) ==> has_layer_from(layers, i, name),
    decreases layers, layers.len() - i,
{
    if 0 <= i < layers.len() {
        lemma_inner_is_layer(layers[i], name);
        lemma_inner_is_layer_from(layers, i + 1, name);
    }
}

/// Builds the layer tree from the built-in declarations followed by the
/// user's. Declarations are not keyed: two with one name are both kept.
/// A source that is `None` could not be read against the schema.
pub fn load_config(default: Option<Layers>, user: Option<Layers>) -> (r: Result<
    Vec<LayerKind>,
    ErrorKind,
>)
    ensures
        match r {
            Ok(tree) => default is Some && user is Some && tree_of(
                tree@,
                default->0.layers@ + user->0.layers@,
            ),
            Err(e) => (default is None || user is None) && e == ErrorKind::InvalidConfigFormat,
        },
{
    let mut declared = match default {
        Some(layers) => layers.layers,
        None => { return Err(ErrorKind::InvalidConfigFormat); },
    };
    let mut added = match user {
        Some(layers) => layers.layers,
        None => { return Err(ErrorKind::InvalidConfigFormat); },
    };
    declared.append(&mut added);
    let ghost all = declared@;
    let mut tree: Vec<LayerKind> = Vec::new();
    for layer in outer: declared
        invariant
            outer.seq() == all,
            tree_of(tree@, all.take(outer.index() as int)),
    {
        let ghost at = outer.index() as int;
        let ghost names = layer.sub_layers@;
        let mut sub_layers: Vec<LayerKind> = Vec::new();
        for name in inner: layer.sub_layers
            invariant
                inner.seq() == names,
                sub_layers@.len() == inner.index(),
                forall|j: int|
                    0 <= j < sub_layers@.len() ==> #[trigger] sub_layers@[j] == (LayerKind::Inner {
                        name: names[j],
                    }),
        {
            sub_layers.push(LayerKind::Inner { name });
        }
        tree.push(LayerKind::Outer { name: layer.name, sub_layers });
        proof {
            assert(all.take(at + 1) =~= all.take(at).push(all[at]));
            assert forall|i: int| 0 <= i < tree@.len() implies outer_of(
                #[trigger] tree@[i],
                all.take(at + 1)[i],
            ) by {
                if i < at {
                    assert(all.take(at)[i] == all[i]);
                }
            }
        }
    }
    assert(all.take(all.len() as int) =~= all);
    Ok(tree)
}

} // verus!

//! The agent layers of the `.jules/` workflow.

use vstd::prelude::*;
use crate::text::str_eq;

verus! {

/// A layer of agents. Observers and innovators hold several roles; the other
/// layers run a single built-in role.
#[derive(Debug, Clone, Copy, PartialEq, Eq, Hash, PartialOrd, Ord, Structural)]
pub enum Layer {
    Narrator,
    Observers,
    Decider,
    Planner,
    Implementer,
    Innovators,
    Integrator,
}

/// Directory name of a layer under `.jules/roles/` (and its CLI name).
pub open spec fn layer_dir(l: Layer) -> Seq<char> {
    match l {
        Layer::Narrator => "narrator"@,
        Layer::Observers => "observers"@,
        Layer::Decider => "decider"@,
        Layer::Planner => "planner"@,
        Layer::Implementer => "implementer"@,
        Layer::Innovators => "innovators"@,
        Layer::Integrator => "integrator"@,
    }
}

/// Human-readable name of a layer.
pub open spec fn layer_display(l: Layer) -> Seq<char> {
    match l {
        Layer::Narrator => "Narrator"@,
        Layer::Observers => "Observers"@,
        Layer::Decider => "Decider"@,
        Layer::Planner => "Planner"@,
        Layer::Implementer => "Implementer"@,
        Layer::Innovators => "Innovators"@,
        Layer::Integrator => "Integrator"@,
    }
}

/// Layers that run one role and need no role argument.
pub open spec fn layer_single_role(l: Layer) -> bool {
    !(l == Layer::Observers || l == Layer::Innovators)
}

/// Layers that start from the worker branch; the others start from the
/// control (target) branch.
pub open spec fn layer_on_worker_branch(l: Layer) -> bool {
    !(l == Layer::Implementer || l == Layer::Integrator)
}

/// Layers whose input is a requirement file.
pub open spec fn layer_requirement_driven(l: Layer) -> bool {
    l == Layer::Planner || l == Layer::Implementer
}

impl Layer {
    pub fn dir_name(&self) -> (r: &'static str)
        ensures
            r@ == layer_dir(*self),
    {
        match self {
            Layer::Narrator => "narrator",
            Layer::Observers => "observers",
            Layer::Decider => "decider",
            Layer::Planner => "planner",
            Layer::Implementer => "implementer",
            Layer::Innovators => "innovators",
            Layer::Integrator => "integrator",
        }
    }

    pub fn display_name(&self) -> (r: &'static str)
        ensures
            r@ == layer_display(*self),
    {
        match self {
            Layer::Narrator => "Narrator",
            Layer::Observers => "Observers",
            Layer::Decider => "Decider",
            Layer::Planner => "Planner",
            Layer::Implementer => "Implementer",
            Layer::Innovators => "Innovators",
            Layer::Integrator => "Integrator",
        }
    }

    pub fn is_single_role(&self) -> (r: bool)
        ensures
            r == layer_single_role(*self),
    {
        !matches!(self, Layer::Observers | Layer::Innovators)
    }

    pub fn uses_worker_branch(&self) -> (r: bool)
        ensures
            r == layer_on_worker_branch(*self),
    {
        !matches!(self, Layer::Implementer | Layer::Integrator)
    }

    pub fn is_requirement_driven(&self) -> (r: bool)
        ensures
            r == layer_requirement_driven(*self),
    {
        matches!(self, Layer::Planner | Layer::Implementer)
    }

    /// The layer whose directory name is `name`, if any.
    pub fn from_dir_name(name: &str) -> (r: Option<Layer>)
        ensures
            r matches Some(l) ==> layer_dir(l) == name@,
            r is None ==> forall|l: Layer| layer_dir(l) != name@,
    {
        let all = [
            Layer::Narrator,
            Layer::Observers,
            Layer::Decider,
            Layer::Planner,
            Layer::Implementer,
            Layer::Innovators,
            Layer::Integrator,
        ];
        let mut k: usize = 0;
        while k < 7
            invariant
                forall|j: int| 0 <= j < k ==> layer_dir(#[trigger] all@[j]) != name@,
                all@ == seq![
                    Layer::Narrator,
                    Layer::Observers,
                    Layer::Decider,
                    Layer::Planner,
                    Layer::Implementer,
                    Layer::Innovators,
                    Layer::Integrator,
                ],
            decreases 7 - k,
        {
            let l = all[k];
            if str_eq(l.dir_name(), name) {
                return Some(l);
            }
            k = k + 1;
        }
        proof {
            assert forall|l: Layer| layer_dir(l) != name@ by {
                match l {
                    Layer::Narrator => assert(layer_dir(all@[0]) != name@),
                    Layer::Observers => assert(layer_dir(all@[1]) != name@),
                    Layer::Decider => assert(layer_dir(all@[2]) != name@),
                    Layer::Planner => assert(layer_dir(all@[3]) != name@),
                    Layer::Implementer => assert(layer_dir(all@[4]) != name@),
                    Layer::Innovators => assert(layer_dir(all@[5]) != name@),
                    Layer::Integrator => assert(layer_dir(all@[6]) != name@),
                }
            }
        }
        None
    }
}


/// The length and the first and third characters of a layer's directory
/// name, which tell the layers apart.
pub open spec fn dir_signature(l: Layer) -> (nat, char, char) {
    match l {
        Layer::Narrator => (8, 'n', 'r'),
        Layer::Observers => (9, 'o', 's'),
        Layer::Decider => (7, 'd', 'c'),
        Layer::Planner => (7, 'p', 'a'),
        Layer::Implementer => (11, 'i', 'p'),
        Layer::Innovators => (10, 'i', 'n'),
        Layer::Integrator => (10, 'i', 't'),
    }
}

proof fn lemma_dir_signature(l: Layer)
    ensures
        layer_dir(l).len() == dir_signature(l).0,
        layer_dir(l)[0] == dir_signature(l).1,
        layer_dir(l)[2] == dir_signature(l).2,
{
    match l {
        Layer::Narrator => reveal_strlit("narrator"),
        Layer::Observers => reveal_strlit("observers"),
        Layer::Decider => reveal_strlit("decider"),
        Layer::Planner => reveal_strlit("planner"),
        Layer::Implementer => reveal_strlit("implementer"),
        Layer::Innovators => reveal_strlit("innovators"),
        Layer::Integrator => reveal_strlit("integrator"),
    }
}

/// Each layer has its own directory name, so `from_dir_name` reads back the
/// layer whose `dir_name` it is given.
pub proof fn lemma_layer_dir_injective(a: Layer, b: Layer)
    requires
        layer_dir(a) == layer_dir(b),
    ensures
        a == b,
{
    lemma_dir_signature(a);
    lemma_dir_signature(b);
    assert(dir_signature(a) == dir_signature(b));
}

/// The layers, in the order the CLI lists them.
pub open spec fn all_layers() -> Seq<Layer> {
    seq![
        Layer::Narrator,
        Layer::Observers,
        Layer::Decider,
        Layer::Planner,
        Layer::Implementer,
        Layer::Innovators,
        Layer::Integrator,
    ]
}

impl Layer {
    /// All layers, in the order the CLI lists them.
    pub fn all() -> (r: Vec<Layer>)
        ensures
            r@ == all_layers(),
    {
        let r = vec![
            Layer::Narrator,
            Layer::Observers,
            Layer::Decider,
            Layer::Planner,
            Layer::Implementer,
            Layer::Innovators,
            Layer::Integrator,
        ];
        assert(r@ =~= all_layers());
        r
    }
}

} // verus!

//! The asset pack: block-state descriptions and models by name, held in
//! memory. Whoever fills it reads the files; resolution only looks up.

use vstd::prelude::*;
use crate::blockstate::MultipartCase;
use crate::error::{is_cycle, ErrorKind, Failure, ResolveError};
use crate::model::ModelDefinition;
use crate::text::{
    find_char, first_index_of, lemma_name_index, lemma_name_index_known, name_index, same_text,
    slice,
};
use crate::walk::{lemma_walk_never_ends, survives};

verus! {

/// The cases of one block, under the block's name.
#[derive(Clone, Debug, PartialEq, Eq)]
pub struct BlockStatesEntry {
    pub name: String,
    pub cases: Vec<MultipartCase>,
}

/// One model, under the name by which others refer to it.
#[derive(Clone, Debug, PartialEq, Eq)]
pub struct ModelEntry {
    pub name: String,
    pub model: ModelDefinition,
}

/// Block-state descriptions and models by name. Of two entries under one
/// name the earlier is found.
#[derive(Clone, Debug, PartialEq, Eq)]
pub struct AssetPack {
    blockstates: Vec<BlockStatesEntry>,
    models: Vec<ModelEntry>,
}

/// Whether a parent name is built in: it has a `/`, and `builtin` stands
/// before the first one. A built-in parent ends a chain.
pub open spec fn is_builtin(id: Seq<char>) -> bool {
    let i = first_index_of(id, '/', 0);
    i < id.len() && id.take(i) == "builtin"@
}

/// The parent that a chain goes on with after `model`, if any.
pub open spec fn next_parent(model: ModelDefinition) -> Option<Seq<char>> {
    match model.parent {
        Some(p) => if is_builtin(p@) {
            None
        } else {
            Some(p@)
        },
        None => None,
    }
}

/// The names of the models, in order.
pub open spec fn names_of(models: Seq<ModelEntry>) -> Seq<Seq<char>> {
    Seq::new(models.len(), |i: int| models[i].name@)
}

/// The indices of the model `name` and of its ancestors, the model first
/// and the most basic ancestor last. A name that no model has is
/// `NotFound`. The chain may hold at most `fuel` models; one that goes on
/// after that many is a `Cycle`. With the number of models as fuel, only a
/// chain that passes some model twice goes on.
pub open spec fn parent_chain(models: Seq<ModelEntry>, name: Seq<char>, fuel: nat) -> Result<
    Seq<int>,
    Failure,
>
    decreases fuel,
{
    let i = name_index(names_of(models), name, 0);
    if !(0 <= i < models.len()) {
        Err(Failure { kind: ErrorKind::NotFound, subject: name })
    } else if fuel == 0 {
        Err(Failure { kind: ErrorKind::Cycle, subject: name })
    } else {
        match next_parent(models[i].model) {
            None => Ok(seq![i]),
            Some(parent) => match parent_chain(models, parent, (fuel - 1) as nat) {
                Err(e) => Err(e),
                Ok(rest) => Ok(seq![i] + rest),
            },
        }
    }
}

/// The step from a model's name to the name of the parent with which its
/// chain goes on.
pub open spec fn chain_step(models: Seq<ModelEntry>) -> spec_fn(Seq<char>) -> Option<Seq<char>> {
    |name: Seq<char>|
        {
            let i = name_index(names_of(models), name, 0);
            if 0 <= i < models.len() {
                next_parent(models[i].model)
            } else {
                None
            }
        }
}

/// A chain is a `Cycle` with some fuel exactly if the walk from parent to
/// parent makes that many steps among the models.
proof fn lemma_cycle_iff_survives(models: Seq<ModelEntry>, name: Seq<char>, fuel: nat)
    ensures
        is_cycle(parent_chain(models, name, fuel)) <==> survives(
            chain_step(models),
            names_of(models).to_set(),
            name,
            fuel,
        ),
    decreases fuel,
{
    lemma_name_index_known(names_of(models), name);
    let i = name_index(names_of(models), name, 0);
    if 0 <= i < models.len() && fuel > 0 {
        match next_parent(models[i].model) {
            Some(parent) => {
                lemma_cycle_iff_survives(models, parent, (fuel - 1) as nat);
            },
            None => {},
        }
    }
}

/// A chain that is a `Cycle` with the number of models as fuel is a
/// `Cycle` with any fuel: it passes some model twice and never ends.
pub proof fn lemma_cycle_is_endless(models: Seq<ModelEntry>, name: Seq<char>, fuel: nat)
    requires
        is_cycle(parent_chain(models, name, models.len())),
    ensures
        is_cycle(parent_chain(models, name, fuel)),
{
    let names = names_of(models);
    names.lemma_cardinality_of_set();
    vstd::seq_lib::seq_to_set_is_finite(names);
    lemma_cycle_iff_survives(models, name, models.len());
    lemma_walk_never_ends(chain_step(models), names.to_set(), name, models.len(), fuel);
    lemma_cycle_iff_survives(models, name, fuel);
}

/// A chain that ends, or that misses a model, does so whatever the fuel
/// beyond what it needs.
pub proof fn lemma_chain_is_stable(
    models: Seq<ModelEntry>,
    name: Seq<char>,
    fuel: nat,
    more: nat,
)
    requires
        fuel <= more,
        !is_cycle(parent_chain(models, name, fuel)),
    ensures
        parent_chain(models, name, more) == parent_chain(models, name, fuel),
    decreases fuel,
{
    let i = name_index(names_of(models), name, 0);
    if 0 <= i < models.len() && fuel > 0 {
        match next_parent(models[i].model) {
            Some(parent) => {
                lemma_chain_is_stable(models, parent, (fuel - 1) as nat, (more - 1) as nat);
            },
            None => {},
        }
    }
}

/// Whether a parent name is built in.
pub fn is_builtin_parent(id: &str) -> (b: bool)
    ensures
        b == is_builtin(id@),
{
    let n = id.unicode_len();
    let i = find_char(id, '/', 0);
    if i < n {
        let prefix = slice(id, 0, i);
        assert(prefix@ =~= id@.take(i as int));
        same_text(prefix.as_str(), "builtin")
    } else {
        false
    }
}

impl AssetPack {
    /// The block-state entries, in the order in which they were added.
    pub closed spec fn blockstates(&self) -> Seq<BlockStatesEntry> {
        self.blockstates@
    }

    /// The model entries, in the order in which they were added.
    pub closed spec fn models(&self) -> Seq<ModelEntry> {
        self.models@
    }

    /// The names of the block-state entries, in order.
    pub open spec fn blockstate_names(&self) -> Seq<Seq<char>> {
        Seq::new(self.blockstates().len(), |i: int| self.blockstates()[i].name@)
    }

    /// What loading the block-states of `block_id` gives: the cases of the
    /// first entry under that name, or `NotFound`.
    pub open spec fn blockstates_of(&self, block_id: Seq<char>) -> Result<
        Vec<MultipartCase>,
        Failure,
    > {
        let i = name_index(self.blockstate_names(), block_id, 0);
        if 0 <= i < self.blockstates().len() {
            Ok(self.blockstates()[i].cases)
        } else {
            Err(Failure { kind: ErrorKind::NotFound, subject: block_id })
        }
    }

    /// What loading the model `name` with its ancestors gives: the models of
    /// the chain, the requested one first.
    pub open spec fn chain_of(&self, name: Seq<char>) -> Result<Seq<ModelDefinition>, Failure> {
        match parent_chain(self.models(), name, self.models().len()) {
            Err(e) => Err(e),
            Ok(indices) => Ok(
                Seq::new(indices.len(), |k: int| self.models()[indices[k]].model),
            ),
        }
    }

    /// An empty pack.
    pub fn new() -> (r: Self)
        ensures
            r.blockstates() == Seq::<BlockStatesEntry>::empty(),
            r.models() == Seq::<ModelEntry>::empty(),
    {
        AssetPack { blockstates: Vec::new(), models: Vec::new() }
    }

    /// Adds the cases of the block `name`.
    pub fn add_blockstates(&mut self, name: &str, cases: Vec<MultipartCase>)
        ensures
            final(self).models() == old(self).models(),
            final(self).blockstates().len() == old(self).blockstates().len() + 1,
            final(self).blockstates().drop_last() == old(self).blockstates(),
            final(self).blockstates().last().name@ == name@,
            final(self).blockstates().last().cases == cases,
    {
        self.blockstates.push(BlockStatesEntry { name: name.to_owned(), cases });
        assert(self.blockstates@.drop_last() =~= old(self).blockstates@);
    }

    /// Adds the model `name`.
    pub fn add_model(&mut self, name: &str, model: ModelDefinition)
        ensures
            final(self).blockstates() == old(self).blockstates(),
            final(self).models().len() == old(self).models().len() + 1,
            final(self).models().drop_last() == old(self).models(),
            final(self).models().last().name@ == name@,
            final(self).models().last().model == model,
    {
        self.models.push(ModelEntry { name: name.to_owned(), model });
        assert(self.models@.drop_last() =~= old(self).models@);
    }

    /// Index of the first model named `name`.
    fn find_model(&self, name: &str) -> (r: Option<usize>)
        ensures
            match r {
                Some(i) => i == name_index(names_of(self.models()), name@, 0) && i
                    < self.models().len(),
                None => name_index(names_of(self.models()), name@, 0) == self.models().len(),
            },
    {
        let n = self.models.len();
        let mut i: usize = 0;
        let ghost names = names_of(self.models());
        proof {
            lemma_name_index(names, name@, 0);
        }
        while i < n
            invariant
                n == self.models@.len(),
                names == names_of(self.models()),
                0 <= i <= n,
                name_index(names, name@, 0) == name_index(names, name@, i as int),
            decreases n - i,
        {
            if same_text(self.models[i].name.as_str(), name) {
                return Some(i);
            }
            i += 1;
        }
        None
    }

    /// The cases of the block `block_id`, or `NotFound`.
    pub fn load_blockstates(&self, block_id: &str) -> (r: Result<
        &Vec<MultipartCase>,
        ResolveError,
    >)
        ensures
            match r {
                Ok(cases) => self.blockstates_of(block_id@) == Ok::<Vec<MultipartCase>, Failure>(
                    *cases,
                ),
                Err(e) => self.blockstates_of(block_id@) == Err::<Vec<MultipartCase>, Failure>(e@),
            },
    {
        let n = self.blockstates.len();
        let mut i: usize = 0;
        let ghost names = self.blockstate_names();
        proof {
            lemma_name_index(names, block_id@, 0);
        }
        while i < n
            invariant
                n == self.blockstates@.len(),
                names == self.blockstate_names(),
                0 <= i <= n,
                name_index(names, block_id@, 0) == name_index(names, block_id@, i as int),
            decreases n - i,
        {
            if same_text(self.blockstates[i].name.as_str(), block_id) {
                return Ok(&self.blockstates[i].cases);
            }
            i += 1;
        }
        Err(ResolveError::new(ErrorKind::NotFound, block_id))
    }

    /// The model `model`, or `NotFound`.
    pub fn load_block_model(&self, model: &str) -> (r: Result<&ModelDefinition, ResolveError>)
        ensures
            match r {
                Ok(m) => {
                    let i = name_index(names_of(self.models()), model@, 0);
                    0 <= i < self.models().len() && *m == self.models()[i].model
                },
                Err(e) => name_index(names_of(self.models()), model@, 0) == self.models().len()
                    && e@ == (Failure { kind: ErrorKind::NotFound, subject: model@ }),
            },
    {
        match self.find_model(model) {
            Some(i) => Ok(&self.models[i].model),
            None => Err(ResolveError::new(ErrorKind::NotFound, model)),
        }
    }

    /// The model `model` and its ancestors, the model first and the most
    /// basic ancestor last. A missing model or parent is `NotFound`, a chain
    /// that loops is a `Cycle`.
    pub fn load_block_model_recursive(&self, model: &str) -> (r: Result<
        Vec<&ModelDefinition>,
        ResolveError,
    >)
        ensures
            match r {
                Ok(chain) => self.chain_of(model@) == Ok::<Seq<ModelDefinition>, Failure>(
                    Seq::new(chain@.len(), |k: int| *chain@[k]),
                ),
                Err(e) => self.chain_of(model@) == Err::<Seq<ModelDefinition>, Failure>(e@),
            },
    {
        let total = self.models.len();
        let mut chain: Vec<&ModelDefinition> = Vec::new();
        let ghost mut indices: Seq<int> = Seq::empty();
        let mut current = model.to_owned();
        let mut fuel = total;
        loop
            invariant
                total == self.models().len(),
                fuel <= total,
                chain@.len() == indices.len(),
                forall|k: int|
                    0 <= k < indices.len() ==> 0 <= #[trigger] indices[k] < total && *chain@[k]
                        == self.models()[indices[k]].model,
                match parent_chain(self.models(), current@, fuel as nat) {
                    Ok(rest) => parent_chain(self.models(), model@, total as nat) == Ok::<
                        Seq<int>,
                        Failure,
                    >(indices + rest),
                    Err(e) => parent_chain(self.models(), model@, total as nat) == Err::<
                        Seq<int>,
                        Failure,
                    >(e),
                },
            decreases fuel,
        {
            let i = match self.find_model(current.as_str()) {
                Some(i) => i,
                None => {
                    return Err(ResolveError::new(ErrorKind::NotFound, current.as_str()));
                },
            };
            if fuel == 0 {
                return Err(ResolveError::new(ErrorKind::Cycle, current.as_str()));
            }
            let found = &self.models[i].model;
            chain.push(found);
            let ghost before = indices;
            proof {
                indices = indices.push(i as int);
            }
            let next = match &found.parent {
                Some(p) => if is_builtin_parent(p.as_str()) {
                    None
                } else {
                    Some(p.clone())
                },
                None => None,
            };
            match next {
                None => {
                    proof {
                        assert(before + seq![i as int] =~= indices);
                        let want = Seq::new(indices.len(), |k: int| self.models()[indices[k]].model);
                        let have = Seq::new(chain@.len(), |k: int| *chain@[k]);
                        assert(have =~= want);
                    }
                    return Ok(chain);
                },
                Some(parent) => {
                    proof {
                        match parent_chain(self.models(), parent@, (fuel - 1) as nat) {
                            Ok(rest) => {
                                assert(before + (seq![i as int] + rest) =~= indices + rest);
                            },
                            Err(e) => {},
                        }
                    }
                    current = parent;
                    fuel = fuel - 1;
                },
            }
        }
    }
}

} // verus!

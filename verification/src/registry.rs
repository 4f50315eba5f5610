//! The registry: the namespaces of a system merged into one key space.
//!
//! Every namespace gets a discriminant of its own. A list in which two
//! namespaces share one, or two parameters of one namespace do, is refused
//! when the registry is built.

use vstd::prelude::*;
use crate::definition::{
    default_typed, find_parameter, lemma_find_parameter, DecodeError, NamespaceDef, ParameterDef,
};
use crate::scalar::has_shape;

verus! {

/// Why a list of namespaces is refused.
#[derive(Clone, Copy, Debug, PartialEq, Eq, Structural)]
pub enum DefinitionError {
    /// Two namespaces share a discriminant.
    DuplicateNamespace,
    /// Two parameters of one namespace share a discriminant.
    DuplicateParameter,
    /// A default does not have the shape of its parameter's value.
    DefaultMismatch,
}

/// No number occurs twice.
pub open spec fn distinct(s: Seq<u32>) -> bool {
    forall|i: int, j: int| 0 <= i < j < s.len() ==> s[i] != s[j]
}

/// The discriminants of the namespaces, in order.
pub open spec fn namespace_discriminants(defs: Seq<NamespaceDef>) -> Seq<u32> {
    defs.map_values(|n: NamespaceDef| n.discriminant)
}

/// The discriminants of the parameters, in order.
pub open spec fn parameter_discriminants(params: Seq<ParameterDef>) -> Seq<u32> {
    params.map_values(|p: ParameterDef| p.discriminant)
}

/// No two namespaces share a discriminant.
pub open spec fn namespaces_distinct(defs: Seq<NamespaceDef>) -> bool {
    distinct(namespace_discriminants(defs))
}

/// In no namespace do two parameters share a discriminant.
pub open spec fn parameters_distinct(defs: Seq<NamespaceDef>) -> bool {
    forall|i: int|
        0 <= i < defs.len() ==> distinct(parameter_discriminants(#[trigger] defs[i].parameters@))
}

/// Every default has the shape of its parameter's value.
pub open spec fn defaults_typed(defs: Seq<NamespaceDef>) -> bool {
    forall|i: int, j: int|
        0 <= i < defs.len() && 0 <= j < defs[i].parameters@.len() ==> default_typed(
            #[trigger] defs[i].parameters@[j],
        )
}

/// The first namespace with discriminant `d`.
pub open spec fn find_namespace(defs: Seq<NamespaceDef>, d: u32) -> Option<NamespaceDef>
    decreases defs.len(),
{
    if defs.len() == 0 {
        None
    } else if defs[0].discriminant == d {
        Some(defs[0])
    } else {
        find_namespace(defs.skip(1), d)
    }
}

/// The parameter at (`namespace`, `parameter`), or which of the two is unknown.
pub open spec fn find(defs: Seq<NamespaceDef>, namespace: u32, parameter: u32) -> Result<
    ParameterDef,
    DecodeError,
> {
    match find_namespace(defs, namespace) {
        None => Err(DecodeError::UnknownNamespace),
        Some(n) => match find_parameter(n.parameters@, parameter) {
            None => Err(DecodeError::UnknownParameter),
            Some(p) => Ok(p),
        },
    }
}

/// A namespace that is found is one of the list, and none is found only
/// where none of the list has the discriminant.
pub proof fn lemma_find_namespace(defs: Seq<NamespaceDef>, d: u32)
    ensures
        match find_namespace(defs, d) {
            Some(n) => n.discriminant == d && exists|i: int|
                0 <= i < defs.len() && defs[i] == n,
            None => forall|i: int| 0 <= i < defs.len() ==> defs[i].discriminant != d,
        },
    decreases defs.len(),
{
    if defs.len() > 0 && defs[0].discriminant != d {
        let tail = defs.skip(1);
        lemma_find_namespace(tail, d);
        match find_namespace(tail, d) {
            Some(n) => {
                let i = choose|i: int| 0 <= i < tail.len() && tail[i] == n;
                assert(defs[i + 1] == n);
            },
            None => {
                assert forall|i: int| 0 <= i < defs.len() implies defs[i].discriminant != d by {
                    if i > 0 {
                        assert(tail[i - 1].discriminant != d);
                    }
                }
            },
        }
    } else if defs.len() > 0 {
        assert(defs[0] == defs[0]);
    }
}

/// Whether no number occurs twice in `values`.
pub fn all_distinct(values: &Vec<u32>) -> (r: bool)
    ensures
        r == distinct(values@),
{
    let mut j: usize = 0;
    while j < values.len()
        invariant
            j <= values.len(),
            forall|a: int, b: int| 0 <= a < b < j ==> values@[a] != values@[b],
        decreases values.len() - j,
    {
        let mut i: usize = 0;
        while i < j
            invariant
                i <= j < values.len(),
                forall|a: int| 0 <= a < i ==> values@[a] != values@[j as int],
            decreases j - i,
        {
            if values[i] == values[j] {
                return false;
            }
            i = i + 1;
        }
        j = j + 1;
    }
    true
}

fn discriminants_of_namespaces(defs: &Vec<NamespaceDef>) -> (out: Vec<u32>)
    ensures
        out@ == namespace_discriminants(defs@),
{
    let mut out: Vec<u32> = Vec::new();
    let mut i: usize = 0;
    while i < defs.len()
        invariant
            i <= defs.len(),
            out@ == namespace_discriminants(defs@.take(i as int)),
        decreases defs.len() - i,
    {
        out.push(defs[i].discriminant);
        proof {
            assert(out@ =~= namespace_discriminants(defs@.take(i + 1)));
        }
        i = i + 1;
    }
    proof {
        assert(defs@.take(i as int) =~= defs@);
    }
    out
}

fn discriminants_of_parameters(params: &Vec<ParameterDef>) -> (out: Vec<u32>)
    ensures
        out@ == parameter_discriminants(params@),
{
    let mut out: Vec<u32> = Vec::new();
    let mut i: usize = 0;
    while i < params.len()
        invariant
            i <= params.len(),
            out@ == parameter_discriminants(params@.take(i as int)),
        decreases params.len() - i,
    {
        out.push(params[i].discriminant);
        proof {
            assert(out@ =~= parameter_discriminants(params@.take(i + 1)));
        }
        i = i + 1;
    }
    proof {
        assert(params@.take(i as int) =~= params@);
    }
    out
}

fn check_parameters_distinct(defs: &Vec<NamespaceDef>) -> (r: bool)
    ensures
        r == parameters_distinct(defs@),
{
    let mut i: usize = 0;
    while i < defs.len()
        invariant
            i <= defs.len(),
            forall|k: int|
                0 <= k < i ==> distinct(parameter_discriminants(#[trigger] defs@[k].parameters@)),
        decreases defs.len() - i,
    {
        let numbers = discriminants_of_parameters(&defs[i].parameters);
        if !all_distinct(&numbers) {
            proof {
                assert(!distinct(parameter_discriminants(defs@[i as int].parameters@)));
            }
            return false;
        }
        i = i + 1;
    }
    true
}

fn check_defaults_typed(defs: &Vec<NamespaceDef>) -> (r: bool)
    ensures
        r == defaults_typed(defs@),
{
    let mut i: usize = 0;
    while i < defs.len()
        invariant
            i <= defs.len(),
            forall|k: int, j: int|
                0 <= k < i && 0 <= j < defs@[k].parameters@.len() ==> default_typed(
                    #[trigger] defs@[k].parameters@[j],
                ),
        decreases defs.len() - i,
    {
        let params = &defs[i].parameters;
        let mut j: usize = 0;
        while j < params.len()
            invariant
                i < defs.len(),
                j <= params.len(),
                *params == defs@[i as int].parameters,
                forall|m: int| 0 <= m < j ==> default_typed(#[trigger] params@[m]),
            decreases params.len() - j,
        {
            if !has_shape(&params[j].default, &params[j].value) {
                proof {
                    assert(!default_typed(defs@[i as int].parameters@[j as int]));
                }
                return false;
            }
            j = j + 1;
        }
        i = i + 1;
    }
    true
}

/// The merged definitions of all namespaces.
pub struct Registry {
    namespaces: Vec<NamespaceDef>,
}

impl Registry {
    /// The namespaces, in the order in which they were given.
    pub closed spec fn defs(&self) -> Seq<NamespaceDef> {
        self.namespaces@
    }

    /// No discriminant is used twice and every default fits its parameter.
    pub open spec fn wf(&self) -> bool {
        &&& namespaces_distinct(self.defs())
        &&& parameters_distinct(self.defs())
        &&& defaults_typed(self.defs())
    }

    /// Merges `namespaces` into one registry.
    ///
    /// Fails where two namespaces share a discriminant, where two parameters
    /// of one namespace do, or where a default does not fit; of several
    /// defects the first in this order is reported.
    pub fn build(namespaces: Vec<NamespaceDef>) -> (r: Result<Registry, DefinitionError>)
        ensures
            match r {
                Ok(registry) => registry.wf() && registry.defs() == namespaces@,
                Err(DefinitionError::DuplicateNamespace) => !namespaces_distinct(namespaces@),
                Err(DefinitionError::DuplicateParameter) => {
                    &&& namespaces_distinct(namespaces@)
                    &&& !parameters_distinct(namespaces@)
                },
                Err(DefinitionError::DefaultMismatch) => {
                    &&& namespaces_distinct(namespaces@)
                    &&& parameters_distinct(namespaces@)
                    &&& !defaults_typed(namespaces@)
                },
            },
    {
        let numbers = discriminants_of_namespaces(&namespaces);
        if !all_distinct(&numbers) {
            return Err(DefinitionError::DuplicateNamespace);
        }
        if !check_parameters_distinct(&namespaces) {
            return Err(DefinitionError::DuplicateParameter);
        }
        if !check_defaults_typed(&namespaces) {
            return Err(DefinitionError::DefaultMismatch);
        }
        Ok(Registry { namespaces })
    }

    /// The namespaces, in the order in which they were given.
    pub fn namespaces(&self) -> (r: &Vec<NamespaceDef>)
        ensures
            r@ == self.defs(),
    {
        &self.namespaces
    }

    /// The namespace with discriminant `d`.
    pub fn namespace(&self, d: u32) -> (r: Option<&NamespaceDef>)
        ensures
            match r {
                Some(n) => find_namespace(self.defs(), d) == Some(*n),
                None => find_namespace(self.defs(), d) is None,
            },
    {
        let mut i: usize = 0;
        proof {
            assert(self.namespaces@.skip(0) =~= self.namespaces@);
        }
        while i < self.namespaces.len()
            invariant
                i <= self.namespaces.len(),
                find_namespace(self.namespaces@, d) == find_namespace(
                    self.namespaces@.skip(i as int),
                    d,
                ),
            decreases self.namespaces.len() - i,
        {
            proof {
                assert(self.namespaces@.skip(i as int).skip(1) =~= self.namespaces@.skip(i + 1));
            }
            if self.namespaces[i].discriminant == d {
                return Some(&self.namespaces[i]);
            }
            i = i + 1;
        }
        None
    }

    /// The parameter at (`namespace`, `parameter`), or which of the two
    /// discriminants is not registered.
    pub fn parameter(&self, namespace: u32, parameter: u32) -> (r: Result<
        &ParameterDef,
        DecodeError,
    >)
        ensures
            match r {
                Ok(p) => find(self.defs(), namespace, parameter) == Ok::<ParameterDef, DecodeError>(
                    *p,
                ),
                Err(e) => find(self.defs(), namespace, parameter) == Err::<
                    ParameterDef,
                    DecodeError,
                >(e),
            },
    {
        match self.namespace(namespace) {
            None => Err(DecodeError::UnknownNamespace),
            Some(n) => match n.parameter(parameter) {
                None => Err(DecodeError::UnknownParameter),
                Some(p) => Ok(p),
            },
        }
    }
}

/// In a well-formed registry the default of every parameter that can be
/// found has the shape of that parameter's value.
pub proof fn lemma_found_default_typed(registry: Registry, namespace: u32, parameter: u32)
    requires
        registry.wf(),
        find(registry.defs(), namespace, parameter) is Ok,
    ensures
        default_typed(find(registry.defs(), namespace, parameter)->Ok_0),
{
    let defs = registry.defs();
    lemma_find_namespace(defs, namespace);
    let n = find_namespace(defs, namespace)->0;
    lemma_find_parameter(n.parameters@, parameter);
    let p = find_parameter(n.parameters@, parameter)->0;
    let i = choose|i: int| 0 <= i < defs.len() && defs[i] == n;
    let j = choose|j: int| 0 <= j < n.parameters@.len() && n.parameters@[j] == p;
    assert(default_typed(defs[i].parameters@[j]));
}

/// No two parameters of a well-formed registry share both discriminants:
/// the pair of namespace and parameter discriminant names one parameter.
pub proof fn law_identities_unique(registry: Registry, i: int, j: int, m: int, n: int)
    requires
        registry.wf(),
        0 <= i < registry.defs().len(),
        0 <= j < registry.defs()[i].parameters@.len(),
        0 <= m < registry.defs().len(),
        0 <= n < registry.defs()[m].parameters@.len(),
        registry.defs()[i].discriminant == registry.defs()[m].discriminant,
        registry.defs()[i].parameters@[j].discriminant
            == registry.defs()[m].parameters@[n].discriminant,
    ensures
        i == m,
        j == n,
{
    let defs = registry.defs();
    let numbers = namespace_discriminants(defs);
    assert(numbers[i] == numbers[m]);
    assert(i == m);
    let inner = parameter_discriminants(defs[i].parameters@);
    assert(distinct(inner));
    assert(inner[j] == inner[n]);
}

} // verus!

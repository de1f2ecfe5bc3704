//! Rendering of type parameters: the model's own, bare and with their
//! bounds, and those of a single item.

use vstd::prelude::*;
use vstd::string::*;
use crate::ir::{generic_names, param_view, param_views, Item, ItemGeneric, ParamView};
use crate::text::{join_strings, joined, texts};

verus! {

/// A parameter at a place where it is handed on: its name and a comma.
pub open spec fn bare_param(p: ParamView) -> Seq<char> {
    p.name + ", "@
}

/// Each parameter of the model as handed on, in declaration order.
pub open spec fn bare_parts(params: Seq<ParamView>) -> Seq<Seq<char>> {
    params.map_values(|p: ParamView| bare_param(p))
}

/// The model's parameters as handed on: every name followed by a comma.
pub open spec fn bare_params(params: Seq<ParamView>) -> Seq<char> {
    joined(bare_parts(params), ""@)
}

/// A parameter at a place where it is declared: its name, then, where it
/// has bounds, a colon and the bounds joined by `+`, and a comma.
pub open spec fn bounded_param(p: ParamView) -> Seq<char> {
    if p.bounds.len() == 0 {
        p.name + ", "@
    } else {
        p.name + ": "@ + joined(p.bounds, "+"@) + ", "@
    }
}

/// Each parameter of the model as declared, in declaration order.
pub open spec fn bounded_parts(params: Seq<ParamView>) -> Seq<Seq<char>> {
    params.map_values(|p: ParamView| bounded_param(p))
}

/// The model's parameters as declared.
pub open spec fn bounded_params(params: Seq<ParamView>) -> Seq<char> {
    joined(bounded_parts(params), ""@)
}

/// The parameter list behind an item's name: nothing for an item without
/// parameters, else the names between angle brackets, separated by commas.
pub open spec fn item_params(names: Seq<Seq<char>>) -> Seq<char> {
    if names.len() == 0 {
        Seq::empty()
    } else {
        "<"@ + joined(names, ", "@) + ">"@
    }
}

/// Renders the model's type parameters for a place that hands them on.
pub fn trait_generics(generics: &Vec<(String, Vec<String>)>) -> (res: String)
    ensures
        res@ == bare_params(param_views(generics@)),
{
    let mut parts: Vec<String> = Vec::new();
    let mut i: usize = 0;
    while i < generics.len()
        invariant
            i <= generics.len(),
            parts.len() == i,
            forall|j: int| 0 <= j < i ==> parts@[j]@ == bare_param(param_view(generics@[j])),
        decreases generics.len() - i,
    {
        let mut part = generics[i].0.clone();
        part.append(", ");
        parts.push(part);
        i += 1;
    }
    proof {
        assert(texts(parts@) =~= bare_parts(param_views(generics@)));
    }
    join_strings(&parts, "")
}

/// Renders the model's type parameters for a place that declares them.
pub fn trait_generics_and_bounds(generics: &Vec<(String, Vec<String>)>) -> (res: String)
    ensures
        res@ == bounded_params(param_views(generics@)),
{
    let mut parts: Vec<String> = Vec::new();
    let mut i: usize = 0;
    while i < generics.len()
        invariant
            i <= generics.len(),
            parts.len() == i,
            forall|j: int| 0 <= j < i ==> parts@[j]@ == bounded_param(param_view(generics@[j])),
        decreases generics.len() - i,
    {
        let mut part = generics[i].0.clone();
        let bounds = &generics[i].1;
        if bounds.len() != 0 {
            part.append(": ");
            let list = join_strings(bounds, "+");
            part.append(list.as_str());
        }
        part.append(", ");
        parts.push(part);
        i += 1;
    }
    proof {
        assert(texts(parts@) =~= bounded_parts(param_views(generics@)));
    }
    join_strings(&parts, "")
}

/// Renders the parameter list that follows an item's name.
pub fn item_generics(item: &Item) -> (res: String)
    ensures
        res@ == item_params(item@.generics()),
{
    let generics: &[ItemGeneric] = item.generics();
    if generics.len() == 0 {
        String::new()
    } else {
        let mut names: Vec<String> = Vec::new();
        let mut i: usize = 0;
        while i < generics.len()
            invariant
                i <= generics.len(),
                names.len() == i,
                forall|j: int| 0 <= j < i ==> names@[j]@ == generics@[j].name@,
            decreases generics.len() - i,
        {
            names.push(generics[i].name.clone());
            i += 1;
        }
        proof {
            assert(texts(names@) =~= generic_names(generics@));
        }
        let mut out = String::from_str("<");
        let list = join_strings(&names, ", ");
        out.append(list.as_str());
        out.append(">");
        out
    }
}

} // verus!

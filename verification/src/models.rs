//! The models that the server offers and the ones it holds in memory.

use vstd::prelude::*;

verus! {

/// The first model offered when the server could not be asked.
pub open spec fn vision_model() -> Seq<char> {
    "llama3.2-vision:latest"@
}

/// The second model offered when the server could not be asked, and the
/// model of a new conversation when no model is known.
pub open spec fn small_model() -> Seq<char> {
    "llama3.2:1b"@
}

/// The views of a list of names.
pub open spec fn names_view(v: Seq<String>) -> Seq<Seq<char>> {
    v.map_values(|s: String| s@)
}

/// The models offered when the server could not be asked.
pub open spec fn fallback_models() -> Seq<Seq<char>> {
    seq![vision_model(), small_model()]
}

/// The model `"llama3.2-vision:latest"`.
pub fn vision_model_string() -> (r: String)
    ensures
        r@ == vision_model(),
{
    String::from_str("llama3.2-vision:latest")
}

/// The model `"llama3.2:1b"`.
pub fn small_model_string() -> (r: String)
    ensures
        r@ == small_model(),
{
    String::from_str("llama3.2:1b")
}

/// The models offered when the server could not be asked.
pub fn default_model_names() -> (r: Vec<String>)
    ensures
        names_view(r@) == fallback_models(),
{
    let mut v: Vec<String> = Vec::new();
    v.push(vision_model_string());
    v.push(small_model_string());
    assert(names_view(v@) =~= fallback_models());
    v
}

/// The installed models to offer: the names the server listed, or the
/// fallback models when the server could not be asked or listed none.
pub open spec fn offered_models(fetched: Option<Seq<Seq<char>>>) -> Seq<Seq<char>> {
    match fetched {
        Some(names) => if names.len() > 0 {
            names
        } else {
            fallback_models()
        },
        None => fallback_models(),
    }
}

/// The installed models to offer, given the names the server listed
/// (`None` when the request or its decoding failed).
pub fn model_names_or_fallback(fetched: Option<Vec<String>>) -> (r: Vec<String>)
    ensures
        names_view(r@) == offered_models(
            match fetched {
                Some(v) => Some(names_view(v@)),
                None => None,
            },
        ),
{
    match fetched {
        Some(names) => {
            if names.len() > 0 {
                names
            } else {
                default_model_names()
            }
        },
        None => default_model_names(),
    }
}

/// Whether `name` is among `names`.
pub fn contains_name(names: &Vec<String>, name: &String) -> (r: bool)
    ensures
        r == names_view(names@).contains(name@),
{
    let mut i: usize = 0;
    while i < names.len()
        invariant
            i <= names@.len(),
            forall|j: int| 0 <= j < i ==> names@[j]@ != name@,
        decreases names@.len() - i,
    {
        if names[i] == *name {
            assert(names_view(names@)[i as int] == name@);
            return true;
        }
        i = i + 1;
    }
    proof {
        if names_view(names@).contains(name@) {
            let k = choose|k: int| 0 <= k < names_view(names@).len() && names_view(names@)[k] == name@;
            assert(names@[k]@ == name@);
        }
    }
    false
}

/// The model of a new conversation: the first offered model, or
/// `"llama3.2:1b"` when none is offered.
pub open spec fn model_for_new_chat(available: Seq<Seq<char>>) -> Seq<char> {
    if available.len() > 0 {
        available[0]
    } else {
        small_model()
    }
}

/// The model of a new conversation.
pub fn fallback_model(available: &Vec<String>) -> (r: String)
    ensures
        r@ == model_for_new_chat(names_view(available@)),
{
    if available.len() > 0 {
        available[0].clone()
    } else {
        small_model_string()
    }
}

/// A model the server holds in memory, with its size and the part of it
/// that sits in video memory, in bytes.
pub struct RunningModel {
    pub name: String,
    pub size: u64,
    pub size_vram: u64,
}

/// What a running model entry holds, as values.
pub struct RunningModelView {
    pub name: Seq<char>,
    pub size: u64,
    pub size_vram: u64,
}

impl View for RunningModel {
    type V = RunningModelView;

    open spec fn view(&self) -> RunningModelView {
        RunningModelView { name: self.name@, size: self.size, size_vram: self.size_vram }
    }
}

impl Clone for RunningModel {
    fn clone(&self) -> (r: Self)
        ensures
            r == *self,
    {
        RunningModel { name: self.name.clone(), size: self.size, size_vram: self.size_vram }
    }
}

/// The views of a list of running models.
pub open spec fn running_view(v: Seq<RunningModel>) -> Seq<RunningModelView> {
    v.map_values(|m: RunningModel| m@)
}

/// The models in memory: the list the server gave, or none when it could
/// not be asked.
pub fn running_models_or_empty(fetched: Option<Vec<RunningModel>>) -> (r: Vec<RunningModel>)
    ensures
        running_view(r@) == match fetched {
            Some(v) => running_view(v@),
            None => Seq::empty(),
        },
{
    match fetched {
        Some(v) => v,
        None => {
            let r: Vec<RunningModel> = Vec::new();
            assert(running_view(r@) =~= Seq::empty());
            r
        },
    }
}

} // verus!

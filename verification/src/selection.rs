//! The data a setup run works on: the user's model selections and the
//! resolved setup configuration, plus the pure decision helpers of the
//! interactive flow (hardware-tier model recommendation and option-label
//! handling).

use vstd::prelude::*;

verus! {

use vstd::string::*;
use crate::text::{first_pair_index, find_pair};

/// One model the user wants served: a model identifier plus an optional
/// quantization tag.
#[derive(Clone, Debug)]
pub struct ModelSelection {
    pub name: String,
    pub quant: Option<String>,
}

/// Mathematical view of a selection: its name and tag as character
/// sequences.
pub ghost struct SelectionView {
    pub name: Seq<char>,
    pub quant: Option<Seq<char>>,
}

impl View for ModelSelection {
    type V = SelectionView;

    open spec fn view(&self) -> SelectionView {
        SelectionView { name: self.name@, quant: crate::resolver::opt_str_view(self.quant) }
    }
}

/// The resolved setup: selected models, run mode, skills, target directory
/// for model weights, and the host port for the serving endpoint.
#[derive(Clone, Debug)]
pub struct SetupConfig {
    pub models: Vec<ModelSelection>,
    pub run_in_docker: bool,
    pub selected_skills: Vec<String>,
    pub models_dir: String,
    pub port: u16,
}

/// Coarse tier of the detected hardware.
#[derive(Clone, Copy, Debug, PartialEq, Eq, Structural)]
pub enum ComputeCapability {
    Low,
    Medium,
    High,
    Ultra,
}

/// Model identifier recommended for a machine with `vram_gb` gigabytes of
/// video memory (rounded down to whole gigabytes).
pub open spec fn recommended_for(vram_gb: int) -> Seq<char> {
    if vram_gb >= 24 {
        "llama3-70b-instruct"@
    } else if vram_gb >= 16 {
        "mixtral-8x7b-instruct"@
    } else if vram_gb >= 8 {
        "llama3-8b-instruct"@
    } else {
        "phi3-mini"@
    }
}

/// Picks the default model for the detected amount of video memory.
pub fn recommended_model_for_vram(vram_gb: u32) -> (r: &'static str)
    ensures
        r@ == recommended_for(vram_gb as int),
{
    if vram_gb >= 24 {
        "llama3-70b-instruct"
    } else if vram_gb >= 16 {
        "mixtral-8x7b-instruct"
    } else if vram_gb >= 8 {
        "llama3-8b-instruct"
    } else {
        "phi3-mini"
    }
}

/// Selections for a list of model names given directly (no quantization
/// tags), keeping the order of the list.
pub fn selections_from_names(names: &Vec<String>) -> (r: Vec<ModelSelection>)
    ensures
        r@.len() == names@.len(),
        forall|i: int|
            0 <= i < names@.len() ==> (#[trigger] r@[i])@.name == names@[i]@ && r@[i]@.quant
                is None,
{
    let mut out: Vec<ModelSelection> = Vec::new();
    let n = names.len();
    for k in 0..n
        invariant
            n == names@.len(),
            out@.len() == k,
            forall|i: int|
                0 <= i < k ==> (#[trigger] out@[i])@.name == names@[i]@ && out@[i]@.quant is None,
    {
        out.push(ModelSelection { name: names[k].clone(), quant: None });
    }
    out
}

/// The model name shown in a selection option label: everything before the
/// first `" ("`, or the whole label when it has none.
pub open spec fn label_name(s: Seq<char>) -> Seq<char> {
    let i = first_pair_index(s, ' ', '(');
    if i == -1 {
        s
    } else {
        s.subrange(0, i)
    }
}

/// Strips the ` (Score: ..., Quant: ...)` suffix from a displayed option
/// label, returning the bare model name.
pub fn strip_label_suffix<'a>(label: &'a str) -> (r: &'a str)
    ensures
        r@ == label_name(label@),
{
    let n = label.unicode_len();
    match find_pair(label, ' ', '(') {
        None => label,
        Some(i) => {
            proof {
                crate::text::lemma_first_pair_index(label@, ' ', '(');
            }
            label.substring_char(0, i)
        },
    }
}

} // verus!

//! Routing configuration: the declarative multi-model serving document and
//! the grouping heuristic for persistent low-latency models.
//!
//! The generated document has one entry per selected model, in the order of
//! the input list, each holding the launch command for the serving binary,
//! and an optional group of models that must stay resident once loaded.

use vstd::prelude::*;

verus! {

use vstd::string::*;
use crate::text::{contains_seq, lower_seq, contains_str_lower, str_views};
use crate::resolver::{resolved_repo, resolved_file, extract_hf_repo_and_file};
use crate::selection::{ModelSelection, SelectionView};

/// The persistent-group heuristic: the name contains (case-insensitively)
/// one of a few tokens marking a small, fast model.
#[verifier::opaque]
pub open spec fn is_autocomplete(name: Seq<char>) -> bool {
    ||| contains_seq(lower_seq(name), "mini"@)
    ||| contains_seq(lower_seq(name), "coder"@)
    ||| contains_seq(lower_seq(name), "1.5b"@)
    ||| contains_seq(lower_seq(name), "2b"@)
    ||| contains_seq(lower_seq(name), "0.5b"@)
}

/// Does this model belong to the persistent autocomplete group?
pub fn is_autocomplete_model(model_name: &str) -> (r: bool)
    ensures
        r == is_autocomplete(model_name@),
{
    proof {
        reveal(is_autocomplete);
    }
    contains_str_lower(model_name, "mini") || contains_str_lower(model_name, "coder")
        || contains_str_lower(model_name, "1.5b") || contains_str_lower(model_name, "2b")
        || contains_str_lower(model_name, "0.5b")
}

/// Views of a selection list, in order.
pub open spec fn views_of(ms: Seq<ModelSelection>) -> Seq<SelectionView> {
    ms.map_values(|m: ModelSelection| m@)
}

/// `--hf-repo` flag text for one model; empty when the resolved repository
/// reference is empty (a malformed empty flag must never appear).
pub open spec fn repo_flag(m: SelectionView) -> Seq<char> {
    if resolved_repo(m.name, m.quant).len() == 0 {
        Seq::<char>::empty()
    } else {
        "--hf-repo "@ + resolved_repo(m.name, m.quant)
    }
}

/// `--hf-file` flag text for one model.
pub open spec fn file_flag(m: SelectionView) -> Seq<char> {
    "--hf-file "@ + resolved_file(m.name, m.quant)
}

/// The document entry for one model: its name and the launch command.
pub open spec fn model_entry(m: SelectionView) -> Seq<char> {
    "  "@ + m.name + ":\n    cmd: llama-server --port ${PORT} "@ + repo_flag(m) + " "@ + file_flag(
        m,
    ) + " --host 0.0.0.0 --ctx-size 8192\n"@
}

/// All model entries, concatenated in input order.
pub open spec fn model_entries(ms: Seq<SelectionView>) -> Seq<char>
    decreases ms.len(),
{
    if ms.len() == 0 {
        Seq::<char>::empty()
    } else {
        model_entries(ms.drop_last()) + model_entry(ms.last())
    }
}

/// The names of the selections that fall into the persistent group, in
/// input order.
pub open spec fn autocomplete_members(ms: Seq<SelectionView>) -> Seq<Seq<char>>
    decreases ms.len(),
{
    if ms.len() == 0 {
        Seq::<Seq<char>>::empty()
    } else {
        autocomplete_members(ms.drop_last()) + (if is_autocomplete(ms.last().name) {
            seq![ms.last().name]
        } else {
            Seq::<Seq<char>>::empty()
        })
    }
}

/// The member list lines of the group section.
pub open spec fn member_lines(names: Seq<Seq<char>>) -> Seq<char>
    decreases names.len(),
{
    if names.len() == 0 {
        Seq::<char>::empty()
    } else {
        member_lines(names.drop_last()) + "      - "@ + names.last() + "\n"@
    }
}

/// The group section: present only when at least one selection belongs to
/// the persistent group.
pub open spec fn groups_section(ms: Seq<SelectionView>) -> Seq<char> {
    if autocomplete_members(ms).len() == 0 {
        Seq::<char>::empty()
    } else {
        "\ngroups:\n  autocomplete:\n    persistent: true\n    swap: false\n    exclusive: false\n    members:\n"@
            + member_lines(autocomplete_members(ms))
    }
}

/// The whole routing document for a selection list.
pub open spec fn routing_config(ms: Seq<SelectionView>) -> Seq<char> {
    "models:\n"@ + model_entries(ms) + groups_section(ms)
}

/// Model entries are a homomorphism over list concatenation: the document
/// lists the entry of every selection, in exactly the input order.
pub proof fn lemma_model_entries_concat(a: Seq<SelectionView>, b: Seq<SelectionView>)
    ensures
        model_entries(a + b) == model_entries(a) + model_entries(b),
    decreases b.len(),
{
    if b.len() == 0 {
        assert(a + b =~= a);
        assert(model_entries(a) + model_entries(b) =~= model_entries(a));
    } else {
        lemma_model_entries_concat(a, b.drop_last());
        assert((a + b).drop_last() =~= a + b.drop_last());
        assert((a + b).last() == b.last());
        assert(model_entries(a) + model_entries(b.drop_last()) + model_entry(b.last())
            =~= model_entries(a) + (model_entries(b.drop_last()) + model_entry(b.last())));
    }
}

/// Generating twice from the same selections yields the identical document:
/// the output is a function of the input list alone.
pub proof fn lemma_routing_config_deterministic(ms1: Seq<SelectionView>, ms2: Seq<SelectionView>)
    requires
        ms1 == ms2,
    ensures
        routing_config(ms1) == routing_config(ms2),
{
}

/// The model name the downstream tool should use for standard chat: the
/// first selection outside the autocomplete group whose name is not the
/// placeholder `default`, or `default` when there is none.
pub open spec fn provider_standard(ms: Seq<SelectionView>) -> Seq<char>
    decreases ms.len(),
{
    if ms.len() == 0 {
        "default"@
    } else if !is_autocomplete(ms.first().name) && ms.first().name != "default"@ {
        ms.first().name
    } else {
        provider_standard(ms.drop_first())
    }
}

/// The model name the downstream tool should use for tab autocompletion:
/// the first selection inside the autocomplete group, if any.
pub open spec fn provider_autocomplete(ms: Seq<SelectionView>) -> Option<Seq<char>>
    decreases ms.len(),
{
    if ms.len() == 0 {
        None
    } else if is_autocomplete(ms.first().name) {
        Some(ms.first().name)
    } else {
        provider_autocomplete(ms.drop_first())
    }
}

proof fn lemma_provider_standard_push(ms: Seq<SelectionView>, x: SelectionView)
    ensures
        provider_standard(ms.push(x)) == (if provider_standard(ms) == "default"@
            && !is_autocomplete(x.name) && x.name != "default"@ {
            x.name
        } else {
            provider_standard(ms)
        }),
    decreases ms.len(),
{
    if ms.len() == 0 {
        assert(ms.push(x)[0] == x);
        assert(ms.push(x).drop_first() =~= Seq::<SelectionView>::empty());
        assert(provider_standard(Seq::<SelectionView>::empty()) == "default"@);
        assert(provider_standard(ms) == "default"@);
    } else {
        assert(ms.push(x).first() == ms.first());
        assert(ms.push(x).drop_first() =~= ms.drop_first().push(x));
        lemma_provider_standard_push(ms.drop_first(), x);
    }
}

proof fn lemma_provider_autocomplete_push(ms: Seq<SelectionView>, x: SelectionView)
    ensures
        provider_autocomplete(ms.push(x)) == (if provider_autocomplete(ms) is Some {
            provider_autocomplete(ms)
        } else if is_autocomplete(x.name) {
            Some(x.name)
        } else {
            None
        }),
    decreases ms.len(),
{
    if ms.len() == 0 {
        assert(ms.push(x)[0] == x);
        assert(ms.push(x).drop_first() =~= Seq::<SelectionView>::empty());
        assert(provider_autocomplete(Seq::<SelectionView>::empty()) is None);
        assert(provider_autocomplete(ms) is None);
    } else {
        assert(ms.push(x).first() == ms.first());
        assert(ms.push(x).drop_first() =~= ms.drop_first().push(x));
        lemma_provider_autocomplete_push(ms.drop_first(), x);
    }
}

/// Picks the standard and autocompletion model names for the downstream
/// tool's provider configuration.
#[verifier::rlimit(100)]
#[verifier::spinoff_prover]
pub fn select_provider_models(models: &Vec<ModelSelection>) -> (r: (String, Option<String>))
    ensures
        r.0@ == provider_standard(views_of(models@)),
        crate::resolver::opt_str_view(r.1) == provider_autocomplete(views_of(models@)),
{
    let ghost vs = views_of(models@);
    let mut standard = String::from_str("default");
    let mut auto: Option<String> = None;
    let n = models.len();
    proof {
        assert(vs.take(0) =~= Seq::<SelectionView>::empty());
        assert(provider_standard(vs.take(0)) == "default"@);
        assert(provider_autocomplete(vs.take(0)) is None);
    }
    for k in 0..n
        invariant
            n == models@.len(),
            vs == views_of(models@),
            vs.len() == n,
            standard@ == provider_standard(vs.take(k as int)),
            crate::resolver::opt_str_view(auto) == provider_autocomplete(vs.take(k as int)),
    {
        let m = &models[k];
        proof {
            assert(vs[k as int] == m@);
        }
        if is_autocomplete_model(m.name.as_str()) {
            if auto.is_none() {
                auto = Some(m.name.clone());
            }
        } else if crate::text::str_eq(standard.as_str(), "default") {
            standard = m.name.clone();
        }
        proof {
            let tk = vs.take(k as int);
            let tk1 = vs.take(k + 1);
            assert(tk1 =~= tk.push(vs[k as int]));
            lemma_provider_standard_push(tk, vs[k as int]);
            lemma_provider_autocomplete_push(tk, vs[k as int]);
            assert(standard@ == provider_standard(tk1));
            assert(crate::resolver::opt_str_view(auto) == provider_autocomplete(tk1));
        }
    }
    proof {
        assert(vs.take(n as int) =~= vs);
    }
    (standard, auto)
}

/// Builds the routing document for the given selections.
pub fn generate_routing_config(models: &Vec<ModelSelection>) -> (r: String)
    ensures
        r@ == routing_config(views_of(models@)),
{
    let ghost vs = views_of(models@);
    let mut yaml = String::from_str("models:\n");
    let mut members: Vec<String> = Vec::new();
    let n = models.len();
    for k in 0..n
        invariant
            n == models@.len(),
            vs == views_of(models@),
            vs.len() == n,
            yaml@ == "models:\n"@ + model_entries(vs.take(k as int)),
            str_views(members@) == autocomplete_members(vs.take(k as int)),
    {
        let m = &models[k];
        proof {
            assert(vs[k as int] == m@);
        }
        let (repo, file) = extract_hf_repo_and_file(m.name.as_str(), &m.quant);
        yaml.append("  ");
        yaml.append(m.name.as_str());
        yaml.append(":\n    cmd: llama-server --port ${PORT} ");
        if !repo.as_str().is_empty() {
            yaml.append("--hf-repo ");
            yaml.append(repo.as_str());
        }
        yaml.append(" ");
        match &file {
            Some(f) => {
                yaml.append("--hf-file ");
                yaml.append(f.as_str());
            },
            None => {},
        }
        yaml.append(" --host 0.0.0.0 --ctx-size 8192\n");
        if is_autocomplete_model(m.name.as_str()) {
            members.push(m.name.clone());
        }
        proof {
            assert(vs.take(k + 1).drop_last() =~= vs.take(k as int));
            assert(vs.take(k + 1).last() == vs[k as int]);
            assert(model_entries(vs.take(k + 1)) == model_entries(vs.take(k as int)) + model_entry(
                vs[k as int],
            ));
            assert(yaml@ =~= "models:\n"@ + model_entries(vs.take(k + 1)));
            if is_autocomplete(vs[k as int].name) {
                assert(str_views(members@) =~= autocomplete_members(vs.take(k + 1)));
            } else {
                assert(str_views(members@) =~= autocomplete_members(vs.take(k + 1)));
            }
        }
    }
    proof {
        assert(vs.take(n as int) =~= vs);
    }
    let nm = members.len();
    if nm > 0 {
        yaml.append(
            "\ngroups:\n  autocomplete:\n    persistent: true\n    swap: false\n    exclusive: false\n    members:\n",
        );
        let ghost mem = autocomplete_members(vs);
        for k in 0..nm
            invariant
                nm == members@.len(),
                mem == autocomplete_members(vs),
                str_views(members@) == mem,
                nm == mem.len(),
                0 < mem.len(),
                yaml@ == "models:\n"@ + model_entries(vs)
                    + "\ngroups:\n  autocomplete:\n    persistent: true\n    swap: false\n    exclusive: false\n    members:\n"@
                    + member_lines(mem.take(k as int)),
        {
            yaml.append("      - ");
            yaml.append(members[k].as_str());
            yaml.append("\n");
            proof {
                assert(mem.take(k + 1).drop_last() =~= mem.take(k as int));
                assert(mem.take(k + 1).last() == mem[k as int]);
                assert(mem[k as int] == members@[k as int]@);
                assert(yaml@ =~= "models:\n"@ + model_entries(vs)
                    + "\ngroups:\n  autocomplete:\n    persistent: true\n    swap: false\n    exclusive: false\n    members:\n"@
                    + member_lines(mem.take(k + 1)));
            }
        }
        proof {
            assert(mem.take(nm as int) =~= mem);
            assert(yaml@ =~= routing_config(vs));
        }
    } else {
        proof {
            assert(autocomplete_members(vs).len() == 0);
            assert(yaml@ =~= routing_config(vs));
        }
    }
    yaml
}

} // verus!

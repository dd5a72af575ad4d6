//! The environment that the gateway runs in.
use crate::text::same_text;
use vstd::prelude::*;
use vstd::string::*;

verus! {

/// Whether a variable holds the key of a remote model provider.
pub open spec fn provider_key(name: Seq<char>) -> bool {
    ||| name == "ANTHROPIC_API_KEY"@
    ||| name == "ANTHROPIC_OAUTH_TOKEN"@
    ||| name == "OPENAI_API_KEY"@
    ||| name == "GEMINI_API_KEY"@
    ||| name == "MISTRAL_API_KEY"@
    ||| name == "GROQ_API_KEY"@
    ||| name == "XAI_API_KEY"@
    ||| name == "OPENROUTER_API_KEY"@
}

/// The variables that do not hold the key of a remote provider, in order.
pub open spec fn without_provider_keys(vars: Seq<(String, String)>) -> Seq<(String, String)> {
    vars.filter(|var: (String, String)| !provider_key(var.0@))
}

/// The variables that the gateway gets to see.
pub open spec fn gateway_vars(
    vars: Seq<(String, String)>,
    inject_local_model: bool,
) -> Seq<(String, String)> {
    if inject_local_model {
        without_provider_keys(vars)
    } else {
        vars
    }
}

/// Whether a variable holds the key of a remote model provider.
fn is_provider_key(name: &str) -> (found: bool)
    ensures
        found == provider_key(name@),
{
    same_text(name, "ANTHROPIC_API_KEY") || same_text(name, "ANTHROPIC_OAUTH_TOKEN") || same_text(
        name,
        "OPENAI_API_KEY",
    ) || same_text(name, "GEMINI_API_KEY") || same_text(name, "MISTRAL_API_KEY") || same_text(
        name,
        "GROQ_API_KEY",
    ) || same_text(name, "XAI_API_KEY") || same_text(name, "OPENROUTER_API_KEY")
}

/// The environment for the gateway. With a local model injected, the keys of
/// remote providers are taken out; every other variable is passed on.
pub fn filtered_openclaw_env(vars: Vec<(String, String)>, inject_local_model: bool) -> (kept: Vec<
    (String, String),
>)
    ensures
        kept@ == gateway_vars(vars@, inject_local_model),
{
    if !inject_local_model {
        return vars;
    }
    let ghost keep = |var: (String, String)| !provider_key(var.0@);
    let mut kept: Vec<(String, String)> = Vec::new();
    let mut i: usize = 0;
    while i < vars.len()
        invariant
            i <= vars@.len(),
            keep == |var: (String, String)| !provider_key(var.0@),
            kept@ == vars@.take(i as int).filter(keep),
        decreases vars@.len() - i,
    {
        let var = &vars[i];
        proof {
            reveal(Seq::filter);
            assert(vars@.take(i + 1).drop_last() == vars@.take(i as int));
        }
        if !is_provider_key(var.0.as_str()) {
            kept.push((var.0.clone(), var.1.clone()));
        }
        i = i + 1;
    }
    assert(vars@.take(i as int) == vars@);
    kept
}

/// With a local model injected, no key of a remote provider reaches the gateway.
pub proof fn law_no_provider_key_reaches_gateway(vars: Seq<(String, String)>, i: int)
    requires
        0 <= i < gateway_vars(vars, true).len(),
    ensures
        !provider_key(gateway_vars(vars, true)[i].0@),
{
    vars.lemma_filter_pred(|var: (String, String)| !provider_key(var.0@), i);
}

/// A variable that holds no key of a remote provider always reaches the
/// gateway, with its value.
pub proof fn law_other_variables_reach_gateway(
    vars: Seq<(String, String)>,
    inject_local_model: bool,
    i: int,
)
    requires
        0 <= i < vars.len(),
        !provider_key(vars[i].0@),
    ensures
        gateway_vars(vars, inject_local_model).contains(vars[i]),
{
    if inject_local_model {
        vars.lemma_filter_contains(|var: (String, String)| !provider_key(var.0@), i);
    }
}

/// The gateway sees no variable that was not there before.
pub proof fn law_gateway_gets_nothing_new(
    vars: Seq<(String, String)>,
    inject_local_model: bool,
    var: (String, String),
)
    requires
        gateway_vars(vars, inject_local_model).contains(var),
    ensures
        vars.contains(var),
    decreases vars.len(),
{
    if inject_local_model {
        reveal(Seq::filter);
        if vars.len() > 0 {
            let rest = vars.drop_last();
            if without_provider_keys(rest).contains(var) {
                law_gateway_gets_nothing_new(rest, true, var);
                let i = choose|i: int| 0 <= i < rest.len() && rest[i] == var;
                assert(vars[i] == var);
            } else {
                let i = choose|i: int|
                    0 <= i < without_provider_keys(vars).len() && without_provider_keys(vars)[i]
                        == var;
                if i < without_provider_keys(rest).len() {
                    assert(without_provider_keys(rest)[i] == var);
                }
                assert(vars.last() == var);
            }
        }
    }
}

/// Filtering the environment once more changes nothing.
pub proof fn law_filtering_twice_is_filtering_once(vars: Seq<(String, String)>)
    ensures
        without_provider_keys(without_provider_keys(vars)) == without_provider_keys(vars),
{
    let kept = without_provider_keys(vars);
    assert forall|i: int| 0 <= i < kept.len() implies !provider_key(#[trigger] kept[i].0@) by {
        law_no_provider_key_reaches_gateway(vars, i);
    }
    lemma_nothing_to_filter(kept);
}

/// Where no variable holds a provider's key, filtering keeps them all.
proof fn lemma_nothing_to_filter(vars: Seq<(String, String)>)
    requires
        forall|i: int| 0 <= i < vars.len() ==> !provider_key(#[trigger] vars[i].0@),
    ensures
        without_provider_keys(vars) == vars,
    decreases vars.len(),
{
    reveal(Seq::filter);
    if vars.len() > 0 {
        let rest = vars.drop_last();
        assert forall|i: int| 0 <= i < rest.len() implies !provider_key(#[trigger] rest[i].0@) by {
            assert(rest[i] == vars[i]);
        }
        lemma_nothing_to_filter(rest);
        assert(!provider_key(vars[vars.len() - 1].0@));
        assert(rest.push(vars.last()) =~= vars);
    }
}

/// The variables that are kept from the gateway, once a local model is injected,
/// are exactly those of these eight names: none of them reaches it, and every
/// other one does, each as often as it was there and in the order in which they
/// were. Without a local model all of them reach it.
pub proof fn law_gateway_misses_eight_names_only(
    vars: Seq<(String, String)>,
    var: (String, String),
    more: Seq<(String, String)>,
)
    ensures
        ({
            let name = var.0@;
            let key = name == "ANTHROPIC_API_KEY"@ || name == "ANTHROPIC_OAUTH_TOKEN"@ || name
                == "OPENAI_API_KEY"@ || name == "GEMINI_API_KEY"@ || name == "MISTRAL_API_KEY"@
                || name == "GROQ_API_KEY"@ || name == "XAI_API_KEY"@ || name
                == "OPENROUTER_API_KEY"@;
            &&& gateway_vars(vars, true).contains(var) <==> vars.contains(var) && !key
            &&& gateway_vars(seq![var], true) == if key {
                Seq::<(String, String)>::empty()
            } else {
                seq![var]
            }
        }),
        gateway_vars(vars + more, true) == gateway_vars(vars, true) + gateway_vars(more, true),
        gateway_vars(Seq::empty(), true).len() == 0,
        gateway_vars(vars, false) == vars,
{
    let keep = |v: (String, String)| !provider_key(v.0@);
    if gateway_vars(vars, true).contains(var) {
        law_gateway_gets_nothing_new(vars, true, var);
        let i = choose|i: int|
            0 <= i < gateway_vars(vars, true).len() && gateway_vars(vars, true)[i] == var;
        law_no_provider_key_reaches_gateway(vars, i);
    }
    if vars.contains(var) && !provider_key(var.0@) {
        let i = choose|i: int| 0 <= i < vars.len() && vars[i] == var;
        law_other_variables_reach_gateway(vars, true, i);
    }
    Seq::filter_distributes_over_add(vars, more, keep);
    reveal(Seq::filter);
    let one = seq![var];
    assert(one.drop_last() =~= Seq::<(String, String)>::empty());
    assert(one.drop_last().filter(keep) =~= Seq::<(String, String)>::empty());
    assert(one.last() == var);
    assert(gateway_vars(one, true) == one.filter(keep));
    if keep(var) {
        assert(one.filter(keep) =~= one);
    }
}

/// What the environment is filtered to is what the gateway gets to see: whatever
/// the filter hands back holds a variable exactly if it was there and, with a
/// local model injected, goes by none of the eight names.
pub proof fn law_filter_decides_by_name(
    vars: Vec<(String, String)>,
    inject_local_model: bool,
    kept: Vec<(String, String)>,
    var: (String, String),
)
    requires
        call_ensures(filtered_openclaw_env, (vars, inject_local_model), kept),
    ensures
        !inject_local_model ==> kept@ == vars@,
        kept@.contains(var) <==> vars@.contains(var) && (inject_local_model ==> {
            let name = var.0@;
            &&& name != "ANTHROPIC_API_KEY"@ && name != "ANTHROPIC_OAUTH_TOKEN"@
            &&& name != "OPENAI_API_KEY"@ && name != "GEMINI_API_KEY"@
            &&& name != "MISTRAL_API_KEY"@ && name != "GROQ_API_KEY"@
            &&& name != "XAI_API_KEY"@ && name != "OPENROUTER_API_KEY"@
        }),
{
    law_gateway_misses_eight_names_only(vars@, var, vars@);
}

} // verus!

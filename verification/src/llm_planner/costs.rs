//! What a turn spends, model by model.

use vstd::prelude::*;
use crate::outcome::{no_usage, usage_fits, usage_plus, LlmUsage, TokenUsage};
use crate::text::same_text;

verus! {

/// The spending of each model, by the model's name.
pub open spec fn costs_view(v: Seq<(String, TokenUsage)>) -> Seq<(Seq<char>, TokenUsage)> {
    v.map_values(|e: (String, TokenUsage)| (e.0@, e.1))
}

/// The costs with a step of `model` on top: added to the model's entry, or a
/// new entry behind the others.
pub open spec fn cost_added(
    costs: Seq<(Seq<char>, TokenUsage)>,
    model: Seq<char>,
    step: LlmUsage,
) -> Seq<(Seq<char>, TokenUsage)>
    decreases costs.len(),
{
    if costs.len() == 0 {
        seq![(model, usage_plus(no_usage(), step))]
    } else if costs[0].0 == model {
        seq![(model, usage_plus(costs[0].1, step))] + costs.drop_first()
    } else {
        seq![costs[0]] + cost_added(costs.drop_first(), model, step)
    }
}

/// The four token counters, as they are added up.
pub ghost struct Spent {
    pub input: int,
    pub output: int,
    pub cache_creation: int,
    pub cache_read: int,
}

/// What a usage has spent.
pub open spec fn spent(u: TokenUsage) -> Spent {
    Spent {
        input: u.input_tokens as int,
        output: u.output_tokens as int,
        cache_creation: u.cache_creation_input_tokens as int,
        cache_read: u.cache_read_input_tokens as int,
    }
}

/// What all models together have spent.
pub open spec fn spent_by_all(costs: Seq<(Seq<char>, TokenUsage)>) -> Spent
    decreases costs.len(),
{
    if costs.len() == 0 {
        spent(no_usage())
    } else {
        let rest = spent_by_all(costs.drop_first());
        let first = spent(costs[0].1);
        Spent {
            input: first.input + rest.input,
            output: first.output + rest.output,
            cache_creation: first.cache_creation + rest.cache_creation,
            cache_read: first.cache_read + rest.cache_read,
        }
    }
}

/// Whether the costs are those of `usage`: each model has one entry, and the
/// entries add up.
pub open spec fn costs_are(costs: Seq<(Seq<char>, TokenUsage)>, usage: TokenUsage) -> bool {
    &&& spent_by_all(costs) == spent(usage)
    &&& forall|i: int, j: int|
        0 <= i < j < costs.len() ==> (#[trigger] costs[i]).0 != (#[trigger] costs[j]).0
}

proof fn lemma_spent_is_not_negative(costs: Seq<(Seq<char>, TokenUsage)>)
    ensures
        spent_by_all(costs).input >= 0,
        spent_by_all(costs).output >= 0,
        spent_by_all(costs).cache_creation >= 0,
        spent_by_all(costs).cache_read >= 0,
    decreases costs.len(),
{
    if costs.len() > 0 {
        lemma_spent_is_not_negative(costs.drop_first());
    }
}

/// No model has spent more than all together.
pub proof fn lemma_each_is_within_the_total(costs: Seq<(Seq<char>, TokenUsage)>, i: int)
    requires
        0 <= i < costs.len(),
    ensures
        costs[i].1.input_tokens <= spent_by_all(costs).input,
        costs[i].1.output_tokens <= spent_by_all(costs).output,
        costs[i].1.cache_creation_input_tokens <= spent_by_all(costs).cache_creation,
        costs[i].1.cache_read_input_tokens <= spent_by_all(costs).cache_read,
    decreases costs.len(),
{
    lemma_spent_is_not_negative(costs.drop_first());
    if i > 0 {
        lemma_each_is_within_the_total(costs.drop_first(), i - 1);
    }
}

proof fn lemma_cost_added(costs: Seq<(Seq<char>, TokenUsage)>, model: Seq<char>, step: LlmUsage)
    requires
        spent_by_all(costs).input + step.input_tokens <= u32::MAX,
        spent_by_all(costs).output + step.output_tokens <= u32::MAX,
        spent_by_all(costs).cache_creation + step.cache_creation_input_tokens <= u32::MAX,
        spent_by_all(costs).cache_read + step.cache_read_input_tokens <= u32::MAX,
    ensures
        spent_by_all(cost_added(costs, model, step)) == (Spent {
            input: spent_by_all(costs).input + step.input_tokens,
            output: spent_by_all(costs).output + step.output_tokens,
            cache_creation: spent_by_all(costs).cache_creation + step.cache_creation_input_tokens,
            cache_read: spent_by_all(costs).cache_read + step.cache_read_input_tokens,
        }),
        forall|i: int|
            0 <= i < cost_added(costs, model, step).len() ==> (#[trigger] cost_added(
                costs,
                model,
                step,
            )[i]).0 == model || exists|k: int|
                0 <= k < costs.len() && (#[trigger] costs[k]).0 == cost_added(
                    costs,
                    model,
                    step,
                )[i].0,
    decreases costs.len(),
{
    let r = cost_added(costs, model, step);
    lemma_spent_is_not_negative(costs);
    if costs.len() == 0 {
        assert(r.drop_first() =~= Seq::empty());
        assert(spent_by_all(r.drop_first()) == spent(no_usage()));
    } else {
        let rest = costs.drop_first();
        lemma_spent_is_not_negative(rest);
        if costs[0].0 == model {
            assert(r.drop_first() =~= rest);
            assert forall|i: int| 0 <= i < r.len() implies (#[trigger] r[i]).0 == model
                || exists|k: int| 0 <= k < costs.len() && (#[trigger] costs[k]).0 == r[i].0 by {
                if i > 0 {
                    assert(r[i] == costs[i]);
                }
            }
        } else {
            lemma_cost_added(rest, model, step);
            let s = cost_added(rest, model, step);
            assert(r.drop_first() =~= s);
            assert forall|i: int| 0 <= i < r.len() implies (#[trigger] r[i]).0 == model
                || exists|k: int| 0 <= k < costs.len() && (#[trigger] costs[k]).0 == r[i].0 by {
                if i == 0 {
                    assert(costs[0].0 == r[i].0);
                } else {
                    assert(r[i] == s[i - 1]);
                    if s[i - 1].0 != model {
                        let k = choose|k: int|
                            0 <= k < rest.len() && (#[trigger] rest[k]).0 == s[i - 1].0;
                        assert(costs[k + 1] == rest[k]);
                    }
                }
            }
        }
    }
}

proof fn lemma_models_stay_distinct(
    costs: Seq<(Seq<char>, TokenUsage)>,
    model: Seq<char>,
    step: LlmUsage,
)
    requires
        forall|i: int, j: int|
            0 <= i < j < costs.len() ==> (#[trigger] costs[i]).0 != (#[trigger] costs[j]).0,
        spent_by_all(costs).input + step.input_tokens <= u32::MAX,
        spent_by_all(costs).output + step.output_tokens <= u32::MAX,
        spent_by_all(costs).cache_creation + step.cache_creation_input_tokens <= u32::MAX,
        spent_by_all(costs).cache_read + step.cache_read_input_tokens <= u32::MAX,
    ensures
        forall|i: int, j: int|
            0 <= i < j < cost_added(costs, model, step).len() ==> (#[trigger] cost_added(
                costs,
                model,
                step,
            )[i]).0 != (#[trigger] cost_added(costs, model, step)[j]).0,
    decreases costs.len(),
{
    let r = cost_added(costs, model, step);
    if costs.len() > 0 {
        let rest = costs.drop_first();
        lemma_spent_is_not_negative(rest);
        assert forall|i: int, j: int| 0 <= i < j < rest.len() implies (#[trigger] rest[i]).0 != (
        #[trigger] rest[j]).0 by {
            assert(costs[i + 1].0 != costs[j + 1].0);
        }
        if costs[0].0 == model {
            assert forall|i: int, j: int| 0 <= i < j < r.len() implies (#[trigger] r[i]).0 != (
            #[trigger] r[j]).0 by {
                assert(r[j] == costs[j]);
                assert(r[i].0 == costs[i].0);
            }
        } else {
            lemma_models_stay_distinct(rest, model, step);
            lemma_cost_added(rest, model, step);
            let s = cost_added(rest, model, step);
            assert forall|i: int, j: int| 0 <= i < j < r.len() implies (#[trigger] r[i]).0 != (
            #[trigger] r[j]).0 by {
                assert(r[j] == s[j - 1]);
                if i > 0 {
                    assert(r[i] == s[i - 1]);
                } else if s[j - 1].0 != model {
                    let k = choose|k: int|
                        0 <= k < rest.len() && (#[trigger] rest[k]).0 == s[j - 1].0;
                    assert(costs[k + 1] == rest[k]);
                    assert(costs[0].0 != costs[k + 1].0);
                }
            }
        }
    }
}

/// Adding a step to the turn's usage and to its model's costs keeps the two
/// in agreement.
pub proof fn law_costs_follow_the_usage(
    costs: Seq<(Seq<char>, TokenUsage)>,
    usage: TokenUsage,
    model: Seq<char>,
    step: LlmUsage,
)
    requires
        costs_are(costs, usage),
        usage_fits(usage, step),
    ensures
        costs_are(cost_added(costs, model, step), usage_plus(usage, step)),
{
    lemma_cost_added(costs, model, step);
    lemma_models_stay_distinct(costs, model, step);
}

proof fn lemma_cost_added_at(
    costs: Seq<(Seq<char>, TokenUsage)>,
    model: Seq<char>,
    step: LlmUsage,
    p: int,
)
    requires
        0 <= p <= costs.len(),
        forall|k: int| 0 <= k < p ==> (#[trigger] costs[k]).0 != model,
        p < costs.len() ==> costs[p].0 == model,
    ensures
        cost_added(costs, model, step) == if p < costs.len() {
            costs.update(p, (model, usage_plus(costs[p].1, step)))
        } else {
            costs.push((model, usage_plus(no_usage(), step)))
        },
    decreases costs.len(),
{
    let r = cost_added(costs, model, step);
    if costs.len() == 0 {
        assert(r =~= costs.push((model, usage_plus(no_usage(), step))));
    } else if p == 0 {
        assert(r =~= costs.update(0, (model, usage_plus(costs[0].1, step))));
    } else {
        let rest = costs.drop_first();
        assert forall|k: int| 0 <= k < p - 1 implies (#[trigger] rest[k]).0 != model by {
            assert(costs[k + 1].0 != model);
        }
        lemma_cost_added_at(rest, model, step, p - 1);
        if p < costs.len() {
            assert(r =~= costs.update(p, (model, usage_plus(costs[p].1, step))));
        } else {
            assert(r =~= costs.push((model, usage_plus(no_usage(), step))));
        }
    }
}

/// Adds a step of `model` to the costs.
pub fn add_cost(costs: &mut Vec<(String, TokenUsage)>, model: String, step: LlmUsage)
    requires
        forall|i: int|
            0 <= i < old(costs)@.len() ==> usage_fits((#[trigger] old(costs)@[i]).1, step),
    ensures
        costs_view(final(costs)@) == cost_added(costs_view(old(costs)@), model@, step),
{
    let ghost before = costs@;
    let ghost v = costs_view(before);
    let mut i: usize = 0;
    while i < costs.len()
        invariant
            i <= costs@.len(),
            costs@ == before,
            v == costs_view(before),
            before == old(costs)@,
            forall|k: int| 0 <= k < before.len() ==> usage_fits((#[trigger] before[k]).1, step),
            forall|k: int| 0 <= k < i ==> (#[trigger] v[k]).0 != model@,
        decreases costs@.len() - i,
    {
        assert(v[i as int] == (costs@[i as int].0@, costs@[i as int].1));
        if same_text(costs[i].0.as_str(), model.as_str()) {
            let total: TokenUsage = costs[i].1.plus(step);
            costs.set(i, (model, total));
            proof {
                lemma_cost_added_at(v, model@, step, i as int);
                assert(costs_view(costs@) =~= v.update(i as int, (model@, total)));
            }
            return ;
        }
        i = i + 1;
    }
    let none: TokenUsage = TokenUsage::default();
    let first: TokenUsage = none.plus(step);
    costs.push((model, first));
    proof {
        lemma_cost_added_at(v, model@, step, i as int);
        assert(costs_view(costs@) =~= v.push((model@, first)));
    }
}

/// The costs as they are reported: what no step has been charged for yet goes
/// to the configured model, if it has a name, and the estimates around
/// pruning stand with the first entry.
pub open spec fn reported_costs(
    costs: Seq<(Seq<char>, TokenUsage)>,
    usage: TokenUsage,
    model: Seq<char>,
) -> Seq<(Seq<char>, TokenUsage)> {
    if costs.len() == 0 {
        if model.len() == 0 {
            Seq::empty()
        } else {
            seq![(model, usage)]
        }
    } else {
        costs.update(
            0,
            (
                costs[0].0,
                TokenUsage {
                    context_tokens_before_pruning: usage.context_tokens_before_pruning,
                    context_tokens_after_pruning: usage.context_tokens_after_pruning,
                    ..costs[0].1
                },
            ),
        )
    }
}

/// What is reported adds up to the turn's usage, whenever anything is
/// reported at all.
pub proof fn law_reported_costs_add_up(
    costs: Seq<(Seq<char>, TokenUsage)>,
    usage: TokenUsage,
    model: Seq<char>,
)
    requires
        costs_are(costs, usage),
    ensures
        reported_costs(costs, usage, model).len() == 0 <==> costs.len() == 0 && model.len() == 0,
        reported_costs(costs, usage, model).len() > 0 ==> spent_by_all(
            reported_costs(costs, usage, model),
        ) == spent(usage),
        reported_costs(costs, usage, model).len() > 0 ==> {
            &&& reported_costs(costs, usage, model)[0].1.context_tokens_before_pruning
                == usage.context_tokens_before_pruning
            &&& reported_costs(costs, usage, model)[0].1.context_tokens_after_pruning
                == usage.context_tokens_after_pruning
        },
{
    let r = reported_costs(costs, usage, model);
    if costs.len() > 0 {
        assert(r.drop_first() =~= costs.drop_first());
    } else if model.len() > 0 {
        assert(r.drop_first() =~= Seq::empty());
        assert(spent_by_all(r.drop_first()) == spent(no_usage()));
    }
}

/// Where only one model has served, what is reported is just that model with
/// the turn's usage.
pub proof fn law_one_model_is_charged_for_the_turn(
    costs: Seq<(Seq<char>, TokenUsage)>,
    usage: TokenUsage,
    model: Seq<char>,
)
    requires
        costs_are(costs, usage),
        costs.len() <= 1,
        model.len() > 0,
        costs.len() == 1 ==> costs[0].0 == model,
    ensures
        reported_costs(costs, usage, model) == seq![(model, usage)],
{
    if costs.len() == 1 {
        assert(costs.drop_first() =~= Seq::empty());
        assert(spent_by_all(costs.drop_first()) == spent(no_usage()));
        assert(reported_costs(costs, usage, model) =~= seq![(model, usage)]);
    }
}

/// Writes the costs out as they are reported.
pub fn report_costs(costs: &Vec<(String, TokenUsage)>, usage: TokenUsage, model: &String) -> (r: Vec<
    (String, TokenUsage),
>)
    ensures
        costs_view(r@) == reported_costs(costs_view(costs@), usage, model@),
{
    let ghost v = costs_view(costs@);
    let mut out: Vec<(String, TokenUsage)> = Vec::new();
    if costs.len() == 0 {
        assert(v.len() == 0);
        if same_text(model.as_str(), "") {
            proof {
                reveal_strlit("");
            }
            assert(costs_view(out@) =~= Seq::empty());
            return out;
        }
        proof {
            reveal_strlit("");
            if model@.len() == 0 {
                assert(model@ =~= ""@);
            }
        }
        out.push((model.clone(), usage));
        assert(costs_view(out@) =~= seq![(model@, usage)]);
        return out;
    }
    let ghost all = reported_costs(v, usage, model@);
    let mut i: usize = 0;
    while i < costs.len()
        invariant
            i <= costs@.len(),
            v == costs_view(costs@),
            v.len() > 0,
            all == reported_costs(v, usage, model@),
            costs_view(out@) == all.take(i as int),
        decreases costs@.len() - i,
    {
        let mut u: TokenUsage = costs[i].1;
        if i == 0 {
            u.context_tokens_before_pruning = usage.context_tokens_before_pruning;
            u.context_tokens_after_pruning = usage.context_tokens_after_pruning;
        }
        let name: String = costs[i].0.clone();
        assert(v[i as int] == (name@, costs@[i as int].1));
        let ghost before = out@;
        out.push((name, u));
        assert(costs_view(out@) =~= costs_view(before).push((name@, u)));
        assert(all[i as int] == (name@, u));
        assert(all.take(i + 1) =~= all.take(i as int).push(all[i as int]));
        i = i + 1;
    }
    assert(all.take(i as int) =~= all);
    out
}

/// A step is added to what its model has spent, each kind of token to its own
/// count, and to nothing else. A model that has not served before is added
/// behind the others.
pub proof fn law_a_step_is_charged_to_its_model(
    costs: Seq<(Seq<char>, TokenUsage)>,
    model: Seq<char>,
    step: LlmUsage,
)
    requires
        forall|i: int, j: int|
            0 <= i < j < costs.len() ==> (#[trigger] costs[i]).0 != (#[trigger] costs[j]).0,
        forall|i: int| 0 <= i < costs.len() ==> usage_fits((#[trigger] costs[i]).1, step),
    ensures
        ({
            let after = cost_added(costs, model, step);
            let known = exists|i: int| 0 <= i < costs.len() && (#[trigger] costs[i]).0 == model;
            &&& after.len() == costs.len() + if known {
                0int
            } else {
                1int
            }
            &&& forall|i: int|
                0 <= i < costs.len() ==> {
                    &&& (#[trigger] after[i]).0 == costs[i].0
                    &&& costs[i].0 != model ==> after[i].1 == costs[i].1
                    &&& costs[i].0 == model ==> charged_with(after[i].1, costs[i].1, step)
                }
            &&& !known ==> after.last().0 == model && charged_with(
                after.last().1,
                no_usage(),
                step,
            )
        }),
    decreases costs.len(),
{
    let after = cost_added(costs, model, step);
    if costs.len() > 0 {
        let rest = costs.drop_first();
        assert forall|i: int| 0 <= i < rest.len() implies rest[i] == costs[i + 1] by {}
        assert forall|i: int| 0 <= i < rest.len() implies usage_fits((#[trigger] rest[i]).1, step) by {
            assert(rest[i] == costs[i + 1]);
        }
        law_a_step_is_charged_to_its_model(rest, model, step);
        let more = cost_added(rest, model, step);
        if costs[0].0 == model {
            assert(after =~= seq![(model, usage_plus(costs[0].1, step))] + rest);
            assert forall|i: int| 0 <= i < costs.len() implies {
                &&& (#[trigger] after[i]).0 == costs[i].0
                &&& costs[i].0 != model ==> after[i].1 == costs[i].1
                &&& costs[i].0 == model ==> charged_with(after[i].1, costs[i].1, step)
            } by {
                if i > 0 {
                    assert(costs[0].0 != costs[i].0);
                }
            }
        } else {
            assert forall|i: int| 0 <= i < costs.len() implies {
                &&& (#[trigger] after[i]).0 == costs[i].0
                &&& costs[i].0 != model ==> after[i].1 == costs[i].1
                &&& costs[i].0 == model ==> charged_with(after[i].1, costs[i].1, step)
            } by {
                if i > 0 {
                    assert(after[i] == more[i - 1]);
                    assert(rest[i - 1] == costs[i]);
                }
            }
            if exists|i: int| 0 <= i < costs.len() && (#[trigger] costs[i]).0 == model {
                let i = choose|i: int| 0 <= i < costs.len() && (#[trigger] costs[i]).0 == model;
                assert(rest[i - 1].0 == model);
            } else {
                assert forall|i: int| 0 <= i < rest.len() implies (#[trigger] rest[i]).0 != model by {
                    assert(rest[i] == costs[i + 1]);
                }
                assert(after.last() == more.last());
            }
        }
    }
}

/// Whether `after` is `before` with `step` added to it, each kind of token to
/// its own count.
pub open spec fn charged_with(after: TokenUsage, before: TokenUsage, step: LlmUsage) -> bool {
    &&& after.input_tokens == before.input_tokens + step.input_tokens
    &&& after.output_tokens == before.output_tokens + step.output_tokens
    &&& after.cache_creation_input_tokens == before.cache_creation_input_tokens
        + step.cache_creation_input_tokens
    &&& after.cache_read_input_tokens == before.cache_read_input_tokens
        + step.cache_read_input_tokens
    &&& after.context_tokens_before_pruning == before.context_tokens_before_pruning
    &&& after.context_tokens_after_pruning == before.context_tokens_after_pruning
}

/// Where a model has served, what is reported is each model with what it has
/// spent, in the order in which they first served.
pub proof fn law_each_model_is_reported(
    costs: Seq<(Seq<char>, TokenUsage)>,
    usage: TokenUsage,
    model: Seq<char>,
)
    requires
        costs.len() > 0,
    ensures
        reported_costs(costs, usage, model).len() == costs.len(),
        forall|i: int|
            0 <= i < costs.len() ==> {
                let shown = #[trigger] reported_costs(costs, usage, model)[i];
                &&& shown.0 == costs[i].0
                &&& shown.1.input_tokens == costs[i].1.input_tokens
                &&& shown.1.output_tokens == costs[i].1.output_tokens
                &&& shown.1.cache_creation_input_tokens == costs[i].1.cache_creation_input_tokens
                &&& shown.1.cache_read_input_tokens == costs[i].1.cache_read_input_tokens
                &&& i > 0 ==> shown == costs[i]
            },
{
}

} // verus!

//! From the name and input that the model gave to a tool that can be called:
//! recovery of misspelt names, suggestions, and validation of the input.
//!
//! How alike two names are is a similarity between zero and one. It is held
//! as the bit pattern of a single-precision float, whose order as an integer
//! is the order of the similarities. The threshold for a recovery is held in
//! the same way, and may be any float.

use vstd::prelude::*;
use crate::json::{Json, JsonView};
use crate::outcome::ToolId;
use crate::planner::{id_by_name, ToolRegistry, ToolView};
use crate::text::{join, joined, texts};

verus! {

/// The similarity 0.80, from which on a name is taken for a misspelling.
pub const FUZZY_TOOL_NAME_THRESHOLD: u32 = 0x3F4C_CCCD;

// ---------------------------------------------------------------------------
// Recovery of misspelt names
// ---------------------------------------------------------------------------

/// Whether a similarity is at least `threshold`. One below zero, and negative
/// zero, is reached by every similarity, and what is not a number by none.
pub open spec fn reaches(score: u32, threshold: u32) -> bool {
    if threshold < 0x8000_0000 {
        threshold <= 0x7F80_0000 && score >= threshold
    } else {
        threshold <= 0xFF80_0000
    }
}

/// Whether `i` is the first place with the greatest of `scores`, and that
/// score reaches `threshold`.
pub open spec fn is_best(scores: Seq<u32>, threshold: u32, i: int) -> bool {
    &&& 0 <= i < scores.len()
    &&& reaches(scores[i], threshold)
    &&& forall|j: int| 0 <= j < scores.len() ==> #[trigger] scores[j] <= scores[i]
    &&& forall|j: int| 0 <= j < i ==> #[trigger] scores[j] < scores[i]
}

/// The tool that a misspelt name stands for: the one most like it, if any is
/// like enough.
pub open spec fn recovered(tools: Seq<ToolView>, scores: Seq<u32>, threshold: u32) -> Option<
    ToolId,
> {
    if exists|i: int| is_best(scores, threshold, i) {
        id_by_name(tools, tools[choose|i: int| is_best(scores, threshold, i)].name)
    } else {
        None
    }
}

/// At most one place is the best.
pub proof fn lemma_best_is_unique(scores: Seq<u32>, threshold: u32, i: int, j: int)
    requires
        is_best(scores, threshold, i),
        is_best(scores, threshold, j),
    ensures
        i == j,
{
    assert(scores[i] <= scores[j]);
    assert(scores[j] <= scores[i]);
    if i < j {
        assert(scores[i] < scores[j]);
    } else if j < i {
        assert(scores[j] < scores[i]);
    }
}

/// Nothing is recovered exactly when no score reaches the threshold.
pub proof fn law_recovery_needs_the_threshold(
    tools: Seq<ToolView>,
    scores: Seq<u32>,
    threshold: u32,
)
    requires
        scores.len() == tools.len(),
    ensures
        recovered(tools, scores, threshold) is Some <==> exists|i: int|
            0 <= i < scores.len() && reaches(#[trigger] scores[i], threshold),
{
    if exists|i: int| 0 <= i < scores.len() && reaches(#[trigger] scores[i], threshold) {
        lemma_best_exists(scores, threshold);
        let b = choose|i: int| is_best(scores, threshold, i);
        lemma_name_is_found(tools, b);
    } else if exists|i: int| is_best(scores, threshold, i) {
        let b = choose|i: int| is_best(scores, threshold, i);
        assert(reaches(scores[b], threshold));
    }
}

proof fn lemma_name_is_found(tools: Seq<ToolView>, i: int)
    requires
        0 <= i < tools.len(),
    ensures
        id_by_name(tools, tools[i].name) is Some,
    decreases tools.len(),
{
    if tools[0].name != tools[i].name {
        lemma_name_is_found(tools.drop_first(), i - 1);
    }
}

proof fn lemma_best_exists(scores: Seq<u32>, threshold: u32)
    requires
        exists|i: int| 0 <= i < scores.len() && reaches(#[trigger] scores[i], threshold),
    ensures
        exists|i: int| is_best(scores, threshold, i),
    decreases scores.len(),
{
    let w = choose|i: int| 0 <= i < scores.len() && reaches(#[trigger] scores[i], threshold);
    let rest = scores.drop_last();
    let n = scores.len() - 1;
    if exists|i: int| 0 <= i < rest.len() && reaches(#[trigger] rest[i], threshold) {
        lemma_best_exists(rest, threshold);
        let b = choose|i: int| is_best(rest, threshold, i);
        assert forall|j: int| 0 <= j < n implies #[trigger] scores[j] <= scores[b] by {
            assert(rest[j] <= rest[b]);
        }
        assert forall|j: int| 0 <= j < b implies #[trigger] scores[j] < scores[b] by {
            assert(rest[j] < rest[b]);
        }
        if scores[n] > scores[b] {
            assert(is_best(scores, threshold, n));
        } else {
            assert(is_best(scores, threshold, b));
        }
    } else {
        if w < n {
            assert(rest[w] == scores[w]);
        }
        assert forall|j: int| 0 <= j < n implies !reaches(#[trigger] scores[j], threshold) by {
            assert(!reaches(rest[j], threshold));
        }
        assert(is_best(scores, threshold, n));
    }
}

/// Whether a similarity is at least `threshold`.
fn is_reached(score: u32, threshold: u32) -> (r: bool)
    ensures
        r == reaches(score, threshold),
{
    if threshold < 0x8000_0000 {
        threshold <= 0x7F80_0000 && score >= threshold
    } else {
        threshold <= 0xFF80_0000
    }
}

/// The registered tool that `scores` single out: the first with the greatest
/// similarity, if that reaches `threshold`.
pub fn fuzzy_recover_tool_name(
    registry: &ToolRegistry,
    scores: &Vec<u32>,
    threshold: u32,
) -> (r: Option<ToolId>)
    requires
        scores@.len() == registry@.len(),
    ensures
        r == recovered(registry@, scores@, threshold),
{
    let mut best: Option<usize> = None;
    let mut i: usize = 0;
    while i < scores.len()
        invariant
            i <= scores@.len(),
            match best {
                Some(b) => {
                    &&& b < i
                    &&& reaches(scores@[b as int], threshold)
                    &&& forall|j: int| 0 <= j < i ==> #[trigger] scores@[j] <= scores@[b as int]
                    &&& forall|j: int| 0 <= j < b ==> #[trigger] scores@[j] < scores@[b as int]
                },
                None => forall|j: int| 0 <= j < i ==> !reaches(#[trigger] scores@[j], threshold),
            },
        decreases scores@.len() - i,
    {
        let score: u32 = scores[i];
        if is_reached(score, threshold) {
            match best {
                None => {
                    best = Some(i);
                },
                Some(b) => {
                    if score > scores[b] {
                        best = Some(i);
                    }
                },
            }
        }
        i = i + 1;
    }
    match best {
        Some(b) => {
            proof {
                assert(is_best(scores@, threshold, b as int));
                lemma_best_is_unique(
                    scores@,
                    threshold,
                    b as int,
                    choose|i: int| is_best(scores@, threshold, i),
                );
            }
            registry.find_by_name(registry.at(b).name.as_str())
        },
        None => {
            proof {
                if exists|i: int| is_best(scores@, threshold, i) {
                    let c = choose|i: int| is_best(scores@, threshold, i);
                    assert(!reaches(scores@[c], threshold));
                }
            }
            None
        },
    }
}

// ---------------------------------------------------------------------------
// Suggestions
// ---------------------------------------------------------------------------

/// `x` put into a ranking: behind everything at least as good.
pub open spec fn insert_ranked(ranking: Seq<(Seq<char>, u32)>, x: (Seq<char>, u32)) -> Seq<
    (Seq<char>, u32),
>
    decreases ranking.len(),
{
    if ranking.len() == 0 {
        seq![x]
    } else if ranking.last().1 >= x.1 {
        ranking.push(x)
    } else {
        insert_ranked(ranking.drop_last(), x).push(ranking.last())
    }
}

/// The names with their scores, best first; equals keep their order.
pub open spec fn ranked(entries: Seq<(Seq<char>, u32)>) -> Seq<(Seq<char>, u32)>
    decreases entries.len(),
{
    if entries.len() == 0 {
        Seq::empty()
    } else {
        insert_ranked(ranked(entries.drop_last()), entries.last())
    }
}

/// Each registered tool's name with its score.
pub open spec fn scored(tools: Seq<ToolView>, scores: Seq<u32>) -> Seq<(Seq<char>, u32)> {
    Seq::new(tools.len(), |i: int| (tools[i].name, scores[i]))
}

/// The first `n` of `s`, or all of it.
pub open spec fn first_n<T>(s: Seq<T>, n: nat) -> Seq<T> {
    if s.len() <= n {
        s
    } else {
        s.take(n as int)
    }
}

/// A ranking by its names' texts.
pub open spec fn ranking_view(v: Seq<(String, u32)>) -> Seq<(Seq<char>, u32)> {
    v.map_values(|e: (String, u32)| (e.0@, e.1))
}

proof fn lemma_insert_ranked_at(
    ranking: Seq<(Seq<char>, u32)>,
    x: (Seq<char>, u32),
    p: int,
)
    requires
        0 <= p <= ranking.len(),
        forall|k: int| p <= k < ranking.len() ==> (#[trigger] ranking[k]).1 < x.1,
        p > 0 ==> ranking[p - 1].1 >= x.1,
    ensures
        insert_ranked(ranking, x) == ranking.insert(p, x),
    decreases ranking.len(),
{
    if p < ranking.len() {
        let rest = ranking.drop_last();
        assert(ranking[ranking.len() - 1].1 < x.1);
        assert forall|k: int| p <= k < rest.len() implies (#[trigger] rest[k]).1 < x.1 by {
            assert(ranking[k].1 < x.1);
        }
        lemma_insert_ranked_at(rest, x, p);
        assert(ranking.insert(p, x) =~= rest.insert(p, x).push(ranking.last()));
    } else {
        assert(ranking.insert(p, x) =~= ranking.push(x));
    }
}

/// The `n` registered tools most like the name that `scores` are for, best
/// first; equals in the order of registration.
pub fn top_n_similar_tools(registry: &ToolRegistry, scores: &Vec<u32>, n: usize) -> (r: Vec<
    (String, u32),
>)
    requires
        scores@.len() == registry@.len(),
    ensures
        ranking_view(r@) == first_n(ranked(scored(registry@, scores@)), n as nat),
{
    let ghost all = scored(registry@, scores@);
    let mut out: Vec<(String, u32)> = Vec::new();
    let total: usize = registry.len();
    let mut i: usize = 0;
    while i < total
        invariant
            i <= total == registry@.len(),
            scores@.len() == registry@.len(),
            all == scored(registry@, scores@),
            ranking_view(out@) == ranked(all.take(i as int)),
        decreases total - i,
    {
        let score: u32 = scores[i];
        let name: String = registry.at(i).name.clone();
        let mut p: usize = out.len();
        while p > 0 && out[p - 1].1 < score
            invariant
                p <= out@.len(),
                forall|k: int| p <= k < out@.len() ==> (#[trigger] out@[k]).1 < score,
            decreases p,
        {
            p = p - 1;
        }
        let ghost before = out@;
        out.insert(p, (name, score));
        proof {
            let v = ranking_view(before);
            assert forall|k: int| p <= k < v.len() implies (#[trigger] v[k]).1 < score by {
                assert(before[k].1 < score);
            }
            lemma_insert_ranked_at(v, (name@, score), p as int);
            assert(ranking_view(out@) =~= v.insert(p as int, (name@, score)));
            assert(all.take(i + 1).drop_last() =~= all.take(i as int));
            assert(all.take(i + 1).last() == (name@, score));
        }
        i = i + 1;
    }
    assert(all.take(i as int) =~= all);
    let ghost full = out@;
    if out.len() > n {
        out.truncate(n);
        assert(ranking_view(out@) =~= ranking_view(full).take(n as int));
    }
    assert(ranking_view(full).len() == full.len());
    out
}

proof fn lemma_insert_ranked(ranking: Seq<(Seq<char>, u32)>, x: (Seq<char>, u32))
    requires
        forall|i: int, j: int| 0 <= i <= j < ranking.len() ==> ranking[i].1 >= ranking[j].1,
    ensures
        insert_ranked(ranking, x).to_multiset() == ranking.to_multiset().insert(x),
        insert_ranked(ranking, x).len() == ranking.len() + 1,
        forall|i: int, j: int|
            0 <= i <= j < insert_ranked(ranking, x).len() ==> insert_ranked(ranking, x)[i].1
                >= insert_ranked(ranking, x)[j].1,
        forall|i: int|
            0 <= i < insert_ranked(ranking, x).len() ==> (#[trigger] insert_ranked(ranking, x)[i]
                == x || exists|k: int| 0 <= k < ranking.len() && ranking[k] == insert_ranked(
                ranking,
                x,
            )[i]),
    decreases ranking.len(),
{
    broadcast use vstd::seq_lib::group_to_multiset_ensures;

    let r = insert_ranked(ranking, x);
    if ranking.len() == 0 {
        assert(r =~= ranking.push(x));
    } else if ranking.last().1 >= x.1 {
        assert forall|i: int| 0 <= i < r.len() implies (#[trigger] r[i] == x || exists|k: int|
            0 <= k < ranking.len() && ranking[k] == r[i]) by {
            if i < ranking.len() {
                assert(ranking[i] == r[i]);
            }
        }
        assert forall|i: int, j: int| 0 <= i <= j < r.len() implies r[i].1 >= r[j].1 by {
            if j == ranking.len() && i < j {
                assert(ranking[i].1 >= ranking[ranking.len() - 1].1);
            }
        }
    } else {
        let rest = ranking.drop_last();
        lemma_insert_ranked(rest, x);
        let s = insert_ranked(rest, x);
        assert(ranking =~= rest.push(ranking.last()));
        assert(r.to_multiset() =~= ranking.to_multiset().insert(x));
        assert forall|i: int| 0 <= i < r.len() implies (#[trigger] r[i] == x || exists|k: int|
            0 <= k < ranking.len() && ranking[k] == r[i]) by {
            if i < s.len() {
                assert(r[i] == s[i]);
                if s[i] != x {
                    let k = choose|k: int| 0 <= k < rest.len() && rest[k] == s[i];
                    assert(ranking[k] == r[i]);
                }
            } else {
                assert(ranking[ranking.len() - 1] == r[i]);
            }
        }
        assert forall|i: int, j: int| 0 <= i <= j < r.len() implies r[i].1 >= r[j].1 by {
            if i < s.len() && j == s.len() {
                assert(r[i] == s[i]);
                if s[i] != x {
                    let k = choose|k: int| 0 <= k < rest.len() && rest[k] == s[i];
                    assert(ranking[k].1 >= ranking[ranking.len() - 1].1);
                }
            } else if j < s.len() {
                assert(s[i].1 >= s[j].1);
            }
        }
    }
}

/// A ranking holds the same entries, with the better ones first.
pub proof fn law_ranking_sorts(entries: Seq<(Seq<char>, u32)>)
    ensures
        ranked(entries).to_multiset() == entries.to_multiset(),
        ranked(entries).len() == entries.len(),
        forall|i: int, j: int|
            0 <= i <= j < ranked(entries).len() ==> ranked(entries)[i].1 >= ranked(entries)[j].1,
    decreases entries.len(),
{
    broadcast use vstd::seq_lib::group_to_multiset_ensures;

    if entries.len() > 0 {
        let rest = entries.drop_last();
        law_ranking_sorts(rest);
        lemma_insert_ranked(ranked(rest), entries.last());
        assert(entries =~= rest.push(entries.last()));
    } else {
        assert(ranked(entries) =~= entries);
    }
}

proof fn lemma_insert_keeps_order(ranking: Seq<(Seq<char>, u32)>, x: (Seq<char>, u32), score: u32)
    ensures
        insert_ranked(ranking, x).filter(|e: (Seq<char>, u32)| e.1 == score) == if x.1 == score {
            ranking.filter(|e: (Seq<char>, u32)| e.1 == score).push(x)
        } else {
            ranking.filter(|e: (Seq<char>, u32)| e.1 == score)
        },
    decreases ranking.len(),
{
    reveal(Seq::filter);
    let p = |e: (Seq<char>, u32)| e.1 == score;
    let r = insert_ranked(ranking, x);
    if ranking.len() == 0 {
        assert(r.drop_last() =~= Seq::empty());
        assert(r.drop_last().filter(p) =~= Seq::empty());
        assert(ranking.filter(p) =~= Seq::empty());
    } else if ranking.last().1 >= x.1 {
        assert(r.drop_last() =~= ranking);
    } else {
        let rest = ranking.drop_last();
        lemma_insert_keeps_order(rest, x, score);
        assert(r.drop_last() =~= insert_ranked(rest, x));
    }
}

/// Entries with one score stand in a ranking in the order in which they were
/// given.
pub proof fn law_ranking_is_stable(entries: Seq<(Seq<char>, u32)>, score: u32)
    ensures
        ranked(entries).filter(|e: (Seq<char>, u32)| e.1 == score) == entries.filter(
            |e: (Seq<char>, u32)| e.1 == score,
        ),
    decreases entries.len(),
{
    reveal(Seq::filter);
    let p = |e: (Seq<char>, u32)| e.1 == score;
    if entries.len() > 0 {
        law_ranking_is_stable(entries.drop_last(), score);
        lemma_insert_keeps_order(ranked(entries.drop_last()), entries.last(), score);
    } else {
        assert(ranked(entries) =~= entries);
    }
}

/// The names of a ranking, each in single quotation marks.
pub open spec fn quoted_names(s: Seq<(Seq<char>, u32)>) -> Seq<Seq<char>> {
    s.map_values(|e: (Seq<char>, u32)| "'"@ + e.0 + "'"@)
}

/// What the model is told about a tool that does not exist.
pub open spec fn unknown_tool_message(name: Seq<char>, suggestions: Seq<(Seq<char>, u32)>) -> Seq<
    char,
> {
    if suggestions.len() == 0 {
        "tool '"@ + name + "' is not registered. (no tools available in this role)"@
    } else {
        "tool '"@ + name + "' is not registered. Did you mean "@ + joined(
            quoted_names(suggestions),
            ", "@,
        ) + "?"@
    }
}

/// What the model is told about a tool that does not exist: the names to try
/// instead, or that there are none.
pub fn build_unknown_tool_message(emitted_name: &str, suggestions: &Vec<(String, u32)>) -> (r:
    String)
    ensures
        r@ == unknown_tool_message(emitted_name@, ranking_view(suggestions@)),
{
    let mut out: String = String::new();
    out.push_str("tool '");
    out.push_str(emitted_name);
    let ghost v = ranking_view(suggestions@);
    if suggestions.len() == 0 {
        out.push_str("' is not registered. (no tools available in this role)");
        assert(out@ =~= unknown_tool_message(emitted_name@, v));
        return out;
    }
    let mut names: Vec<String> = Vec::new();
    let mut i: usize = 0;
    while i < suggestions.len()
        invariant
            i <= suggestions@.len(),
            v == ranking_view(suggestions@),
            texts(names@) == quoted_names(v).take(i as int),
        decreases suggestions@.len() - i,
    {
        let mut name: String = String::new();
        name.push_str("'");
        name.push_str(suggestions[i].0.as_str());
        name.push_str("'");
        assert(name@ =~= "'"@ + v[i as int].0 + "'"@);
        let ghost before = names@;
        names.push(name);
        assert(texts(names@) =~= texts(before).push(name@));
        assert(quoted_names(v).take(i + 1) =~= quoted_names(v).take(i as int).push(
            quoted_names(v)[i as int],
        ));
        i = i + 1;
    }
    assert(quoted_names(v).take(i as int) =~= quoted_names(v));
    let list: String = join(&names, ", ");
    out.push_str("' is not registered. Did you mean ");
    out.push_str(list.as_str());
    out.push_str("?");
    assert(out@ =~= unknown_tool_message(emitted_name@, v));
    out
}

// ---------------------------------------------------------------------------
// Validation of the input
// ---------------------------------------------------------------------------

/// How many violations the model is told of.
pub const REPORTED_VIOLATIONS: usize = 5;

/// `serde_json::Value`, the form in which `jsonschema` takes values.
#[verifier::external_type_specification]
#[verifier::external_body]
pub struct ExValue(serde_json::Value);

/// The `serde_json` value that stands for a JSON value.
pub uninterp spec fn value_of(j: JsonView) -> serde_json::Value;

/// A JSON value as a `serde_json::Value`, put together from `serde_json`'s own
/// constructors: a function of the value alone, however deep it is. A float is
/// read by std, to the nearest one, and becomes null where its text is that of
/// no finite number. Of two members of one name the later is kept.
#[verifier::external_body]
fn outside_value(j: &Json) -> (r: serde_json::Value)
    ensures
        r == value_of(j@),
{
    match j {
        Json::Null => serde_json::Value::Null,
        Json::Bool(b) => serde_json::Value::from(*b),
        Json::Unsigned(n) => serde_json::Value::from(*n),
        Json::Signed(n) => serde_json::Value::from(*n),
        Json::Float(s) => s.parse().ok().and_then(serde_json::Number::from_f64).into(),
        Json::Str(s) => serde_json::Value::from(s.as_str()),
        Json::Array(v) => v.iter().map(outside_value).collect(),
        Json::Object(m) => m.iter().map(|(k, v)| (k.clone(), outside_value(v))).collect(),
    }
}

/// The violations that `jsonschema` finds when `input` is validated against
/// `schema`, in its order and its words; `None` where the schema does not
/// compile.
pub uninterp spec fn schema_violations(
    schema: serde_json::Value,
    input: serde_json::Value,
) -> Option<Seq<Seq<char>>>;

/// `jsonschema::validator_for` and `Validator::iter_errors`: the text of each
/// error, or `None` where the schema is not valid. The result depends on the
/// two values alone: references to other documents are not followed.
#[verifier::external_body]
fn violations(schema: &serde_json::Value, input: &serde_json::Value) -> (r: Option<Vec<String>>)
    ensures
        match r {
            Some(v) => schema_violations(*schema, *input) == Some(texts(v@)),
            None => schema_violations(*schema, *input) is None,
        },
{
    let validator = jsonschema::validator_for(schema).ok()?;
    Some(validator.iter_errors(input).map(|e| e.to_string()).collect())
}

/// What is wrong with an input, given the violations found: the first few of
/// them, or nothing where there are none or the schema is no use.
pub open spec fn digest(violations: Option<Seq<Seq<char>>>) -> Option<Seq<char>> {
    match violations {
        None => None,
        Some(v) => if v.len() == 0 {
            None
        } else {
            Some(joined(first_n(v, REPORTED_VIOLATIONS as nat), "; "@))
        },
    }
}

/// Whether a verdict is the one that `problem` calls for.
pub open spec fn verdict_is(r: Result<(), String>, problem: Option<Seq<char>>) -> bool {
    match r {
        Ok(_) => problem is None,
        Err(summary) => problem == Some(summary@),
    }
}

/// The verdict on an input whose violations are `violations`.
pub fn digest_violations(violations: Option<Vec<String>>) -> (r: Result<(), String>)
    ensures
        verdict_is(
            r,
            digest(
                match violations {
                    Some(v) => Some(texts(v@)),
                    None => None,
                },
            ),
        ),
{
    match violations {
        None => Ok(()),
        Some(v) => {
            let mut shown: Vec<String> = v;
            let ghost all = texts(shown@);
            if shown.len() == 0 {
                return Ok(());
            }
            if shown.len() > REPORTED_VIOLATIONS {
                shown.truncate(REPORTED_VIOLATIONS);
            }
            assert(texts(shown@) =~= first_n(all, REPORTED_VIOLATIONS as nat));
            Err(join(&shown, "; "))
        },
    }
}

/// Validates a tool call's input against the tool's schema. A schema that
/// does not compile lets every input pass.
pub fn validate_tool_input(schema: &Json, input: &Json) -> (r: Result<(), String>)
    ensures
        verdict_is(r, digest(schema_violations(value_of(schema@), value_of(input@)))),
{
    digest_violations(violations(&outside_value(schema), &outside_value(input)))
}

/// What is recovered is the tool that scores best, the first of those that score
/// alike, provided that it reaches the threshold.
pub proof fn law_recovery_picks_the_best(
    tools: Seq<ToolView>,
    scores: Seq<u32>,
    threshold: u32,
    i: int,
)
    requires
        scores.len() == tools.len(),
        0 <= i < scores.len(),
        reaches(scores[i], threshold),
        forall|j: int| 0 <= j < scores.len() ==> #[trigger] scores[j] <= scores[i],
        forall|j: int| 0 <= j < i ==> #[trigger] scores[j] < scores[i],
        forall|j: int| 0 <= j < i ==> (#[trigger] tools[j]).name != tools[i].name,
    ensures
        recovered(tools, scores, threshold) == Some(tools[i].id),
{
    assert(is_best(scores, threshold, i));
    let k = choose|k: int| is_best(scores, threshold, k);
    lemma_best_is_unique(scores, threshold, i, k);
    crate::planner::law_a_name_finds_its_first_tool(tools, tools[i].name, i);
}

/// A score reaches a threshold of zero or more exactly where it is as large; one
/// below zero is reached by every score, and what is no number by none.
pub proof fn law_what_reaches_a_threshold(score: u32, threshold: u32)
    ensures
        threshold <= 0x7F80_0000 ==> (reaches(score, threshold) <==> score >= threshold),
        0x7F80_0000 < threshold < 0x8000_0000 ==> !reaches(score, threshold),
        0x8000_0000 <= threshold <= 0xFF80_0000 ==> reaches(score, threshold),
        0xFF80_0000 < threshold ==> !reaches(score, threshold),
{
}

/// The message on an unknown tool starts with the name that the model used, and
/// names each of the tools that it may have meant.
pub proof fn law_the_message_names_the_suggestions(
    name: Seq<char>,
    suggestions: Seq<(Seq<char>, u32)>,
)
    ensures
        crate::text::begins_with(
            unknown_tool_message(name, suggestions),
            "tool '"@ + name + "' is not registered."@,
        ),
        forall|i: int|
            0 <= i < suggestions.len() ==> crate::text::occurs(
                unknown_tool_message(name, suggestions),
                "'"@ + (#[trigger] suggestions[i]).0 + "'"@,
            ),
{
    let text = unknown_tool_message(name, suggestions);
    let start = "tool '"@ + name + "' is not registered."@;
    reveal_strlit("' is not registered.");
    reveal_strlit("' is not registered. (no tools available in this role)");
    reveal_strlit("' is not registered. Did you mean ");
    if suggestions.len() == 0 {
        assert("' is not registered."@
            =~= "' is not registered. (no tools available in this role)"@.take(20));
    } else {
        assert("' is not registered."@ =~= "' is not registered. Did you mean "@.take(20));
    }
    assert(text.subrange(0, start.len() as int) =~= start);
    assert forall|i: int| 0 <= i < suggestions.len() implies crate::text::occurs(
        text,
        "'"@ + (#[trigger] suggestions[i]).0 + "'"@,
    ) by {
        let names = quoted_names(suggestions);
        let part = "'"@ + suggestions[i].0 + "'"@;
        assert(names[i] == part);
        let at = lemma_joined_holds(names, ", "@, i);
        let head = "tool '"@ + name + "' is not registered. Did you mean "@;
        let list = joined(names, ", "@);
        assert(list.subrange(at, at + part.len()) == part);
        assert(text.subrange(head.len() + at, head.len() + at + part.len()) =~= part);
        assert(crate::text::occurs_at(text, part, head.len() + at));
    }
}

proof fn lemma_joined_holds(parts: Seq<Seq<char>>, sep: Seq<char>, i: int) -> (at: int)
    requires
        0 <= i < parts.len(),
    ensures
        crate::text::occurs_at(joined(parts, sep), parts[i], at),
    decreases parts.len(),
{
    let all = joined(parts, sep);
    if parts.len() == 1 {
        assert(all.subrange(0, parts[0].len() as int) =~= parts[0]);
        0
    } else if i == parts.len() - 1 {
        let at = all.len() - parts[i].len();
        assert(all.subrange(at, at + parts[i].len()) =~= parts[i]);
        at
    } else {
        let rest = parts.drop_last();
        let at = lemma_joined_holds(rest, sep, i);
        let some = joined(rest, sep);
        assert(rest[i] == parts[i]);
        assert(all.subrange(at, at + parts[i].len()) =~= some.subrange(at, at + parts[i].len()));
        at
    }
}

/// An input is found wrong exactly where there are violations, and the first
/// five of them are reported, in their order.
pub proof fn law_violations_are_reported_in_order(found: Seq<Seq<char>>)
    ensures
        digest(None) is None,
        digest(Some(found)) is None <==> found.len() == 0,
        0 < found.len() <= 5 ==> digest(Some(found)) == Some(joined(found, "; "@)),
        found.len() > 5 ==> digest(Some(found)) == Some(joined(found.take(5), "; "@)),
{
}

/// What is suggested are the best of the registered tools, each with its score:
/// as many as were asked for, or all there are.
pub proof fn law_the_best_are_suggested(tools: Seq<ToolView>, scores: Seq<u32>, n: nat)
    requires
        scores.len() == tools.len(),
    ensures
        ({
            let best = first_n(ranked(scored(tools, scores)), n);
            &&& best.len() == if n < tools.len() {
                n
            } else {
                tools.len()
            }
            &&& best.is_prefix_of(ranked(scored(tools, scores)))
            &&& forall|i: int|
                0 <= i < tools.len() ==> #[trigger] scored(tools, scores)[i] == (
                    tools[i].name,
                    scores[i],
                )
        }),
{
    law_ranking_sorts(scored(tools, scores));
}

} // verus!

//! The floor under what a tool tells the model about itself.

use vstd::prelude::*;
use crate::json::{Json, JsonView};
use crate::planner::{Tool, ToolView};
use crate::text::{
    blank,
    chars_of,
    contains,
    debug_form,
    debug_text,
    is_blank,
    is_white_space,
    occurs,
    same_text,
    texts,
    trim,
    trimmed,
    white_space,
};

verus! {

/// How many characters, white space apart, a description must have.
pub const MIN_DESCRIPTION_CHARS: usize = 10;

/// How many characters of `s` are not white space.
pub open spec fn solid_chars(s: Seq<char>) -> nat
    decreases s.len(),
{
    if s.len() == 0 {
        0
    } else {
        solid_chars(s.drop_last()) + (if white_space(s.last()) {
            0nat
        } else {
            1nat
        })
    }
}

/// What is wrong with a tool's name.
pub open spec fn name_issues(name: Seq<char>) -> Seq<Seq<char>> {
    if blank(name) {
        seq!["name is empty"@]
    } else if !occurs(name, "."@) {
        seq!["name "@ + debug_form(name) + " is not dotted (expected domain.verb)"@]
    } else {
        Seq::empty()
    }
}

/// What is wrong with a tool's description.
pub open spec fn description_issues(name: Seq<char>, description: Seq<char>) -> Seq<Seq<char>> {
    if solid_chars(trimmed(description)) < MIN_DESCRIPTION_CHARS {
        seq![
            name + ": description too short / stub ("@ + debug_form(trimmed(description)) + ")"@,
        ]
    } else {
        Seq::empty()
    }
}

/// Whether the schema's type is that of an object.
pub open spec fn type_is_object(schema: JsonView) -> bool {
    schema.get_str("type"@) == Some("object"@)
}

/// Whether the schema's properties, if it has any, are an object.
pub open spec fn properties_fit(schema: JsonView) -> bool {
    schema.get("properties"@) matches Some(p) ==> p is Object
}

/// What is wrong with a tool's schema.
pub open spec fn schema_issues(name: Seq<char>, schema: JsonView) -> Seq<Seq<char>> {
    if !(schema is Object) {
        seq![name + ": input_schema is not a JSON object"@]
    } else {
        (if type_is_object(schema) {
            Seq::<Seq<char>>::empty()
        } else {
            seq![name + ": input_schema.type must be \"object\""@]
        }) + (if properties_fit(schema) {
            Seq::<Seq<char>>::empty()
        } else {
            seq![name + ": input_schema.properties must be an object"@]
        })
    }
}

/// All that is wrong with a tool.
pub open spec fn tool_issues(t: ToolView) -> Seq<Seq<char>> {
    name_issues(t.name) + description_issues(t.name, t.description) + schema_issues(
        t.name,
        t.input_schema,
    )
}

fn count_solid(s: &str) -> (r: usize)
    ensures
        r == solid_chars(s@),
{
    let v: Vec<char> = chars_of(s);
    let mut n: usize = 0;
    let mut i: usize = 0;
    while i < v.len()
        invariant
            i <= v@.len(),
            n == solid_chars(v@.take(i as int)),
            n <= i,
        decreases v@.len() - i,
    {
        assert(v@.take(i + 1).drop_last() =~= v@.take(i as int));
        if !is_white_space(v[i]) {
            n = n + 1;
        }
        i = i + 1;
    }
    assert(v@.take(i as int) =~= v@);
    n
}

fn push_issue(issues: &mut Vec<String>, issue: String)
    ensures
        texts(final(issues)@) == texts(old(issues)@).push(issue@),
{
    issues.push(issue);
    assert(texts(issues@) =~= texts(old(issues)@).push(issue@));
}

/// Lists what is wrong with what a tool tells about itself; an empty list is
/// a clean bill.
pub fn check_tool_quality(tool: &Tool) -> (r: Vec<String>)
    ensures
        texts(r@) == tool_issues(tool@),
{
    let mut issues: Vec<String> = Vec::new();
    assert(texts(issues@) =~= Seq::empty());
    let name: &str = tool.name.as_str();
    if is_blank(name) {
        push_issue(&mut issues, "name is empty".to_owned());
    } else if !contains(name, ".") {
        let mut issue: String = "name ".to_owned();
        let form: String = debug_text(name);
        issue.push_str(form.as_str());
        issue.push_str(" is not dotted (expected domain.verb)");
        push_issue(&mut issues, issue);
    }
    assert(texts(issues@) =~= name_issues(name@));
    let ghost a = texts(issues@);
    let description: String = trim(tool.description.as_str());
    if count_solid(description.as_str()) < MIN_DESCRIPTION_CHARS {
        let mut issue: String = name.to_owned();
        issue.push_str(": description too short / stub (");
        let form: String = debug_text(description.as_str());
        issue.push_str(form.as_str());
        issue.push_str(")");
        push_issue(&mut issues, issue);
    }
    assert(texts(issues@) =~= a + description_issues(name@, tool.description@));
    let ghost b = texts(issues@);
    let schema: &Json = &tool.input_schema;
    match schema {
        Json::Object(_) => {
            let typed: bool = match schema.get_str("type") {
                Some(t) => same_text(t.as_str(), "object"),
                None => false,
            };
            assert(typed == type_is_object(schema@));
            if !typed {
                let mut issue: String = name.to_owned();
                issue.push_str(": input_schema.type must be \"object\"");
                push_issue(&mut issues, issue);
            }
            let fits: bool = match schema.get("properties") {
                Some(Json::Object(_)) => true,
                Some(_) => false,
                None => true,
            };
            assert(fits == properties_fit(schema@));
            if !fits {
                let mut issue: String = name.to_owned();
                issue.push_str(": input_schema.properties must be an object");
                push_issue(&mut issues, issue);
            }
        },
        _ => {
            let mut issue: String = name.to_owned();
            issue.push_str(": input_schema is not a JSON object");
            push_issue(&mut issues, issue);
        },
    }
    assert(texts(issues@) =~= b + schema_issues(name@, schema@));
    issues
}

/// A tool is in order exactly where its name is dotted, its description has ten
/// characters that are not white space, and its schema is an object of the type
/// `object` whose properties, if it has any, are an object. There is one
/// complaint for each thing that is not.
pub proof fn law_what_a_tool_must_tell(t: ToolView)
    ensures
        ({
            let name = !blank(t.name) && exists|i: int|
                0 <= i < t.name.len() && #[trigger] t.name[i] == '.';
            let description = trimmed(t.description).filter(|c: char| !white_space(c)).len() >= 10;
            let object = t.input_schema is Object;
            let kind = t.input_schema.get_str("type"@) == Some("object"@);
            let properties = t.input_schema.get("properties"@) matches Some(p) ==> p is Object;
            &&& tool_issues(t).len() == 0 <==> name && description && object && kind && properties
            &&& tool_issues(t).len() == (if name {
                0int
            } else {
                1
            }) + (if description {
                0int
            } else {
                1
            }) + (if !object {
                1int
            } else {
                (if kind {
                    0int
                } else {
                    1
                }) + (if properties {
                    0int
                } else {
                    1
                })
            })
        }),
{
    reveal_strlit(".");
    lemma_solid_chars(trimmed(t.description));
    if occurs(t.name, "."@) {
        let i = choose|i: int| #[trigger] crate::text::occurs_at(t.name, "."@, i);
        assert(t.name.subrange(i, i + 1)[0] == t.name[i]);
    }
    if exists|i: int| 0 <= i < t.name.len() && #[trigger] t.name[i] == '.' {
        let i = choose|i: int| 0 <= i < t.name.len() && #[trigger] t.name[i] == '.';
        assert(t.name.subrange(i, i + 1) =~= "."@);
        assert(crate::text::occurs_at(t.name, "."@, i));
    }
}

proof fn lemma_solid_chars(s: Seq<char>)
    ensures
        solid_chars(s) == s.filter(|c: char| !white_space(c)).len(),
    decreases s.len(),
{
    reveal(Seq::filter);
    if s.len() > 0 {
        lemma_solid_chars(s.drop_last());
    }
}

/// Every complaint about a tool's description or schema starts with the tool's
/// name, so that it is known whose it is.
pub proof fn law_complaints_name_the_tool(t: ToolView, i: int)
    requires
        0 <= i < tool_issues(t).len(),
        i >= name_issues(t.name).len(),
    ensures
        t.name.is_prefix_of(tool_issues(t)[i]),
{
    let issue = tool_issues(t)[i];
    let n = name_issues(t.name).len();
    let d = description_issues(t.name, t.description);
    if i < n + d.len() {
        assert(issue == d[i - n]);
    } else {
        assert(issue == schema_issues(t.name, t.input_schema)[i - n - d.len()]);
    }
    assert(t.name =~= issue.take(t.name.len() as int));
}

} // verus!

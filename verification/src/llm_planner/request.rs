//! The requests that go to the model, and the hash by which their stable
//! part is known.

use std::collections::hash_map::DefaultHasher;
use std::hash::Hasher;
use vstd::prelude::*;
use crate::json::{
    items_view,
    json_text,
    law_a_member_is_found_by_its_name,
    members_view,
    Json,
    JsonView,
};
use crate::llm_planner::message::{messages, LlmMessage, MessageView};
use crate::planner::text_of;
use crate::text::{hex16, hex_text};

verus! {

/// A tool as it is advertised to the model.
#[derive(Debug, PartialEq, Eq)]
pub struct LlmToolDescriptor {
    pub name: String,
    pub description: String,
    pub input_schema: Json,
}

/// What an [`LlmToolDescriptor`] stands for.
pub ghost struct DescriptorView {
    pub name: Seq<char>,
    pub description: Seq<char>,
    pub input_schema: JsonView,
}

impl View for LlmToolDescriptor {
    type V = DescriptorView;

    open spec fn view(&self) -> DescriptorView {
        DescriptorView {
            name: self.name@,
            description: self.description@,
            input_schema: self.input_schema@,
        }
    }
}

/// The descriptors of a sequence.
pub open spec fn descriptors(v: Seq<LlmToolDescriptor>) -> Seq<DescriptorView> {
    v.map_values(|d: LlmToolDescriptor| d@)
}

/// Where a request should be served to find its prefix already loaded.
#[derive(Debug, PartialEq, Eq)]
pub struct SlotHint {
    pub prefix_hash: String,
    pub preferred_slot: Option<u32>,
}

/// What the router needs to know about a request.
#[derive(Debug, PartialEq, Eq)]
pub struct RouteHint {
    pub task: String,
    pub session: Option<String>,
    pub estimated_prompt_tokens: u32,
}

/// One request to the model. The temperature is held as the bit pattern of a
/// single-precision float.
#[derive(Debug)]
pub struct LlmRequest<'a> {
    pub model: &'a String,
    pub system: &'a Option<String>,
    pub messages: &'a Vec<LlmMessage>,
    pub tools: &'a Vec<LlmToolDescriptor>,
    pub max_tokens: u32,
    pub temperature: Option<u32>,
    pub id_slot: Option<u32>,
    pub slot_hint: Option<SlotHint>,
    pub route: Option<RouteHint>,
}

/// What a [`SlotHint`] stands for.
pub ghost struct SlotHintView {
    pub prefix_hash: Seq<char>,
    pub preferred_slot: Option<u32>,
}

/// What a [`RouteHint`] stands for.
pub ghost struct RouteHintView {
    pub task: Seq<char>,
    pub session: Option<Seq<char>>,
    pub estimated_prompt_tokens: u32,
}

/// What an [`LlmRequest`] stands for.
pub ghost struct LlmRequestView {
    pub model: Seq<char>,
    pub system: Option<Seq<char>>,
    pub messages: Seq<MessageView>,
    pub tools: Seq<DescriptorView>,
    pub max_tokens: u32,
    pub temperature: Option<u32>,
    pub id_slot: Option<u32>,
    pub slot_hint: Option<SlotHintView>,
    pub route: Option<RouteHintView>,
}

impl View for SlotHint {
    type V = SlotHintView;

    open spec fn view(&self) -> SlotHintView {
        SlotHintView { prefix_hash: self.prefix_hash@, preferred_slot: self.preferred_slot }
    }
}

impl View for RouteHint {
    type V = RouteHintView;

    open spec fn view(&self) -> RouteHintView {
        RouteHintView {
            task: self.task@,
            session: text_of(self.session),
            estimated_prompt_tokens: self.estimated_prompt_tokens,
        }
    }
}

impl<'a> View for LlmRequest<'a> {
    type V = LlmRequestView;

    open spec fn view(&self) -> LlmRequestView {
        LlmRequestView {
            model: self.model@,
            system: text_of(*self.system),
            messages: messages(self.messages@),
            tools: descriptors(self.tools@),
            max_tokens: self.max_tokens,
            temperature: self.temperature,
            id_slot: self.id_slot,
            slot_hint: match self.slot_hint {
                Some(h) => Some(h@),
                None => None,
            },
            route: match self.route {
                Some(h) => Some(h@),
                None => None,
            },
        }
    }
}

// ---------------------------------------------------------------------------
// How large a request is
// ---------------------------------------------------------------------------

/// A tool as it stands in a request.
pub open spec fn descriptor_json(d: DescriptorView) -> JsonView {
    JsonView::Object(
        seq![
            ("name"@, JsonView::Str(d.name)),
            ("description"@, JsonView::Str(d.description)),
            ("input_schema"@, d.input_schema),
        ],
    )
}

/// The tools as they stand in a request.
pub open spec fn catalog_json(tools: Seq<DescriptorView>) -> JsonView {
    JsonView::Array(tools.map_values(|d: DescriptorView| descriptor_json(d)))
}

/// How many bytes a text takes in memory.
pub open spec fn byte_count(s: Seq<char>) -> usize {
    vstd::utf8::encode_utf8(s).len() as usize
}

/// How many tokens the context of a routed request must hold: the
/// conversation, a quarter of the bytes of the system prompt and of the tools
/// as they are sent, and the answer.
pub open spec fn context_need(
    history_tokens: usize,
    system: Option<Seq<char>>,
    tools: Seq<DescriptorView>,
    max_tokens: u32,
) -> u32 {
    let prompt = match system {
        Some(s) => byte_count(s) as int,
        None => 0,
    };
    let catalog = byte_count(json_text(catalog_json(tools))) as int;
    let total = (history_tokens + (prompt + catalog) / 4) % 0x1_0000_0000;
    if total + max_tokens > u32::MAX {
        u32::MAX
    } else {
        (total + max_tokens) as u32
    }
}

fn catalog(tools: &Vec<LlmToolDescriptor>) -> (r: Json)
    ensures
        r@ == catalog_json(descriptors(tools@)),
{
    let ghost all = descriptors(tools@).map_values(|d: DescriptorView| descriptor_json(d));
    let mut items: Vec<Json> = Vec::new();
    assert(items_view(items@) =~= Seq::empty());
    let mut i: usize = 0;
    while i < tools.len()
        invariant
            i <= tools@.len(),
            all == descriptors(tools@).map_values(|d: DescriptorView| descriptor_json(d)),
            items_view(items@) == all.take(i as int),
        decreases tools@.len() - i,
    {
        let mut m: Vec<(String, Json)> = Json::no_members();
        Json::push_member(&mut m, "name", Json::string(tools[i].name.as_str()));
        Json::push_member(&mut m, "description", Json::string(tools[i].description.as_str()));
        Json::push_member(&mut m, "input_schema", tools[i].input_schema.copy());
        let j: Json = Json::Object(m);
        assert(members_view(m@) =~= seq![
            ("name"@, JsonView::Str(tools@[i as int].name@)),
            ("description"@, JsonView::Str(tools@[i as int].description@)),
            ("input_schema"@, tools@[i as int].input_schema@),
        ]);
        assert(j@ == all[i as int]);
        Json::push_item(&mut items, j);
        assert(all.take(i + 1) =~= all.take(i as int).push(all[i as int]));
        i = i + 1;
    }
    assert(all.take(i as int) =~= all);
    Json::Array(items)
}

/// How many tokens the context of a routed request must hold, the
/// conversation being estimated at `history_tokens`. A count that does not
/// fit is cut to its lower half, as a conversion to 32 bits does.
pub fn route_estimate(
    history_tokens: usize,
    system_prompt: &Option<String>,
    tools: &Vec<LlmToolDescriptor>,
    max_tokens: u32,
) -> (r: u32)
    ensures
        r == context_need(history_tokens, text_of(*system_prompt), descriptors(tools@), max_tokens),
{
    let prompt: usize = match system_prompt {
        Some(s) => s.as_str().len(),
        None => 0,
    };
    let text: String = catalog(tools).to_text();
    let sent: usize = text.as_str().len();
    let total: u128 = (history_tokens as u128 + (prompt as u128 + sent as u128) / 4)
        % 0x1_0000_0000;
    let low: u32 = total as u32;
    low.saturating_add(max_tokens)
}

// ---------------------------------------------------------------------------
// The hash of the stable prefix
// ---------------------------------------------------------------------------

/// A text as it is fed to the hasher: its bytes, then one that no text holds.
pub open spec fn text_writes(s: Seq<char>) -> Seq<Seq<u8>> {
    seq![vstd::utf8::encode_utf8(s), seq![0xffu8]]
}

/// The system prompt as it is fed to the hasher. Having none is told apart
/// from having an empty one.
pub open spec fn system_writes(system: Option<Seq<char>>) -> Seq<Seq<u8>> {
    match system {
        Some(s) => seq![seq![1u8]] + text_writes(s),
        None => seq![seq![0u8]],
    }
}

/// The tools as they are fed to the hasher.
pub open spec fn tool_writes(tools: Seq<DescriptorView>) -> Seq<Seq<u8>>
    decreases tools.len(),
{
    if tools.len() == 0 {
        Seq::empty()
    } else {
        tool_writes(tools.drop_last()) + text_writes(tools.last().name) + text_writes(
            tools.last().description,
        ) + text_writes(json_text(tools.last().input_schema))
    }
}

/// All that is fed to the hasher for a stable prefix.
pub open spec fn prefix_writes(system: Option<Seq<char>>, tools: Seq<DescriptorView>) -> Seq<
    Seq<u8>,
> {
    system_writes(system) + tool_writes(tools)
}

/// The hash of a stable prefix, as sixteen hexadecimal digits.
pub open spec fn prefix_hash(system: Option<Seq<char>>, tools: Seq<DescriptorView>) -> Seq<char> {
    hex_text(
        <DefaultHasher as vstd::std_specs::hash::DefaultHasherAdditionalSpecFns>::spec_finish(
            prefix_writes(system, tools),
        ) as nat,
        16,
    )
}

fn feed(hasher: &mut DefaultHasher, s: &str)
    ensures
        final(hasher)@ == old(hasher)@ + text_writes(s@),
{
    hasher.write(s.as_bytes());
    let end: [u8; 1] = [0xff];
    hasher.write(&end);
    assert(end@ =~= seq![0xffu8]);
    assert(hasher@ =~= old(hasher)@ + text_writes(s@));
}

/// The hash of the system prompt and the tools: equal prefixes have equal
/// hashes within one process.
pub fn compute_prefix_hash(system_prompt: &Option<String>, tools: &Vec<LlmToolDescriptor>) -> (r:
    String)
    ensures
        r@ == prefix_hash(text_of(*system_prompt), descriptors(tools@)),
        r@.len() == 16,
{
    let mut hasher: DefaultHasher = DefaultHasher::new();
    let ghost system = text_of(*system_prompt);
    match system_prompt {
        Some(s) => {
            let some: [u8; 1] = [1];
            hasher.write(&some);
            assert(some@ =~= seq![1u8]);
            feed(&mut hasher, s.as_str());
        },
        None => {
            let none: [u8; 1] = [0];
            hasher.write(&none);
            assert(none@ =~= seq![0u8]);
        },
    }
    assert(hasher@ =~= system_writes(system));
    let ghost all = descriptors(tools@);
    let mut i: usize = 0;
    while i < tools.len()
        invariant
            i <= tools@.len(),
            all == descriptors(tools@),
            hasher@ == system_writes(system) + tool_writes(all.take(i as int)),
        decreases tools@.len() - i,
    {
        let ghost before = hasher@;
        let tool: &LlmToolDescriptor = &tools[i];
        feed(&mut hasher, tool.name.as_str());
        feed(&mut hasher, tool.description.as_str());
        let schema: String = tool.input_schema.to_text();
        feed(&mut hasher, schema.as_str());
        assert(all.take(i + 1).drop_last() =~= all.take(i as int));
        assert(all.take(i + 1).last() == tools@[i as int]@);
        assert(hasher@ =~= system_writes(system) + tool_writes(all.take(i + 1)));
        i = i + 1;
    }
    assert(all.take(i as int) =~= all);
    hex16(hasher.finish())
}

/// A planner without a system prompt never feeds the hasher what one with an
/// empty prompt feeds it, whatever the tools.
pub proof fn law_no_prompt_is_not_the_empty_prompt(
    tools: Seq<DescriptorView>,
    other: Seq<DescriptorView>,
    prompt: Seq<char>,
)
    ensures
        prefix_writes(None, tools) != prefix_writes(Some(prompt), other),
{
    assert(prefix_writes(None, tools)[0] == seq![0u8]);
    assert(prefix_writes(Some(prompt), other)[0] == seq![1u8]);
    assert(seq![0u8][0] != seq![1u8][0]);
}

/// The hasher is fed the whole prefix: where it is fed the same, the system
/// prompt is the same, and so are the tools, by their number and order, their
/// names, their descriptions and the texts of their schemas.
pub proof fn law_the_whole_prefix_is_fed(
    one: Option<Seq<char>>,
    tools: Seq<DescriptorView>,
    other: Option<Seq<char>>,
    others: Seq<DescriptorView>,
)
    requires
        prefix_writes(one, tools) == prefix_writes(other, others),
    ensures
        one == other,
        tools.len() == others.len(),
        forall|i: int|
            0 <= i < tools.len() ==> {
                &&& (#[trigger] tools[i]).name == others[i].name
                &&& tools[i].description == others[i].description
                &&& json_text(tools[i].input_schema) == json_text(others[i].input_schema)
            },
{
    let a = prefix_writes(one, tools);
    let b = prefix_writes(other, others);
    assert(a[0] == system_writes(one)[0]);
    assert(b[0] == system_writes(other)[0]);
    assert(seq![0u8][0] != seq![1u8][0]);
    assert(one is Some <==> other is Some);
    if one is Some {
        assert(a[1] == vstd::utf8::encode_utf8(one->0));
        assert(b[1] == vstd::utf8::encode_utf8(other->0));
        lemma_encoding_tells(one->0, other->0);
    }
    let n = system_writes(one).len() as int;
    assert(tool_writes(tools) =~= a.skip(n));
    assert(tool_writes(others) =~= b.skip(n));
    lemma_tool_writes_tell(tools, others);
}

proof fn lemma_encoding_tells(a: Seq<char>, b: Seq<char>)
    requires
        vstd::utf8::encode_utf8(a) == vstd::utf8::encode_utf8(b),
    ensures
        a == b,
{
    vstd::utf8::encode_utf8_decode_utf8(a);
    vstd::utf8::encode_utf8_decode_utf8(b);
}

proof fn lemma_tool_writes_count(tools: Seq<DescriptorView>)
    ensures
        tool_writes(tools).len() == 6 * tools.len(),
    decreases tools.len(),
{
    if tools.len() > 0 {
        lemma_tool_writes_count(tools.drop_last());
    }
}

proof fn lemma_tool_writes_tell(tools: Seq<DescriptorView>, others: Seq<DescriptorView>)
    requires
        tool_writes(tools) == tool_writes(others),
    ensures
        tools.len() == others.len(),
        forall|i: int|
            0 <= i < tools.len() ==> {
                &&& (#[trigger] tools[i]).name == others[i].name
                &&& tools[i].description == others[i].description
                &&& json_text(tools[i].input_schema) == json_text(others[i].input_schema)
            },
    decreases tools.len(),
{
    lemma_tool_writes_count(tools);
    lemma_tool_writes_count(others);
    if tools.len() > 0 {
        let all = tool_writes(tools);
        let a = tools.drop_last();
        let b = others.drop_last();
        lemma_tool_writes_count(a);
        lemma_tool_writes_count(b);
        let n = 6 * a.len() as int;
        assert(tool_writes(a) =~= all.take(n));
        assert(tool_writes(b) =~= all.take(n));
        lemma_tool_writes_tell(a, b);
        let x = tools.last();
        let y = others.last();
        assert(all[n] == vstd::utf8::encode_utf8(x.name));
        assert(all[n] == vstd::utf8::encode_utf8(y.name));
        assert(all[n + 2] == vstd::utf8::encode_utf8(x.description));
        assert(all[n + 2] == vstd::utf8::encode_utf8(y.description));
        assert(all[n + 4] == vstd::utf8::encode_utf8(json_text(x.input_schema)));
        assert(all[n + 4] == vstd::utf8::encode_utf8(json_text(y.input_schema)));
        lemma_encoding_tells(x.name, y.name);
        lemma_encoding_tells(x.description, y.description);
        lemma_encoding_tells(json_text(x.input_schema), json_text(y.input_schema));
        assert forall|i: int| 0 <= i < tools.len() implies {
            &&& (#[trigger] tools[i]).name == others[i].name
            &&& tools[i].description == others[i].description
            &&& json_text(tools[i].input_schema) == json_text(others[i].input_schema)
        } by {
            if i < a.len() {
                assert(a[i] == tools[i]);
                assert(b[i] == others[i]);
            }
        }
    }
}

/// What a request is estimated to need is the conversation, a token for every
/// four bytes of the system prompt and of the tools as they are described, and
/// room for the answer; as much as can be said where that is more.
pub proof fn law_the_need_adds_up(
    history_tokens: usize,
    system: Option<Seq<char>>,
    tools: Seq<DescriptorView>,
    max_tokens: u32,
)
    ensures
        ({
            let described = match system {
                Some(s) => byte_count(s) as int,
                None => 0,
            } + byte_count(json_text(catalog_json(tools)));
            let need = history_tokens + described / 4;
            need <= u32::MAX ==> context_need(history_tokens, system, tools, max_tokens) == if need
                + max_tokens <= u32::MAX {
                need + max_tokens
            } else {
                u32::MAX as int
            }
        }),
{
}

/// Tools are described by their names, their descriptions and their schemas, in
/// their order.
pub proof fn law_the_catalog_describes_each_tool(tools: Seq<DescriptorView>, i: int)
    requires
        0 <= i < tools.len(),
    ensures
        ({
            &&& catalog_json(tools) matches JsonView::Array(items)
            &&& items.len() == tools.len()
            &&& items[i].get_str("name"@) == Some(tools[i].name)
            &&& items[i].get_str("description"@) == Some(tools[i].description)
            &&& items[i].get("input_schema"@) == Some(tools[i].input_schema)
        }),
{
    let m = descriptor_json(tools[i])->Object_0;
    reveal_strlit("name");
    reveal_strlit("description");
    reveal_strlit("input_schema");
    assert("name"@.len() != "description"@.len());
    assert("name"@.len() != "input_schema"@.len());
    assert("description"@.len() != "input_schema"@.len());
    assert(m[0].0 == "name"@);
    assert(m[1].0 == "description"@);
    assert(m[2].0 == "input_schema"@);
    law_a_member_is_found_by_its_name(m, 0);
    law_a_member_is_found_by_its_name(m, 1);
    law_a_member_is_found_by_its_name(m, 2);
}

/// A request is known by what it stands for: whom it is to, what it says, and
/// how it is to be served.
pub proof fn law_requests_are_told_apart(a: LlmRequest<'_>, b: LlmRequest<'_>)
    requires
        a@ == b@,
    ensures
        a.model@ == b.model@,
        text_of(*a.system) == text_of(*b.system),
        messages(a.messages@) == messages(b.messages@),
        descriptors(a.tools@) == descriptors(b.tools@),
        a.max_tokens == b.max_tokens,
        a.temperature == b.temperature,
        a.id_slot == b.id_slot,
        a.slot_hint is Some <==> b.slot_hint is Some,
        a.slot_hint matches Some(h) ==> h.prefix_hash@ == b.slot_hint->0.prefix_hash@
            && h.preferred_slot == b.slot_hint->0.preferred_slot,
        a.route is Some <==> b.route is Some,
        a.route matches Some(h) ==> h.task@ == b.route->0.task@ && text_of(h.session) == text_of(
            b.route->0.session,
        ) && h.estimated_prompt_tokens == b.route->0.estimated_prompt_tokens,
{
}

/// The hash of a prefix is what the hasher makes of all that it is fed, in
/// sixteen digits: two prefixes of which it is fed the same have one hash.
pub proof fn law_the_hash_is_of_all_that_is_fed(
    one: Option<Seq<char>>,
    tools: Seq<DescriptorView>,
)
    ensures
        prefix_hash(one, tools).len() == 16,
        prefix_hash(one, tools) == hex_text(
            <DefaultHasher as vstd::std_specs::hash::DefaultHasherAdditionalSpecFns>::spec_finish(
                prefix_writes(one, tools),
            ) as nat,
            16,
        ),
{
    crate::text::law_sixteens_are_digits(
        <DefaultHasher as vstd::std_specs::hash::DefaultHasherAdditionalSpecFns>::spec_finish(
            prefix_writes(one, tools),
        ) as nat,
        0,
        16,
    );
}

} // verus!

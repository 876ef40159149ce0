//! What the planner is configured with.

use vstd::prelude::*;
use crate::llm_planner::resolve::FUZZY_TOOL_NAME_THRESHOLD;
use crate::planner::text_of;
use crate::text::texts;

verus! {

/// The planner's knobs. Floats are held as the bit patterns of
/// single-precision ones. Of the four hooks only the presence is held here:
/// whoever drives the planner calls them.
#[derive(Debug)]
pub struct LlmPlannerConfig {
    pub model: String,
    pub system_prompt: Option<String>,
    /// How many tokens the model may answer with per step.
    pub max_tokens: u32,
    pub temperature: Option<u32>,
    /// The tools that the active role may use; `None` for all of them.
    pub tool_allowlist: Option<Vec<String>>,
    /// The size of the context window; `None` for no pruning.
    pub context_window_tokens: Option<usize>,
    /// Whether somebody wants to know what is pruned.
    pub prune_sink: bool,
    /// Whether each turn starts with a look into the memory.
    pub context_provider: bool,
    /// Whether each turn may get a system prompt of its own.
    pub system_prompt_refiner: bool,
    /// Whether each turn starts with what was said before.
    pub conversation_seeder: bool,
    /// How like a tool's name another must be to be taken for it.
    pub tool_name_auto_correct_threshold: u32,
}

/// What an [`LlmPlannerConfig`] stands for.
pub ghost struct ConfigView {
    pub model: Seq<char>,
    pub system_prompt: Option<Seq<char>>,
    pub max_tokens: u32,
    pub temperature: Option<u32>,
    pub tool_allowlist: Option<Seq<Seq<char>>>,
    pub context_window_tokens: Option<usize>,
    pub prune_sink: bool,
    pub context_provider: bool,
    pub system_prompt_refiner: bool,
    pub conversation_seeder: bool,
    pub tool_name_auto_correct_threshold: u32,
}

/// A list of names, where there is one.
pub open spec fn opt_texts(v: Option<Vec<String>>) -> Option<Seq<Seq<char>>> {
    match v {
        Some(names) => Some(texts(names@)),
        None => None,
    }
}

impl View for LlmPlannerConfig {
    type V = ConfigView;

    open spec fn view(&self) -> ConfigView {
        ConfigView {
            model: self.model@,
            system_prompt: text_of(self.system_prompt),
            max_tokens: self.max_tokens,
            temperature: self.temperature,
            tool_allowlist: opt_texts(self.tool_allowlist),
            context_window_tokens: self.context_window_tokens,
            prune_sink: self.prune_sink,
            context_provider: self.context_provider,
            system_prompt_refiner: self.system_prompt_refiner,
            conversation_seeder: self.conversation_seeder,
            tool_name_auto_correct_threshold: self.tool_name_auto_correct_threshold,
        }
    }
}

impl LlmPlannerConfig {
    /// The defaults for a model.
    pub fn new(model: String) -> (r: LlmPlannerConfig)
        ensures
            r@ == (ConfigView {
                model: model@,
                system_prompt: None,
                max_tokens: 1024,
                temperature: None,
                tool_allowlist: None,
                context_window_tokens: None,
                prune_sink: false,
                context_provider: false,
                system_prompt_refiner: false,
                conversation_seeder: false,
                tool_name_auto_correct_threshold: FUZZY_TOOL_NAME_THRESHOLD,
            }),
    {
        LlmPlannerConfig {
            model,
            system_prompt: None,
            max_tokens: 1024,
            temperature: None,
            tool_allowlist: None,
            context_window_tokens: None,
            prune_sink: false,
            context_provider: false,
            system_prompt_refiner: false,
            conversation_seeder: false,
            tool_name_auto_correct_threshold: FUZZY_TOOL_NAME_THRESHOLD,
        }
    }

    pub fn with_tool_name_auto_correct_threshold(self, threshold: u32) -> (r: LlmPlannerConfig)
        ensures
            r@ == (ConfigView { tool_name_auto_correct_threshold: threshold, ..self@ }),
    {
        LlmPlannerConfig { tool_name_auto_correct_threshold: threshold, ..self }
    }

    pub fn with_system_prompt(self, prompt: String) -> (r: LlmPlannerConfig)
        ensures
            r@ == (ConfigView { system_prompt: Some(prompt@), ..self@ }),
    {
        LlmPlannerConfig { system_prompt: Some(prompt), ..self }
    }

    pub fn with_max_tokens(self, max_tokens: u32) -> (r: LlmPlannerConfig)
        ensures
            r@ == (ConfigView { max_tokens, ..self@ }),
    {
        LlmPlannerConfig { max_tokens, ..self }
    }

    pub fn with_temperature(self, temperature: u32) -> (r: LlmPlannerConfig)
        ensures
            r@ == (ConfigView { temperature: Some(temperature), ..self@ }),
    {
        LlmPlannerConfig { temperature: Some(temperature), ..self }
    }

    /// Lets the conversation be pruned once it takes up four fifths of
    /// `tokens`.
    pub fn with_context_window(self, tokens: usize) -> (r: LlmPlannerConfig)
        ensures
            r@ == (ConfigView { context_window_tokens: Some(tokens), ..self@ }),
    {
        LlmPlannerConfig { context_window_tokens: Some(tokens), ..self }
    }

    pub fn with_prune_sink(self) -> (r: LlmPlannerConfig)
        ensures
            r@ == (ConfigView { prune_sink: true, ..self@ }),
    {
        LlmPlannerConfig { prune_sink: true, ..self }
    }

    pub fn with_context_provider(self) -> (r: LlmPlannerConfig)
        ensures
            r@ == (ConfigView { context_provider: true, ..self@ }),
    {
        LlmPlannerConfig { context_provider: true, ..self }
    }

    pub fn with_system_prompt_refiner(self) -> (r: LlmPlannerConfig)
        ensures
            r@ == (ConfigView { system_prompt_refiner: true, ..self@ }),
    {
        LlmPlannerConfig { system_prompt_refiner: true, ..self }
    }

    pub fn with_conversation_seeder(self) -> (r: LlmPlannerConfig)
        ensures
            r@ == (ConfigView { conversation_seeder: true, ..self@ }),
    {
        LlmPlannerConfig { conversation_seeder: true, ..self }
    }

    /// Restricts the tools to those of a role.
    pub fn with_tool_allowlist(self, allowlist: Option<Vec<String>>) -> (r: LlmPlannerConfig)
        ensures
            r@ == (ConfigView { tool_allowlist: opt_texts(allowlist), ..self@ }),
    {
        LlmPlannerConfig { tool_allowlist: allowlist, ..self }
    }
}

/// A configuration is known by what it stands for, setting by setting.
pub proof fn law_settings_are_told_apart(a: LlmPlannerConfig, b: LlmPlannerConfig)
    requires
        a@ == b@,
    ensures
        a.model@ == b.model@,
        text_of(a.system_prompt) == text_of(b.system_prompt),
        a.max_tokens == b.max_tokens,
        a.temperature == b.temperature,
        opt_texts(a.tool_allowlist) == opt_texts(b.tool_allowlist),
        a.context_window_tokens == b.context_window_tokens,
        a.prune_sink == b.prune_sink,
        a.context_provider == b.context_provider,
        a.system_prompt_refiner == b.system_prompt_refiner,
        a.conversation_seeder == b.conversation_seeder,
        a.tool_name_auto_correct_threshold == b.tool_name_auto_correct_threshold,
{
}

} // verus!

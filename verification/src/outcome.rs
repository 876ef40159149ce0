//! What a tool call comes to, and what a turn spends.

use vstd::prelude::*;
use crate::json::{Json, JsonView};

verus! {

/// Identifies a registered tool.
#[derive(Debug, Clone, Copy, PartialEq, Eq, Hash, Structural)]
pub struct ToolId(pub u128);

/// Whether the number `n`, its most significant digit first, is a random
/// UUID: one that names version 4 and the RFC's variant in their places.
pub open spec fn is_random_uuid(n: u128) -> bool {
    &&& (n >> 76u128) & 0xf == 4
    &&& (n >> 62u128) & 0x3 == 2
}

/// `uuid::Uuid::new_v4`, as a number: version and variant are set, and of the
/// other digits, which are random, nothing is claimed.
#[verifier::external_body]
fn random_number() -> (r: u128)
    ensures
        is_random_uuid(r),
{
    uuid::Uuid::new_v4().as_u128()
}

impl ToolId {
    /// An id drawn at random.
    pub fn new() -> (r: ToolId)
        ensures
            is_random_uuid(r.0),
    {
        ToolId(random_number())
    }
}

/// Why an operation of the agent failed.
#[derive(Debug, PartialEq, Eq)]
pub enum AivyxError {
    /// The configuration is unusable.
    Config(String),
    /// A tool could not do its work.
    Tool { tool: ToolId, detail: String },
    /// A channel could not deliver.
    Channel(String),
    /// Anything else.
    Internal(String),
}

/// What an [`AivyxError`] stands for.
pub ghost enum ErrorView {
    Config(Seq<char>),
    Tool { tool: ToolId, detail: Seq<char> },
    Channel(Seq<char>),
    Internal(Seq<char>),
}

impl View for AivyxError {
    type V = ErrorView;

    open spec fn view(&self) -> ErrorView {
        match *self {
            AivyxError::Config(s) => ErrorView::Config(s@),
            AivyxError::Tool { tool, detail } => ErrorView::Tool { tool, detail: detail@ },
            AivyxError::Channel(s) => ErrorView::Channel(s@),
            AivyxError::Internal(s) => ErrorView::Internal(s@),
        }
    }
}

impl ErrorView {
    /// The text that says what went wrong.
    pub open spec fn detail(self) -> Seq<char> {
        match self {
            ErrorView::Config(s) => s,
            ErrorView::Tool { tool, detail } => detail,
            ErrorView::Channel(s) => s,
            ErrorView::Internal(s) => s,
        }
    }
}

impl AivyxError {
    /// The text that says what went wrong.
    pub fn detail(&self) -> (r: &String)
        ensures
            r@ == self@.detail(),
    {
        match self {
            AivyxError::Config(s) => s,
            AivyxError::Tool { tool: _, detail } => detail,
            AivyxError::Channel(s) => s,
            AivyxError::Internal(s) => s,
        }
    }
}

/// Whether a tool has checked that its effect took place.
#[derive(Debug, Clone, Copy, PartialEq, Eq, Structural)]
pub enum Verification {
    Verified,
    Unverified,
    NotApplicable,
}

/// What a tool call came to.
#[derive(Debug, PartialEq, Eq)]
pub enum ToolOutcome {
    /// The tool ran.
    Completed { output: Json, verified: Verification },
    /// The scope that the call needs is not held.
    Denied { scope: String },
    /// The tool is not in the active role's allowlist.
    NotInRole { tool_name: String },
    /// The call was throttled.
    RateLimited { tool_name: String, reason: String },
    /// The operator must approve first.
    RequiresEscalation { reason: String },
    /// The tool ran and failed.
    Failed(AivyxError),
}

/// What a [`ToolOutcome`] stands for.
pub ghost enum OutcomeView {
    Completed { output: JsonView, verified: Verification },
    Denied { scope: Seq<char> },
    NotInRole { tool_name: Seq<char> },
    RateLimited { tool_name: Seq<char>, reason: Seq<char> },
    RequiresEscalation { reason: Seq<char> },
    Failed(ErrorView),
}

impl View for ToolOutcome {
    type V = OutcomeView;

    open spec fn view(&self) -> OutcomeView {
        match *self {
            ToolOutcome::Completed { output, verified } => OutcomeView::Completed {
                output: output@,
                verified,
            },
            ToolOutcome::Denied { scope } => OutcomeView::Denied { scope: scope@ },
            ToolOutcome::NotInRole { tool_name } => OutcomeView::NotInRole {
                tool_name: tool_name@,
            },
            ToolOutcome::RateLimited { tool_name, reason } => OutcomeView::RateLimited {
                tool_name: tool_name@,
                reason: reason@,
            },
            ToolOutcome::RequiresEscalation { reason } => OutcomeView::RequiresEscalation {
                reason: reason@,
            },
            ToolOutcome::Failed(e) => OutcomeView::Failed(e@),
        }
    }
}

/// A [`ToolOutcome`] without what it carries.
#[derive(Debug, Clone, Copy, PartialEq, Eq, Structural)]
pub enum ToolOutcomeSummary {
    Completed,
    Denied,
    NotInRole,
    RateLimited,
    RequiresEscalation,
    Failed,
}

impl ToolOutcome {
    /// The kind of outcome this is.
    pub fn summary(&self) -> (r: ToolOutcomeSummary)
        ensures
            r == (match self@ {
                OutcomeView::Completed { .. } => ToolOutcomeSummary::Completed,
                OutcomeView::Denied { .. } => ToolOutcomeSummary::Denied,
                OutcomeView::NotInRole { .. } => ToolOutcomeSummary::NotInRole,
                OutcomeView::RateLimited { .. } => ToolOutcomeSummary::RateLimited,
                OutcomeView::RequiresEscalation { .. } => ToolOutcomeSummary::RequiresEscalation,
                OutcomeView::Failed(_) => ToolOutcomeSummary::Failed,
            }),
    {
        match self {
            ToolOutcome::Completed { .. } => ToolOutcomeSummary::Completed,
            ToolOutcome::Denied { .. } => ToolOutcomeSummary::Denied,
            ToolOutcome::NotInRole { .. } => ToolOutcomeSummary::NotInRole,
            ToolOutcome::RateLimited { .. } => ToolOutcomeSummary::RateLimited,
            ToolOutcome::RequiresEscalation { .. } => ToolOutcomeSummary::RequiresEscalation,
            ToolOutcome::Failed(_) => ToolOutcomeSummary::Failed,
        }
    }
}

/// Tokens spent, and the context's estimated size around pruning.
#[derive(Debug, Clone, Copy, PartialEq, Eq, Structural)]
pub struct TokenUsage {
    pub input_tokens: u32,
    pub output_tokens: u32,
    pub cache_creation_input_tokens: u32,
    pub cache_read_input_tokens: u32,
    pub context_tokens_before_pruning: u32,
    pub context_tokens_after_pruning: u32,
}

impl Default for TokenUsage {
    fn default() -> (r: TokenUsage)
        ensures
            r == no_usage(),
    {
        TokenUsage {
            input_tokens: 0,
            output_tokens: 0,
            cache_creation_input_tokens: 0,
            cache_read_input_tokens: 0,
            context_tokens_before_pruning: 0,
            context_tokens_after_pruning: 0,
        }
    }
}

/// Nothing spent.
pub open spec fn no_usage() -> TokenUsage {
    TokenUsage {
        input_tokens: 0,
        output_tokens: 0,
        cache_creation_input_tokens: 0,
        cache_read_input_tokens: 0,
        context_tokens_before_pruning: 0,
        context_tokens_after_pruning: 0,
    }
}

/// What one step of the model spent.
#[derive(Debug, Clone, Copy, PartialEq, Eq, Structural)]
pub struct LlmUsage {
    pub input_tokens: u32,
    pub output_tokens: u32,
    pub cache_creation_input_tokens: u32,
    pub cache_read_input_tokens: u32,
}

/// Whether the four token counters of `a` can take those of `b` on top.
pub open spec fn usage_fits(a: TokenUsage, b: LlmUsage) -> bool {
    &&& a.input_tokens + b.input_tokens <= u32::MAX
    &&& a.output_tokens + b.output_tokens <= u32::MAX
    &&& a.cache_creation_input_tokens + b.cache_creation_input_tokens <= u32::MAX
    &&& a.cache_read_input_tokens + b.cache_read_input_tokens <= u32::MAX
}

/// `a` with the four token counters of `b` on top.
pub open spec fn usage_plus(a: TokenUsage, b: LlmUsage) -> TokenUsage {
    TokenUsage {
        input_tokens: (a.input_tokens + b.input_tokens) as u32,
        output_tokens: (a.output_tokens + b.output_tokens) as u32,
        cache_creation_input_tokens: (a.cache_creation_input_tokens
            + b.cache_creation_input_tokens) as u32,
        cache_read_input_tokens: (a.cache_read_input_tokens + b.cache_read_input_tokens) as u32,
        context_tokens_before_pruning: a.context_tokens_before_pruning,
        context_tokens_after_pruning: a.context_tokens_after_pruning,
    }
}

impl TokenUsage {
    /// This usage with a step's tokens on top.
    pub fn plus(self, step: LlmUsage) -> (r: TokenUsage)
        requires
            usage_fits(self, step),
        ensures
            r == usage_plus(self, step),
    {
        TokenUsage {
            input_tokens: self.input_tokens + step.input_tokens,
            output_tokens: self.output_tokens + step.output_tokens,
            cache_creation_input_tokens: self.cache_creation_input_tokens
                + step.cache_creation_input_tokens,
            cache_read_input_tokens: self.cache_read_input_tokens + step.cache_read_input_tokens,
            context_tokens_before_pruning: self.context_tokens_before_pruning,
            context_tokens_after_pruning: self.context_tokens_after_pruning,
        }
    }
}

/// Usage adds up: each kind of token to its own count, and the estimates around
/// pruning stay.
pub proof fn law_usage_adds_up(a: TokenUsage, b: LlmUsage)
    requires
        usage_fits(a, b),
    ensures
        ({
            let sum = usage_plus(a, b);
            &&& sum.input_tokens == a.input_tokens + b.input_tokens
            &&& sum.output_tokens == a.output_tokens + b.output_tokens
            &&& sum.cache_creation_input_tokens == a.cache_creation_input_tokens
                + b.cache_creation_input_tokens
            &&& sum.cache_read_input_tokens == a.cache_read_input_tokens + b.cache_read_input_tokens
            &&& sum.context_tokens_before_pruning == a.context_tokens_before_pruning
            &&& sum.context_tokens_after_pruning == a.context_tokens_after_pruning
        }),
{
}

/// An outcome is known by what it stands for: of which kind it is, and what it
/// says.
pub proof fn law_outcomes_are_told_apart(a: ToolOutcome, b: ToolOutcome)
    requires
        a@ == b@,
    ensures
        match (a, b) {
            (
                ToolOutcome::Completed { output: x, verified: v },
                ToolOutcome::Completed { output: y, verified: w },
            ) => x@ == y@ && v == w,
            (ToolOutcome::Denied { scope: s }, ToolOutcome::Denied { scope: t }) => s@ == t@,
            (ToolOutcome::NotInRole { tool_name: s }, ToolOutcome::NotInRole { tool_name: t }) => s@
                == t@,
            (
                ToolOutcome::RateLimited { tool_name: s, reason: x },
                ToolOutcome::RateLimited { tool_name: t, reason: y },
            ) => s@ == t@ && x@ == y@,
            (
                ToolOutcome::RequiresEscalation { reason: s },
                ToolOutcome::RequiresEscalation { reason: t },
            ) => s@ == t@,
            (ToolOutcome::Failed(e), ToolOutcome::Failed(f)) => match (e, f) {
                (AivyxError::Config(s), AivyxError::Config(t)) => s@ == t@,
                (
                    AivyxError::Tool { tool: i, detail: s },
                    AivyxError::Tool { tool: j, detail: t },
                ) => i == j && s@ == t@,
                (AivyxError::Channel(s), AivyxError::Channel(t)) => s@ == t@,
                (AivyxError::Internal(s), AivyxError::Internal(t)) => s@ == t@,
                _ => false,
            },
            _ => false,
        },
{
}

} // verus!

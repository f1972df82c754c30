//! The points at which a strategy steers a turn: before each step and after it.
use crate::types::{Skill, SkillV, ToolCall, ToolCallV, TurnEndReason};
use crate::views::opt_view;
use vstd::prelude::*;

verus! {

/// What a hook is told before a step.
pub struct PreStepContext<'a> {
    pub turn: u64,
    pub step: u64,
    pub skill: &'a Skill,
}

/// What a [`PreStepContext`] stands for.
pub struct PreStepV {
    pub turn: u64,
    pub step: u64,
    pub skill: SkillV,
}

impl<'a> View for PreStepContext<'a> {
    type V = PreStepV;

    open spec fn view(&self) -> PreStepV {
        PreStepV { turn: self.turn, step: self.step, skill: self.skill@ }
    }
}

/// What is to be done in a step.
#[derive(Debug)]
pub enum StepDecision {
    /// The model runs, with this text put before it as if the user had written it.
    Proceed { injection: Option<String> },
    /// A tool runs, without the model.
    ForceTool { call: ToolCall },
    /// The model answers this prompt alone, without the conversation.
    ForceLlm { system: String, prompt: String },
    /// The turn ends.
    Stop { reason: TurnEndReason },
}

/// What a [`StepDecision`] stands for.
pub enum StepDecisionV {
    Proceed { injection: Option<Seq<char>> },
    ForceTool { call: ToolCallV },
    ForceLlm { system: Seq<char>, prompt: Seq<char> },
    Stop { reason: TurnEndReason },
}

impl View for StepDecision {
    type V = StepDecisionV;

    open spec fn view(&self) -> StepDecisionV {
        match *self {
            StepDecision::Proceed { injection } => StepDecisionV::Proceed {
                injection: opt_view(injection),
            },
            StepDecision::ForceTool { call } => StepDecisionV::ForceTool { call: call@ },
            StepDecision::ForceLlm { system, prompt } => StepDecisionV::ForceLlm {
                system: system@,
                prompt: prompt@,
            },
            StepDecision::Stop { reason } => StepDecisionV::Stop { reason },
        }
    }
}

impl StepDecisionV {
    /// Whether the decision leaves nothing to the hooks after it.
    pub open spec fn decisive(self) -> bool {
        self != StepDecisionV::Proceed { injection: None }
    }
}

impl StepDecision {
    /// Whether the decision leaves nothing to the hooks after it.
    pub fn is_decisive(&self) -> (r: bool)
        ensures
            r == self@.decisive(),
    {
        match self {
            StepDecision::Proceed { injection: None } => false,
            _ => true,
        }
    }
}

/// What a hook is told after a step.
pub struct PostStepContext<'a> {
    pub turn: u64,
    pub step: u64,
    pub skill: &'a Skill,
    /// What the assistant wrote, or what the tool gave back.
    pub content: String,
    pub is_error: bool,
    /// Whether the model asked for tools.
    pub had_tool_calls: bool,
}

/// What a [`PostStepContext`] stands for.
pub struct PostStepV {
    pub turn: u64,
    pub step: u64,
    pub skill: SkillV,
    pub content: Seq<char>,
    pub is_error: bool,
    pub had_tool_calls: bool,
}

impl<'a> View for PostStepContext<'a> {
    type V = PostStepV;

    open spec fn view(&self) -> PostStepV {
        PostStepV {
            turn: self.turn,
            step: self.step,
            skill: self.skill@,
            content: self.content@,
            is_error: self.is_error,
            had_tool_calls: self.had_tool_calls,
        }
    }
}

/// Whether the turn goes on after a step.
#[derive(Debug, Clone, Copy, PartialEq, Eq, Structural)]
pub enum StepFlow {
    /// Another step runs.
    Continue,
    /// The turn ends.
    Stop { reason: TurnEndReason },
}

/// A hook at the two ends of a step. Hooks keep their own state.
pub trait StepHook: Sized {
    /// Whether a hook that is `before` and told `ctx` may become `after` and decide `decision`.
    spec fn decides(before: Self, ctx: PreStepV, after: Self, decision: StepDecisionV) -> bool;

    /// Whether a hook that is `before` and told `ctx` may become `after` and answer `flow`.
    spec fn concludes(before: Self, ctx: PostStepV, after: Self, flow: StepFlow) -> bool;

    /// Says what is to be done in the step that is about to begin.
    fn pre_step(&mut self, ctx: &PreStepContext) -> (decision: StepDecision)
        ensures
            Self::decides(*old(self), ctx@, *final(self), decision@),
    ;

    /// Says whether the turn goes on after the step that has just run.
    fn post_step(&mut self, ctx: &PostStepContext) -> (flow: StepFlow)
        ensures
            Self::concludes(*old(self), ctx@, *final(self), flow),
    ;
}

/// Whether `decision` is what hooks that are `before` decide together, becoming `after`: they are
/// asked in order up to the first that decides something; the rest is not asked.
pub open spec fn hooks_decide<H: StepHook>(
    before: Seq<H>,
    ctx: PreStepV,
    after: Seq<H>,
    decision: StepDecisionV,
) -> bool {
    exists|k: int| #[trigger] hooks_decide_at(before, ctx, after, decision, k)
}

/// [`hooks_decide`], where the hook at `k` decides, or none where `k` is their number.
pub open spec fn hooks_decide_at<H: StepHook>(
    before: Seq<H>,
    ctx: PreStepV,
    after: Seq<H>,
    decision: StepDecisionV,
    k: int,
) -> bool {
    &&& 0 <= k <= before.len()
    &&& after.len() == before.len()
    &&& forall|i: int|
        0 <= i < k ==> H::decides(
            before[i],
            ctx,
            #[trigger] after[i],
            StepDecisionV::Proceed { injection: None },
        )
    &&& k < before.len() ==> decision.decisive() && H::decides(before[k], ctx, after[k], decision)
    &&& k == before.len() ==> !decision.decisive()
    &&& forall|i: int| k < i < before.len() ==> #[trigger] after[i] == before[i]
}

/// Whether `flow` is what hooks that are `before` answer together, becoming `after`: they are asked
/// in order up to the first that ends the turn; the rest is not asked.
pub open spec fn hooks_conclude<H: StepHook>(
    before: Seq<H>,
    ctx: PostStepV,
    after: Seq<H>,
    flow: StepFlow,
) -> bool {
    exists|k: int| #[trigger] hooks_conclude_at(before, ctx, after, flow, k)
}

/// [`hooks_conclude`], where the hook at `k` ends the turn, or none where `k` is their number.
pub open spec fn hooks_conclude_at<H: StepHook>(
    before: Seq<H>,
    ctx: PostStepV,
    after: Seq<H>,
    flow: StepFlow,
    k: int,
) -> bool {
    &&& 0 <= k <= before.len()
    &&& after.len() == before.len()
    &&& forall|i: int|
        0 <= i < k ==> H::concludes(before[i], ctx, #[trigger] after[i], StepFlow::Continue)
    &&& k < before.len() ==> flow is Stop && H::concludes(before[k], ctx, after[k], flow)
    &&& k == before.len() ==> flow is Continue
    &&& forall|i: int| k < i < before.len() ==> #[trigger] after[i] == before[i]
}

/// Asks the hooks what is to be done; the first that decides something has the last word.
pub fn ask_before<H: StepHook>(hooks: &mut Vec<H>, ctx: &PreStepContext) -> (decision: StepDecision)
    ensures
        hooks_decide(old(hooks)@, ctx@, final(hooks)@, decision@),
{
    let mut i: usize = 0;
    let n: usize = hooks.len();
    let ghost before = hooks@;
    while i < n
        invariant
            i <= n,
            n == hooks@.len(),
            before.len() == n,
            before == old(hooks)@,
            forall|j: int|
                0 <= j < i ==> H::decides(
                    before[j],
                    ctx@,
                    #[trigger] hooks@[j],
                    StepDecisionV::Proceed { injection: None },
                ),
            forall|j: int| i <= j < n ==> #[trigger] hooks@[j] == before[j],
        decreases n - i,
    {
        let decision = hooks[i].pre_step(ctx);
        if decision.is_decisive() {
            assert(hooks_decide_at(before, ctx@, hooks@, decision@, i as int));
            return decision;
        }
        i += 1;
    }
    let decision = StepDecision::Proceed { injection: None };
    assert(hooks_decide_at(before, ctx@, hooks@, decision@, n as int));
    decision
}

/// Asks the hooks whether the turn goes on; the first that ends it has the last word.
pub fn ask_after<H: StepHook>(hooks: &mut Vec<H>, ctx: &PostStepContext) -> (flow: StepFlow)
    ensures
        hooks_conclude(old(hooks)@, ctx@, final(hooks)@, flow),
{
    let mut i: usize = 0;
    let n: usize = hooks.len();
    let ghost before = hooks@;
    while i < n
        invariant
            i <= n,
            n == hooks@.len(),
            before.len() == n,
            before == old(hooks)@,
            forall|j: int|
                0 <= j < i ==> H::concludes(
                    before[j],
                    ctx@,
                    #[trigger] hooks@[j],
                    StepFlow::Continue,
                ),
            forall|j: int| i <= j < n ==> #[trigger] hooks@[j] == before[j],
        decreases n - i,
    {
        let flow = hooks[i].post_step(ctx);
        match flow {
            StepFlow::Stop { .. } => {
                assert(hooks_conclude_at(before, ctx@, hooks@, flow, i as int));
                return flow;
            },
            StepFlow::Continue => {},
        }
        i += 1;
    }
    assert(hooks_conclude_at(before, ctx@, hooks@, StepFlow::Continue, n as int));
    StepFlow::Continue
}

/// The first hook that wants something decides: those before it let the step go on, and those after
/// it are not asked. Where no hook wants anything, all were asked and the step goes on.
pub proof fn law_the_first_hook_decides<H: StepHook>(
    before: Seq<H>,
    ctx: PreStepV,
    after: Seq<H>,
    decision: StepDecisionV,
)
    requires
        hooks_decide(before, ctx, after, decision),
    ensures
        after.len() == before.len(),
        decision == (StepDecisionV::Proceed { injection: None }) ==> forall|i: int|
            0 <= i < before.len() ==> H::decides(before[i], ctx, #[trigger] after[i], decision),
        decision != (StepDecisionV::Proceed { injection: None }) ==> exists|k: int|
            0 <= k < before.len() && H::decides(before[k], ctx, #[trigger] after[k], decision) && (
            forall|i: int|
                0 <= i < k ==> H::decides(
                    before[i],
                    ctx,
                    #[trigger] after[i],
                    StepDecisionV::Proceed { injection: None },
                )) && forall|i: int| k < i < before.len() ==> #[trigger] after[i] == before[i],
{
    let k = choose|k: int| #[trigger] hooks_decide_at(before, ctx, after, decision, k);
    if decision != (StepDecisionV::Proceed { injection: None }) {
        assert(H::decides(before[k], ctx, after[k], decision));
    }
}

/// The first hook that stops the turn stops it for its reason: those before it let it go on, and
/// those after it are not asked. Where none stops it, all were asked and the turn goes on.
pub proof fn law_the_first_hook_stops<H: StepHook>(
    before: Seq<H>,
    ctx: PostStepV,
    after: Seq<H>,
    flow: StepFlow,
)
    requires
        hooks_conclude(before, ctx, after, flow),
    ensures
        after.len() == before.len(),
        flow is Continue ==> forall|i: int|
            0 <= i < before.len() ==> H::concludes(
                before[i],
                ctx,
                #[trigger] after[i],
                StepFlow::Continue,
            ),
        flow is Stop ==> exists|k: int|
            0 <= k < before.len() && H::concludes(before[k], ctx, #[trigger] after[k], flow) && (
            forall|i: int|
                0 <= i < k ==> H::concludes(
                    before[i],
                    ctx,
                    #[trigger] after[i],
                    StepFlow::Continue,
                )) && forall|i: int| k < i < before.len() ==> #[trigger] after[i] == before[i],
{
    let k = choose|k: int| #[trigger] hooks_conclude_at(before, ctx, after, flow, k);
    if flow is Stop {
        assert(H::concludes(before[k], ctx, after[k], flow));
    }
}

} // verus!

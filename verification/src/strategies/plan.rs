//! Full autonomy: the model plans, acts and decides when to stop.
use crate::hooks::{
    PostStepContext, PostStepV, PreStepContext, PreStepV, StepDecision, StepDecisionV, StepFlow,
    StepHook,
};
use crate::types::TurnEndReason;
use vstd::prelude::*;

verus! {

/// Lets the model run freely; the turn is over when the model asks for no more tools.
pub struct PlanStrategy {}

/// Whether the turn goes on after a step of the model.
pub open spec fn flow_after(had_tool_calls: bool) -> StepFlow {
    if had_tool_calls {
        StepFlow::Continue
    } else {
        StepFlow::Stop { reason: TurnEndReason::Completed }
    }
}

impl StepHook for PlanStrategy {
    open spec fn decides(
        before: PlanStrategy,
        ctx: PreStepV,
        after: PlanStrategy,
        decision: StepDecisionV,
    ) -> bool {
        decision == (StepDecisionV::Proceed { injection: None })
    }

    open spec fn concludes(
        before: PlanStrategy,
        ctx: PostStepV,
        after: PlanStrategy,
        flow: StepFlow,
    ) -> bool {
        flow == flow_after(ctx.had_tool_calls)
    }

    fn pre_step(&mut self, _ctx: &PreStepContext) -> (decision: StepDecision) {
        StepDecision::Proceed { injection: None }
    }

    fn post_step(&mut self, ctx: &PostStepContext) -> (flow: StepFlow) {
        if ctx.had_tool_calls {
            StepFlow::Continue
        } else {
            StepFlow::Stop { reason: TurnEndReason::Completed }
        }
    }
}

/// The model steers a plan: every step is left to it, and the turn goes on as long as it calls for
/// tools and is completed when it does not.
pub proof fn law_the_model_steers_a_plan(
    a: PlanStrategy,
    b: PlanStrategy,
    before: PreStepV,
    after: PostStepV,
    d: StepDecisionV,
    flow: StepFlow,
)
    ensures
        PlanStrategy::decides(a, before, b, d) <==> d == (StepDecisionV::Proceed {
            injection: None,
        }),
        PlanStrategy::concludes(a, after, b, flow) ==> (flow is Continue <==> after.had_tool_calls),
        PlanStrategy::concludes(a, after, b, flow) && !after.had_tool_calls ==> flow
            == (StepFlow::Stop { reason: TurnEndReason::Completed }),
{
}

} // verus!

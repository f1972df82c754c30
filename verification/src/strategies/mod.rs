//! One strategy for each execution mode.
pub mod plan;
pub mod todo;
pub mod workflow;

pub use plan::PlanStrategy;
pub use todo::TodoStrategy;
pub use workflow::WorkflowStrategy;

use crate::hooks::{
    PostStepContext, PostStepV, PreStepContext, PreStepV, StepDecision, StepDecisionV, StepFlow,
    StepHook,
};
use crate::types::{ExecMode, Skill, SkillV};
use vstd::prelude::*;

verus! {

/// The strategy of some execution mode.
pub enum Strategy {
    Plan(PlanStrategy),
    Todo(TodoStrategy),
    Workflow(WorkflowStrategy),
}

impl StepHook for Strategy {
    open spec fn decides(
        before: Strategy,
        ctx: PreStepV,
        after: Strategy,
        decision: StepDecisionV,
    ) -> bool {
        match (before, after) {
            (Strategy::Plan(a), Strategy::Plan(b)) => PlanStrategy::decides(a, ctx, b, decision),
            (Strategy::Todo(a), Strategy::Todo(b)) => TodoStrategy::decides(a, ctx, b, decision),
            (Strategy::Workflow(a), Strategy::Workflow(b)) => WorkflowStrategy::decides(
                a,
                ctx,
                b,
                decision,
            ),
            _ => false,
        }
    }

    open spec fn concludes(
        before: Strategy,
        ctx: PostStepV,
        after: Strategy,
        flow: StepFlow,
    ) -> bool {
        match (before, after) {
            (Strategy::Plan(a), Strategy::Plan(b)) => PlanStrategy::concludes(a, ctx, b, flow),
            (Strategy::Todo(a), Strategy::Todo(b)) => TodoStrategy::concludes(a, ctx, b, flow),
            (Strategy::Workflow(a), Strategy::Workflow(b)) => WorkflowStrategy::concludes(
                a,
                ctx,
                b,
                flow,
            ),
            _ => false,
        }
    }

    fn pre_step(&mut self, ctx: &PreStepContext) -> (decision: StepDecision) {
        match self {
            Strategy::Plan(s) => s.pre_step(ctx),
            Strategy::Todo(s) => s.pre_step(ctx),
            Strategy::Workflow(s) => s.pre_step(ctx),
        }
    }

    fn post_step(&mut self, ctx: &PostStepContext) -> (flow: StepFlow) {
        match self {
            Strategy::Plan(s) => s.post_step(ctx),
            Strategy::Todo(s) => s.post_step(ctx),
            Strategy::Workflow(s) => s.post_step(ctx),
        }
    }
}

/// Whether `s` is the strategy for `skill`, at its start.
pub open spec fn starts_as(s: Strategy, skill: SkillV) -> bool {
    match skill.mode {
        ExecMode::Workflow => s matches Strategy::Workflow(w) && w@ == workflow::start(skill),
        ExecMode::Todo => s matches Strategy::Todo(t) && t@ == todo::start(skill),
        ExecMode::Plan => s is Plan,
    }
}

/// The hooks for a skill: the strategy of its mode.
pub fn build_hooks(skill: &Skill) -> (r: Vec<Strategy>)
    ensures
        r@.len() == 1,
        starts_as(r@[0], skill@),
{
    let s = match skill.mode {
        ExecMode::Workflow => Strategy::Workflow(WorkflowStrategy::new(skill)),
        ExecMode::Todo => Strategy::Todo(TodoStrategy::new(skill)),
        ExecMode::Plan => Strategy::Plan(PlanStrategy {  }),
    };
    let mut r: Vec<Strategy> = Vec::new();
    r.push(s);
    r
}

/// A skill is run in the way that it asks for.
pub proof fn law_skills_run_as_they_ask(s: Strategy, skill: SkillV)
    requires
        starts_as(s, skill),
    ensures
        s is Workflow <==> skill.mode == ExecMode::Workflow,
        s is Todo <==> skill.mode == ExecMode::Todo,
        s is Plan <==> skill.mode == ExecMode::Plan,
        s is Workflow ==> s->Workflow_0@.steps == skill.steps && s->Workflow_0@.variables
            == skill.variables,
        s is Todo ==> s->Todo_0@.steps == skill.steps && s->Todo_0@.variables == skill.variables,
{
}

/// A strategy stays of its kind, and decides as its kind does.
pub proof fn law_strategies_stay_of_their_kind(
    a: Strategy,
    b: Strategy,
    before: PreStepV,
    after: PostStepV,
    d: StepDecisionV,
    flow: StepFlow,
)
    ensures
        Strategy::decides(a, before, b, d) || Strategy::concludes(a, after, b, flow) ==> {
            &&& a is Workflow <==> b is Workflow
            &&& a is Todo <==> b is Todo
            &&& a is Plan <==> b is Plan
        },
        Strategy::decides(a, before, b, d) && a is Plan ==> d == (StepDecisionV::Proceed {
            injection: None,
        }),
        Strategy::decides(a, before, b, d) && a is Workflow ==> !(d is Proceed),
        Strategy::decides(a, before, b, d) && a is Todo ==> d == todo::decision_of(a->Todo_0@)
            && b->Todo_0@ == a->Todo_0@,
        Strategy::concludes(a, after, b, flow) && a is Todo ==> b->Todo_0@ == todo::advanced(
            a->Todo_0@,
            after.content,
        ),
        Strategy::concludes(a, after, b, flow) && a is Workflow ==> b->Workflow_0@
            == workflow::recorded(a->Workflow_0@, after.content),
        Strategy::concludes(a, after, b, flow) && a is Plan ==> (flow is Continue
            <==> after.had_tool_calls),
{
}

} // verus!

//! Guidance: the model is told at each step which of the known steps it is on.
use crate::hooks::{
    PostStepContext, PostStepV, PreStepContext, PreStepV, StepDecision, StepDecisionV, StepFlow,
    StepHook,
};
use crate::text::{decimal, decimal_text};
use crate::textmap::{assign, law_assign_then_lookup, lookup, Entries, TextMap};
use crate::types::{clone_steps, Skill, SkillStep, SkillStepV, SkillV, TurnEndReason};
use crate::views::views;
use vstd::prelude::*;

verus! {

/// Guides the model through the steps of a skill.
pub struct TodoStrategy {
    steps: Vec<SkillStep>,
    current: usize,
    step_results: TextMap,
    variables: TextMap,
}

/// What a [`TodoStrategy`] stands for.
pub struct TodoV {
    pub steps: Seq<SkillStepV>,
    /// The step that the model is on; the number of steps when it is through.
    pub current: usize,
    pub step_results: Entries,
    pub variables: Entries,
}

impl View for TodoStrategy {
    type V = TodoV;

    closed spec fn view(&self) -> TodoV {
        TodoV {
            steps: views(self.steps@),
            current: self.current,
            step_results: self.step_results@,
            variables: self.variables@,
        }
    }
}

/// The strategy at the first step of a skill.
pub open spec fn start(skill: SkillV) -> TodoV {
    TodoV {
        steps: skill.steps,
        current: 0,
        step_results: Seq::empty(),
        variables: skill.variables,
    }
}

/// What the model is told at a step.
pub open spec fn guidance(number: nat, total: nat, id: Seq<char>) -> Seq<char> {
    "You are on step "@ + decimal(number) + " of "@ + decimal(total) + ": `"@ + id
        + "`.\nComplete this step before proceeding."@
}

/// How a turn ends after its last step.
pub open spec fn end_reason(is_error: bool) -> TurnEndReason {
    if is_error {
        TurnEndReason::Error
    } else {
        TurnEndReason::Completed
    }
}

/// What is to be done next: the model is guided on the step it is on, and the turn ends when there
/// is no step left.
pub open spec fn decision_of(s: TodoV) -> StepDecisionV {
    if s.current >= s.steps.len() {
        StepDecisionV::Stop { reason: TurnEndReason::Completed }
    } else {
        StepDecisionV::Proceed {
            injection: Some(
                guidance(
                    s.current as nat + 1,
                    s.steps.len(),
                    s.steps[s.current as int].id,
                ),
            ),
        }
    }
}

/// The strategy after a step: the answer is the step's result, and the next step is on.
pub open spec fn advanced(s: TodoV, content: Seq<char>) -> TodoV {
    if s.current < s.steps.len() {
        TodoV {
            current: (s.current + 1) as usize,
            step_results: assign(s.step_results, s.steps[s.current as int].id, content),
            ..s
        }
    } else {
        s
    }
}

/// Whether the turn goes on: as long as there is a step left.
pub open spec fn flow_of(after: TodoV, is_error: bool) -> StepFlow {
    if after.current >= after.steps.len() {
        StepFlow::Stop { reason: end_reason(is_error) }
    } else {
        StepFlow::Continue
    }
}

impl TodoStrategy {
    /// The strategy at the first step of a skill.
    pub fn new(skill: &Skill) -> (r: TodoStrategy)
        ensures
            r@ == start(skill@),
    {
        TodoStrategy {
            steps: clone_steps(&skill.steps),
            current: 0,
            step_results: TextMap::new(),
            variables: skill.variables.clone(),
        }
    }
}

impl StepHook for TodoStrategy {
    open spec fn decides(
        before: TodoStrategy,
        ctx: PreStepV,
        after: TodoStrategy,
        decision: StepDecisionV,
    ) -> bool {
        decision == decision_of(before@) && after@ == before@
    }

    open spec fn concludes(
        before: TodoStrategy,
        ctx: PostStepV,
        after: TodoStrategy,
        flow: StepFlow,
    ) -> bool {
        after@ == advanced(before@, ctx.content) && flow == flow_of(after@, ctx.is_error)
    }

    fn pre_step(&mut self, _ctx: &PreStepContext) -> (decision: StepDecision) {
        if self.current >= self.steps.len() {
            return StepDecision::Stop { reason: TurnEndReason::Completed };
        }
        let number = decimal_text(self.current as u64 + 1);
        let total = decimal_text(self.steps.len() as u64);
        let mut text = "You are on step ".to_owned();
        text.push_str(number.as_str());
        text.push_str(" of ");
        text.push_str(total.as_str());
        text.push_str(": `");
        text.push_str(self.steps[self.current].id.as_str());
        text.push_str("`.\nComplete this step before proceeding.");
        StepDecision::Proceed { injection: Some(text) }
    }

    fn post_step(&mut self, ctx: &PostStepContext) -> (flow: StepFlow) {
        if self.current < self.steps.len() {
            let id = self.steps[self.current].id.clone();
            self.step_results.insert(id, ctx.content.clone());
            self.current = self.current + 1;
        }
        if self.current >= self.steps.len() {
            if ctx.is_error {
                StepFlow::Stop { reason: TurnEndReason::Error }
            } else {
                StepFlow::Stop { reason: TurnEndReason::Completed }
            }
        } else {
            StepFlow::Continue
        }
    }
}

/// The model goes through the steps one by one: each step that it is guided on is followed by the
/// next, and the turn ends after the last.
pub proof fn law_steps_one_by_one(s: TodoV, content: Seq<char>, is_error: bool)
    requires
        s.current < s.steps.len(),
        s.steps.len() <= usize::MAX,
    ensures
        decision_of(s) is Proceed,
        advanced(s, content).current == s.current + 1,
        flow_of(advanced(s, content), is_error) is Stop <==> s.current + 1 == s.steps.len(),
        flow_of(advanced(s, content), is_error) is Stop ==> flow_of(advanced(s, content), is_error)
            == (StepFlow::Stop { reason: end_reason(is_error) }),
{
}

/// The model is told which step it is on, by number and by id, and of how many; when none is left
/// the turn is completed.
pub proof fn law_the_step_is_named(s: TodoV)
    requires
        s.steps.len() <= usize::MAX,
    ensures
        s.current < s.steps.len() ==> decision_of(s) == (StepDecisionV::Proceed {
            injection: Some(
                "You are on step "@ + decimal((s.current + 1) as nat) + " of "@ + decimal(
                    s.steps.len(),
                ) + ": `"@ + s.steps[s.current as int].id
                    + "`.\nComplete this step before proceeding."@,
            ),
        }),
        s.current >= s.steps.len() ==> decision_of(s) == (StepDecisionV::Stop {
            reason: TurnEndReason::Completed,
        }),
{
}

/// A result once recorded stays until a step of the same id ends: after a step its id has what it
/// gave and every other id what it had, and the steps and the variables stay.
pub proof fn law_results_are_kept(s: TodoV, content: Seq<char>, other: Seq<char>)
    requires
        s.current < s.steps.len(),
    ensures
        lookup(advanced(s, content).step_results, s.steps[s.current as int].id) == Some(content),
        other != s.steps[s.current as int].id ==> lookup(
            advanced(s, content).step_results,
            other,
        ) == lookup(s.step_results, other),
        advanced(s, content).steps == s.steps,
        advanced(s, content).variables == s.variables,
{
    law_assign_then_lookup(s.step_results, s.steps[s.current as int].id, content, other);
}

/// A list of steps begins at the first, with the steps and the variables of its skill and no
/// results. A failed last step ends the turn as failed, and any other as completed.
pub proof fn law_the_list_begins_at_its_first_step(skill: SkillV, id: Seq<char>)
    ensures
        start(skill).steps == skill.steps,
        start(skill).variables == skill.variables,
        start(skill).current == 0,
        lookup(start(skill).step_results, id) is None,
        end_reason(true) == TurnEndReason::Error,
        end_reason(false) == TurnEndReason::Completed,
{
}

} // verus!

//! Fixed steps: tools run without the model, and the model is asked only for judgements.
use crate::expr::{
    condition, evaluate_filled, filled, filled_json, interpolate_json, interpolate_str, Fillings,
};
use crate::hooks::{
    PostStepContext, PostStepV, PreStepContext, PreStepV, StepDecision, StepDecisionV, StepFlow,
    StepHook,
};
use crate::strategies::todo::end_reason;
use crate::json::JsonV;
use crate::textmap::{assign, law_assign_then_lookup, lookup, Entries, TextMap};
use crate::types::{
    clone_steps, Skill, SkillStep, SkillStepV, SkillV, StepAction, StepActionV, ToolCall,
    ToolCallV, TurnEndReason,
};
use crate::views::views;
use vstd::prelude::*;

verus! {

/// Runs the steps of a skill one after the other.
pub struct WorkflowStrategy {
    steps: Vec<SkillStep>,
    current: usize,
    step_results: TextMap,
    variables: TextMap,
    active_step: usize,
}

/// What a [`WorkflowStrategy`] stands for.
pub struct WorkflowV {
    pub steps: Seq<SkillStepV>,
    /// The step to look at next.
    pub current: usize,
    pub step_results: Entries,
    pub variables: Entries,
    /// The step that was decided on last.
    pub active_step: usize,
}

impl View for WorkflowStrategy {
    type V = WorkflowV;

    closed spec fn view(&self) -> WorkflowV {
        WorkflowV {
            steps: views(self.steps@),
            current: self.current,
            step_results: self.step_results@,
            variables: self.variables@,
            active_step: self.active_step,
        }
    }
}

/// The strategy at the first step of a skill.
pub open spec fn start(skill: SkillV) -> WorkflowV {
    WorkflowV {
        steps: skill.steps,
        current: 0,
        step_results: Seq::empty(),
        variables: skill.variables,
        active_step: 0,
    }
}

/// Whether a step runs: its condition, with the placeholders in it filled, is met.
pub open spec fn runs(step: SkillStepV, results: Entries, variables: Entries) -> bool {
    match step.when {
        Some(when) => condition(when, results, Fillings { steps: results, variables }),
        None => true,
    }
}

/// The first step from `i` on that runs; the number of steps where none does.
pub open spec fn next_step(s: WorkflowV, i: int) -> int
    decreases s.steps.len() - i,
{
    if i < 0 || i >= s.steps.len() {
        s.steps.len() as int
    } else if runs(s.steps[i], s.step_results, s.variables) {
        i
    } else {
        next_step(s, i + 1)
    }
}

/// What a step asks for, with its placeholders filled.
pub open spec fn action_of(
    step: SkillStepV,
    results: Entries,
    variables: Entries,
) -> StepDecisionV {
    match step.action {
        StepActionV::Tool { tool, args } => StepDecisionV::ForceTool {
            call: ToolCallV {
                id: "wf_"@ + step.id,
                name: tool,
                arguments: filled_json(args, results, variables),
            },
        },
        StepActionV::LlmJudge { prompt, input } => StepDecisionV::ForceLlm {
            system: Seq::empty(),
            prompt: filled(prompt, results, variables) + "\n\n---\n\n"@ + filled(
                input,
                results,
                variables,
            ),
        },
    }
}

/// What is to be done next: the first step that runs, and the end of the turn where none does.
pub open spec fn decision_of(s: WorkflowV) -> StepDecisionV {
    let i = next_step(s, s.current as int);
    if i >= s.steps.len() {
        StepDecisionV::Stop { reason: TurnEndReason::Completed }
    } else {
        action_of(s.steps[i], s.step_results, s.variables)
    }
}

/// The strategy after a decision: steps that do not run are passed over.
pub open spec fn decided(s: WorkflowV) -> WorkflowV {
    let i = next_step(s, s.current as int);
    if i >= s.steps.len() {
        WorkflowV {
            current: if s.current < s.steps.len() {
                s.steps.len() as usize
            } else {
                s.current
            },
            ..s
        }
    } else {
        WorkflowV { current: i as usize, active_step: i as usize, ..s }
    }
}

/// The strategy after a step: what the step gave is its result, and the step after it is on.
pub open spec fn recorded(s: WorkflowV, content: Seq<char>) -> WorkflowV {
    WorkflowV {
        current: (s.active_step + 1) as usize,
        step_results: if s.active_step < s.steps.len() {
            assign(s.step_results, s.steps[s.active_step as int].id, content)
        } else {
            s.step_results
        },
        ..s
    }
}

/// Whether the turn goes on: as long as there is a step left.
pub open spec fn flow_of(after: WorkflowV, is_error: bool) -> StepFlow {
    if after.current >= after.steps.len() {
        StepFlow::Stop { reason: end_reason(is_error) }
    } else {
        StepFlow::Continue
    }
}

impl WorkflowStrategy {
    #[verifier::type_invariant]
    spec fn active_in_range(self) -> bool {
        self.active_step == 0 || self.active_step < self.steps@.len()
    }

    /// The strategy at the first step of a skill.
    pub fn new(skill: &Skill) -> (r: WorkflowStrategy)
        ensures
            r@ == start(skill@),
    {
        WorkflowStrategy {
            steps: clone_steps(&skill.steps),
            current: 0,
            step_results: TextMap::new(),
            variables: skill.variables.clone(),
            active_step: 0,
        }
    }

    /// Whether the step at `i` runs.
    fn step_runs(&self, i: usize) -> (r: bool)
        requires
            i < self@.steps.len(),
        ensures
            r == runs(self@.steps[i as int], self@.step_results, self@.variables),
    {
        match &self.steps[i].when {
            Some(when) => evaluate_filled(when.as_str(), &self.step_results, &self.variables),
            None => true,
        }
    }

    /// What the step at `i` asks for.
    fn step_action(&self, i: usize) -> (r: StepDecision)
        requires
            i < self@.steps.len(),
        ensures
            r@ == action_of(self@.steps[i as int], self@.step_results, self@.variables),
    {
        let step = &self.steps[i];
        match &step.action {
            StepAction::Tool { tool, args } => {
                let mut id = "wf_".to_owned();
                id.push_str(step.id.as_str());
                let arguments = interpolate_json(args, &self.step_results, &self.variables);
                StepDecision::ForceTool { call: ToolCall { id, name: tool.clone(), arguments } }
            },
            StepAction::LlmJudge { prompt, input } => {
                let mut text = interpolate_str(
                    prompt.as_str(),
                    &self.step_results,
                    &self.variables,
                );
                let filled_input = interpolate_str(
                    input.as_str(),
                    &self.step_results,
                    &self.variables,
                );
                text.push_str("\n\n---\n\n");
                text.push_str(filled_input.as_str());
                StepDecision::ForceLlm { system: String::new(), prompt: text }
            },
        }
    }
}

impl StepHook for WorkflowStrategy {
    open spec fn decides(
        before: WorkflowStrategy,
        ctx: PreStepV,
        after: WorkflowStrategy,
        decision: StepDecisionV,
    ) -> bool {
        decision == decision_of(before@) && after@ == decided(before@)
    }

    open spec fn concludes(
        before: WorkflowStrategy,
        ctx: PostStepV,
        after: WorkflowStrategy,
        flow: StepFlow,
    ) -> bool {
        after@ == recorded(before@, ctx.content) && flow == flow_of(after@, ctx.is_error)
    }

    fn pre_step(&mut self, _ctx: &PreStepContext) -> (decision: StepDecision) {
        let ghost s = self@;
        let n: usize = self.steps.len();
        let mut i: usize = self.current;
        while i < n && !self.step_runs(i)
            invariant
                self@ == s,
                *self == *old(self),
                n == s.steps.len(),
                s.current < n ==> s.current <= i <= n,
                s.current >= n ==> i == s.current,
                next_step(s, i as int) == next_step(s, s.current as int),
            decreases n - i,
        {
            i += 1;
        }
        proof {
            use_type_invariant(&*self);
        }
        self.current = i;
        if i >= n {
            return StepDecision::Stop { reason: TurnEndReason::Completed };
        }
        self.active_step = i;
        self.step_action(i)
    }

    fn post_step(&mut self, ctx: &PostStepContext) -> (flow: StepFlow) {
        proof {
            use_type_invariant(&*self);
        }
        if self.active_step < self.steps.len() {
            let id = self.steps[self.active_step].id.clone();
            let mut results = self.step_results.clone();
            results.insert(id, ctx.content.clone());
            self.step_results = results;
        }
        self.current = self.active_step + 1;
        if self.current >= self.steps.len() {
            if ctx.is_error {
                StepFlow::Stop { reason: TurnEndReason::Error }
            } else {
                StepFlow::Stop { reason: TurnEndReason::Completed }
            }
        } else {
            StepFlow::Continue
        }
    }
}

/// A workflow never leaves a step to the model: it runs a tool, asks for a judgement on a prompt of
/// its own, or ends.
pub proof fn law_model_does_not_steer(s: WorkflowV)
    ensures
        !(decision_of(s) is Proceed),
{
}

/// What `next_step` gives: the least step from `i` on that runs, or the number of steps.
pub proof fn lemma_next_step(s: WorkflowV, i: int)
    requires
        0 <= i <= s.steps.len(),
    ensures
        i <= next_step(s, i) <= s.steps.len(),
        forall|j: int|
            i <= j < next_step(s, i) ==> !runs(#[trigger] s.steps[j], s.step_results, s.variables),
        next_step(s, i) < s.steps.len() ==> runs(
            s.steps[next_step(s, i)],
            s.step_results,
            s.variables,
        ),
    decreases s.steps.len() - i,
{
    if i < s.steps.len() && !runs(s.steps[i], s.step_results, s.variables) {
        lemma_next_step(s, i + 1);
    }
}

/// The steps of a workflow run in their order, each at most once, and none whose condition is not
/// met: the step that runs is not before the one that was on, those in between are passed over
/// because of their conditions, and the one after it is on next.
pub proof fn law_steps_run_in_order(s: WorkflowV, content: Seq<char>)
    requires
        s.current <= s.steps.len(),
        s.steps.len() <= usize::MAX,
        !(decision_of(s) is Stop),
    ensures
        s.current <= decided(s).active_step < s.steps.len(),
        runs(s.steps[decided(s).active_step as int], s.step_results, s.variables),
        forall|j: int|
            s.current <= j < decided(s).active_step ==> !runs(
                #[trigger] s.steps[j],
                s.step_results,
                s.variables,
            ),
        recorded(decided(s), content).current == decided(s).active_step + 1,
        recorded(decided(s), content).current <= s.steps.len(),
{
    lemma_next_step(s, s.current as int);
}

/// The same workflow in the same state always does the same: what runs next is given by the steps,
/// the variables and the results so far, not by what the model would like.
pub proof fn law_workflow_repeats(a: WorkflowV, b: WorkflowV)
    requires
        a.steps == b.steps,
        a.variables == b.variables,
        a.step_results == b.step_results,
        a.current == b.current,
    ensures
        decision_of(a) == decision_of(b),
{
    lemma_next_step_same(a, b, a.current as int);
}

proof fn lemma_next_step_same(a: WorkflowV, b: WorkflowV, i: int)
    requires
        a.steps == b.steps,
        a.variables == b.variables,
        a.step_results == b.step_results,
    ensures
        next_step(a, i) == next_step(b, i),
    decreases a.steps.len() - i,
{
    if 0 <= i < a.steps.len() && !runs(a.steps[i], a.step_results, a.variables) {
        lemma_next_step_same(a, b, i + 1);
    }
}

/// A result once recorded stays until a step of the same id runs again: after a step, its id has
/// what it gave, and every other id has what it had. The steps and the variables stay as they were.
pub proof fn law_results_are_kept(s: WorkflowV, content: Seq<char>, other: Seq<char>)
    requires
        s.active_step < s.steps.len() <= usize::MAX,
    ensures
        lookup(recorded(s, content).step_results, s.steps[s.active_step as int].id) == Some(
            content,
        ),
        other != s.steps[s.active_step as int].id ==> lookup(
            recorded(s, content).step_results,
            other,
        ) == lookup(s.step_results, other),
        recorded(s, content).steps == s.steps,
        recorded(s, content).variables == s.variables,
        recorded(s, content).active_step == s.active_step,
        recorded(s, content).current == s.active_step + 1,
{
    law_assign_then_lookup(s.step_results, s.steps[s.active_step as int].id, content, other);
}

/// Deciding on a step changes no result, no variable and no step.
pub proof fn law_deciding_changes_no_result(s: WorkflowV)
    ensures
        decided(s).step_results == s.step_results,
        decided(s).variables == s.variables,
        decided(s).steps == s.steps,
{
}

/// A new workflow has the steps and the variables of its skill and no results, and begins at the
/// first step.
pub proof fn law_workflow_begins_at_the_first_step(skill: SkillV, id: Seq<char>)
    ensures
        start(skill).steps == skill.steps,
        start(skill).variables == skill.variables,
        start(skill).current == 0,
        lookup(start(skill).step_results, id) is None,
        skill.steps.len() > 0 && skill.steps[0].when is None ==> decided(start(skill)).active_step
            == 0,
{
}

/// A tool step asks for its tool, with its arguments filled; a judgement asks the model for its
/// prompt, filled, with its input, filled, after it; and a step without a condition always runs.
pub proof fn law_steps_ask_for_what_they_say(
    id: Seq<char>,
    when: Seq<char>,
    tool: Seq<char>,
    args: JsonV,
    prompt: Seq<char>,
    input: Seq<char>,
    results: Entries,
    variables: Entries,
)
    ensures
        action_of(
            SkillStepV { id, action: StepActionV::Tool { tool, args }, when: Some(when) },
            results,
            variables,
        ) == (StepDecisionV::ForceTool {
            call: ToolCallV {
                id: "wf_"@ + id,
                name: tool,
                arguments: filled_json(args, results, variables),
            },
        }),
        ({
            let asked = action_of(
                SkillStepV {
                    id,
                    action: StepActionV::LlmJudge { prompt, input },
                    when: Some(when),
                },
                results,
                variables,
            );
            &&& asked is ForceLlm
            &&& asked->ForceLlm_system.len() == 0
            &&& asked->ForceLlm_prompt == filled(prompt, results, variables) + "\n\n---\n\n"@
                + filled(input, results, variables)
        }),
        runs(
            SkillStepV { id, action: StepActionV::Tool { tool, args }, when: None },
            results,
            variables,
        ),
        runs(
            SkillStepV { id, action: StepActionV::Tool { tool, args }, when: Some(when) },
            results,
            variables,
        ) <==> condition(when, results, Fillings { steps: results, variables }),
{
}

/// The turn goes on as long as a step is left, and the last step ends it, as completed or, where it
/// failed, as failed.
pub proof fn law_last_step_ends_the_turn(s: WorkflowV, content: Seq<char>, is_error: bool)
    requires
        s.active_step < s.steps.len() <= usize::MAX,
    ensures
        s.active_step + 1 < s.steps.len() ==> flow_of(recorded(s, content), is_error) is Continue,
        s.active_step + 1 == s.steps.len() ==> flow_of(recorded(s, content), is_error) == (StepFlow::Stop {
            reason: if is_error {
                TurnEndReason::Error
            } else {
                TurnEndReason::Completed
            },
        }),
{
}

} // verus!

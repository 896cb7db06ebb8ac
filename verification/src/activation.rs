//! The search for the script that activates a toolchain in a new terminal.
//!
//! The toolchains that apply are asked one after the other. The first one that
//! is there decides: its language's lister gives the script, and without a
//! lister there is none.

use vstd::prelude::*;

verus! {

/// What became of the last step of the search.
#[derive(Debug, PartialEq, Eq)]
pub enum ActivationEvent {
    Started,
    /// The toolchain at `index` was looked up.
    ToolchainResolved { index: usize, found: bool },
    /// The lister of the found toolchain's language was looked up. It is not
    /// found either if there is no such language.
    ListerResolved { index: usize, found: bool },
    /// The lister gave the commands of the script.
    ScriptResolved { script: Vec<String> },
}

/// The next step of the search.
#[derive(Debug, PartialEq, Eq)]
pub enum ActivationAction {
    ResolveToolchain { index: usize },
    ResolveLister { index: usize },
    ResolveScript { index: usize },
    /// The search is over. No commands are no activation.
    Done { script: Vec<String> },
}

/// What became of the last step, its texts as sequences.
pub enum ActivationEventView {
    Started,
    ToolchainResolved { index: int, found: bool },
    ListerResolved { index: int, found: bool },
    ScriptResolved { script: Seq<Seq<char>> },
}

/// The next step, its texts as sequences.
pub enum ActivationActionView {
    ResolveToolchain { index: int },
    ResolveLister { index: int },
    ResolveScript { index: int },
    Done { script: Seq<Seq<char>> },
}

impl View for ActivationEvent {
    type V = ActivationEventView;

    open spec fn view(&self) -> ActivationEventView {
        match *self {
            ActivationEvent::Started => ActivationEventView::Started,
            ActivationEvent::ToolchainResolved { index, found } => {
                ActivationEventView::ToolchainResolved { index: index as int, found }
            },
            ActivationEvent::ListerResolved { index, found } => {
                ActivationEventView::ListerResolved { index: index as int, found }
            },
            ActivationEvent::ScriptResolved { script } => ActivationEventView::ScriptResolved {
                script: script.deep_view(),
            },
        }
    }
}

impl View for ActivationAction {
    type V = ActivationActionView;

    open spec fn view(&self) -> ActivationActionView {
        match *self {
            ActivationAction::ResolveToolchain { index } => {
                ActivationActionView::ResolveToolchain { index: index as int }
            },
            ActivationAction::ResolveLister { index } => ActivationActionView::ResolveLister {
                index: index as int,
            },
            ActivationAction::ResolveScript { index } => ActivationActionView::ResolveScript {
                index: index as int,
            },
            ActivationAction::Done { script } => ActivationActionView::Done {
                script: script.deep_view(),
            },
        }
    }
}

/// Asks the toolchain at `index`, or ends the search behind the last of them.
pub open spec fn ask_toolchain(count: int, index: int) -> ActivationActionView {
    if index < count {
        ActivationActionView::ResolveToolchain { index }
    } else {
        ActivationActionView::Done { script: Seq::empty() }
    }
}

/// The step that follows `event` in a search among `count` toolchains.
pub open spec fn activation_next(count: int, event: ActivationEventView) -> ActivationActionView {
    match event {
        ActivationEventView::Started => ask_toolchain(count, 0),
        ActivationEventView::ToolchainResolved { index, found } => if found {
            ActivationActionView::ResolveLister { index }
        } else {
            ask_toolchain(count, index + 1)
        },
        ActivationEventView::ListerResolved { index, found } => if found {
            ActivationActionView::ResolveScript { index }
        } else {
            ActivationActionView::Done { script: Seq::empty() }
        },
        ActivationEventView::ScriptResolved { script } => ActivationActionView::Done { script },
    }
}

/// The step that follows `event` in a search among `toolchain_count`
/// toolchains.
pub fn activation_step(toolchain_count: usize, event: ActivationEvent) -> (r: ActivationAction)
    ensures
        r@ == activation_next(toolchain_count as int, event@),
        match event {
            ActivationEvent::Started => if toolchain_count > 0 {
                r == (ActivationAction::ResolveToolchain { index: 0 })
            } else {
                r is Done && r->script.len() == 0
            },
            ActivationEvent::ToolchainResolved { index, found } => if found {
                r == (ActivationAction::ResolveLister { index })
            } else if index + 1 < toolchain_count {
                r == (ActivationAction::ResolveToolchain { index: (index + 1) as usize })
            } else {
                r is Done && r->script.len() == 0
            },
            ActivationEvent::ListerResolved { index, found } => if found {
                r == (ActivationAction::ResolveScript { index })
            } else {
                r is Done && r->script.len() == 0
            },
            ActivationEvent::ScriptResolved { script } => r == (ActivationAction::Done { script }),
        },
{
    match event {
        ActivationEvent::Started => {
            if 0 < toolchain_count {
                ActivationAction::ResolveToolchain { index: 0 }
            } else {
                let r = ActivationAction::Done { script: Vec::new() };
                assert(r@->script =~= Seq::empty());
                r
            }
        },
        ActivationEvent::ToolchainResolved { index, found } => {
            if found {
                ActivationAction::ResolveLister { index }
            } else if index < toolchain_count && index + 1 < toolchain_count {
                ActivationAction::ResolveToolchain { index: index + 1 }
            } else {
                let r = ActivationAction::Done { script: Vec::new() };
                assert(r@->script =~= Seq::empty());
                r
            }
        },
        ActivationEvent::ListerResolved { index, found } => {
            if found {
                ActivationAction::ResolveScript { index }
            } else {
                let r = ActivationAction::Done { script: Vec::new() };
                assert(r@->script =~= Seq::empty());
                r
            }
        },
        ActivationEvent::ScriptResolved { script } => ActivationAction::Done { script },
    }
}

/// What there is to find out about a toolchain.
pub enum ToolchainOutcome {
    /// It is not there.
    Missing,
    /// It is there, without a lister for its language.
    NoLister,
    /// It is there, and its lister gives this script.
    Script(Seq<Seq<char>>),
}

/// The script of the first toolchain that is there.
pub open spec fn first_script(outcomes: Seq<ToolchainOutcome>) -> Seq<Seq<char>>
    decreases outcomes.len(),
{
    if outcomes.len() == 0 {
        Seq::empty()
    } else {
        match outcomes[0] {
            ToolchainOutcome::Missing => first_script(outcomes.drop_first()),
            ToolchainOutcome::NoLister => Seq::empty(),
            ToolchainOutcome::Script(script) => script,
        }
    }
}

/// What answers the step `action`, where the toolchains are as `outcomes` says.
pub open spec fn answer(
    outcomes: Seq<ToolchainOutcome>,
    action: ActivationActionView,
) -> ActivationEventView {
    match action {
        ActivationActionView::ResolveToolchain { index } => {
            ActivationEventView::ToolchainResolved {
                index,
                found: !(outcomes[index] is Missing),
            }
        },
        ActivationActionView::ResolveLister { index } => ActivationEventView::ListerResolved {
            index,
            found: outcomes[index] is Script,
        },
        ActivationActionView::ResolveScript { index } => ActivationEventView::ScriptResolved {
            script: outcomes[index]->Script_0,
        },
        ActivationActionView::Done { script } => ActivationEventView::ScriptResolved { script },
    }
}

/// The step reached from `action` after `steps` more answers.
pub open spec fn after_steps(
    outcomes: Seq<ToolchainOutcome>,
    action: ActivationActionView,
    steps: nat,
) -> ActivationActionView
    decreases steps,
{
    if steps == 0 {
        action
    } else {
        after_steps(
            outcomes,
            activation_next(outcomes.len() as int, answer(outcomes, action)),
            (steps - 1) as nat,
        )
    }
}

/// The search ends, after at most two steps more than there are toolchains,
/// with the script of the first toolchain that is there.
pub proof fn search_finds_first_script(outcomes: Seq<ToolchainOutcome>)
    ensures
        after_steps(
            outcomes,
            activation_next(outcomes.len() as int, ActivationEventView::Started),
            outcomes.len() + 2,
        ) == (ActivationActionView::Done { script: first_script(outcomes) }),
{
    assert(outcomes.skip(0) =~= outcomes);
    lemma_search_from(outcomes, 0, outcomes.len() + 2);
}

proof fn lemma_search_from(outcomes: Seq<ToolchainOutcome>, index: int, steps: nat)
    requires
        0 <= index <= outcomes.len(),
        steps >= outcomes.len() - index + 2,
    ensures
        after_steps(outcomes, ask_toolchain(outcomes.len() as int, index), steps) == (
        ActivationActionView::Done { script: first_script(outcomes.skip(index)) }),
    decreases outcomes.len() - index,
{
    let rest = outcomes.skip(index);
    let action = ask_toolchain(outcomes.len() as int, index);
    if index == outcomes.len() {
        lemma_done_stays(outcomes, Seq::empty(), steps);
    } else {
        assert(rest[0] == outcomes[index]);
        assert(rest.drop_first() =~= outcomes.skip(index + 1));
        match outcomes[index] {
            ToolchainOutcome::Missing => {
                lemma_search_from(outcomes, index + 1, (steps - 1) as nat);
            },
            ToolchainOutcome::NoLister => {
                reveal_with_fuel(after_steps, 3);
                lemma_done_stays(outcomes, Seq::empty(), (steps - 2) as nat);
            },
            ToolchainOutcome::Script(script) => {
                reveal_with_fuel(after_steps, 4);
                lemma_done_stays(outcomes, script, (steps - 3) as nat);
            },
        }
    }
}

proof fn lemma_done_stays(
    outcomes: Seq<ToolchainOutcome>,
    script: Seq<Seq<char>>,
    steps: nat,
)
    ensures
        after_steps(outcomes, ActivationActionView::Done { script }, steps) == (
        ActivationActionView::Done { script }),
    decreases steps,
{
    if steps > 0 {
        lemma_done_stays(outcomes, script, (steps - 1) as nat);
    }
}

/// The search ends at the first toolchain that is there: with its script, or
/// without one if its language has no lister. What comes behind that toolchain
/// does not count.
pub proof fn first_toolchain_decides(outcomes: Seq<ToolchainOutcome>, k: int)
    requires
        0 <= k < outcomes.len(),
        !(outcomes[k] is Missing),
        forall|i: int| 0 <= i < k ==> (#[trigger] outcomes[i]) is Missing,
    ensures
        ({
            let end = after_steps(
                outcomes,
                activation_next(outcomes.len() as int, ActivationEventView::Started),
                outcomes.len() + 2,
            );
            &&& end is Done
            &&& outcomes[k] is NoLister ==> end->script.len() == 0
            &&& outcomes[k] is Script ==> end->script == outcomes[k]->Script_0
        }),
{
    search_finds_first_script(outcomes);
    lemma_first_script(outcomes, k);
}

proof fn lemma_first_script(outcomes: Seq<ToolchainOutcome>, k: int)
    requires
        0 <= k < outcomes.len(),
        !(outcomes[k] is Missing),
        forall|i: int| 0 <= i < k ==> (#[trigger] outcomes[i]) is Missing,
    ensures
        outcomes[k] is NoLister ==> first_script(outcomes).len() == 0,
        outcomes[k] is Script ==> first_script(outcomes) == outcomes[k]->Script_0,
    decreases k,
{
    if k > 0 {
        let rest = outcomes.drop_first();
        assert(outcomes[0] is Missing);
        assert(rest[k - 1] == outcomes[k]);
        assert forall|i: int| 0 <= i < k - 1 implies (#[trigger] rest[i]) is Missing by {
            assert(rest[i] == outcomes[i + 1]);
        }
        lemma_first_script(rest, k - 1);
    }
}

/// Where no toolchain is there, the search ends without a script.
pub proof fn no_toolchain_no_script(outcomes: Seq<ToolchainOutcome>)
    requires
        forall|i: int| 0 <= i < outcomes.len() ==> (#[trigger] outcomes[i]) is Missing,
    ensures
        ({
            let end = after_steps(
                outcomes,
                activation_next(outcomes.len() as int, ActivationEventView::Started),
                outcomes.len() + 2,
            );
            end is Done && end->script.len() == 0
        }),
{
    search_finds_first_script(outcomes);
    lemma_no_script(outcomes);
}

proof fn lemma_no_script(outcomes: Seq<ToolchainOutcome>)
    requires
        forall|i: int| 0 <= i < outcomes.len() ==> (#[trigger] outcomes[i]) is Missing,
    ensures
        first_script(outcomes).len() == 0,
    decreases outcomes.len(),
{
    if outcomes.len() > 0 {
        let rest = outcomes.drop_first();
        assert(outcomes[0] is Missing);
        assert forall|i: int| 0 <= i < rest.len() implies (#[trigger] rest[i]) is Missing by {
            assert(rest[i] == outcomes[i + 1]);
        }
        lemma_no_script(rest);
    }
}

} // verus!

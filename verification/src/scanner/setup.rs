//! What happens before a scan: the thread pool and the rules.

use vstd::prelude::*;

use crate::failure::{Failure, FailureModel};
use crate::text::{
    contains, digits_text, law_occurrence_leaves_what_is_around, occurs_in, u64_to_text,
};

verus! {

/// The words by which the error of a pool that is already there is known.
pub open spec fn already_initialized() -> Seq<char> {
    "The global thread pool has already been initialized"@
}

/// Judges what became of building the thread pool. A pool that is already there will do; the
/// result is the progress message to show, or the error that ends the scan.
pub fn initialize_environment(built: Result<(), String>) -> (result: Result<String, Failure>)
    ensures
        built matches Err(e) ==> (result is Ok <==> occurs_in(
            "The global thread pool has already been initialized"@,
            e@,
        )),
        match built {
            Ok(_) => result is Ok && result->Ok_0@ == "Thread pool initialized successfully."@,
            Err(e) => if occurs_in(already_initialized(), e@) {
                result is Ok && result->Ok_0@
                    == "Thread pool was already initialized. Continuing..."@
            } else {
                result is Err && result->Err_0@ == FailureModel::plain(
                    "Failed to initialize Rayon: "@ + e@,
                )
            },
        },
{
    match built {
        Ok(()) => Ok("Thread pool initialized successfully.".to_owned()),
        Err(e) => {
            if contains(e.as_str(), "The global thread pool has already been initialized") {
                Ok("Thread pool was already initialized. Continuing...".to_owned())
            } else {
                let mut text: String = "Failed to initialize Rayon: ".to_owned();
                text.append(e.as_str());
                Err(Failure::plain(text))
            }
        },
    }
}

/// The name of a thread of the pool.
pub fn thread_name(index: usize) -> (name: String)
    ensures
        name@ == "rayon-"@ + digits_text(index as nat),
{
    let mut name: String = "rayon-".to_owned();
    name.append(u64_to_text(index as u64).as_str());
    name
}

/// What is done next on the way to a rules database.
pub enum RuleAction<R> {
    /// Load the rules that the arguments name.
    Load,
    /// Resolve which of the loaded rules are enabled.
    Resolve,
    /// Compile these rules.
    Compile(Vec<R>),
    /// Record these rules in the datastore.
    Record(Vec<R>),
    /// Nothing more: the database is ready, or there is none.
    Finished(Result<(), Failure>),
}

/// What has happened on the way to a rules database.
pub enum RuleEvent<R> {
    /// Nothing yet.
    Begun,
    /// The rules have been loaded, or could not be.
    Loaded(Result<(), Failure>),
    /// The enabled rules have been resolved, or could not be.
    Resolved(Result<Vec<R>, Failure>),
    /// The rules have been compiled, and the database holds these; or they could not be.
    Compiled(Result<Vec<R>, Failure>),
    /// The rules have been recorded.
    Recorded,
}

/// The rules to compile: those that were resolved, in order, each with its minimum entropy
/// replaced by `set_entropy` where a minimum is given, and as they were where none is.
pub open spec fn are_tuned<R, E, F: Fn(R, E) -> R>(
    rules: Seq<R>,
    resolved: Seq<R>,
    min_entropy: Option<E>,
    set_entropy: F,
) -> bool {
    match min_entropy {
        None => rules == resolved,
        Some(e) => {
            &&& rules.len() == resolved.len()
            &&& forall|i: int|
                0 <= i < rules.len() ==> set_entropy.ensures(
                    (#[trigger] resolved[i], e),
                    #[trigger] rules[i],
                )
        },
    }
}

/// Whether the way ends with a failure, under a heading.
pub open spec fn fails_with<R>(
    action: RuleAction<R>,
    heading: Seq<char>,
    cause: FailureModel,
) -> bool {
    action matches RuleAction::Finished(Err(failure)) && failure@ == cause.under(heading)
}

/// Whether an action is the one that an event calls for: the next in order, or the end where
/// something failed.
pub open spec fn calls_for<R, E, F: Fn(R, E) -> R>(
    event: RuleEvent<R>,
    action: RuleAction<R>,
    min_entropy: Option<E>,
    set_entropy: F,
) -> bool {
    match event {
        RuleEvent::Begun => action is Load,
        RuleEvent::Loaded(Ok(_)) => action is Resolve,
        RuleEvent::Loaded(Err(cause)) => fails_with(action, "Failed to load rules"@, cause@),
        RuleEvent::Resolved(Ok(resolved)) => action matches RuleAction::Compile(rules)
            && are_tuned(rules@, resolved@, min_entropy, set_entropy),
        RuleEvent::Resolved(Err(cause)) => fails_with(action, "Failed to resolve rules"@, cause@),
        RuleEvent::Compiled(Ok(compiled)) => action matches RuleAction::Record(rules) && rules@
            == compiled@,
        RuleEvent::Compiled(Err(cause)) => fails_with(action, "Failed to compile rules"@, cause@),
        RuleEvent::Recorded => action matches RuleAction::Finished(Ok(_)),
    }
}

fn tune_rules<R, E: Copy, F: Fn(R, E) -> R>(
    resolved: Vec<R>,
    min_entropy: Option<E>,
    set_entropy: F,
) -> (rules: Vec<R>)
    requires
        forall|rule: R, e: E| min_entropy == Some(e) ==> #[trigger] set_entropy.requires((rule, e)),
    ensures
        are_tuned(rules@, resolved@, min_entropy, set_entropy),
{
    match min_entropy {
        None => resolved,
        Some(e) => {
            let mut rules: Vec<R> = Vec::new();
            for rule in iter: resolved
                invariant
                    rules@.len() == iter.index(),
                    iter.seq() == resolved@,
                    forall|r: R| #[trigger] set_entropy.requires((r, e)),
                    forall|i: int|
                        0 <= i < rules@.len() ==> set_entropy.ensures(
                            (#[trigger] iter.seq()[i], e),
                            #[trigger] rules@[i],
                        ),
            {
                rules.push(set_entropy(rule, e));
            }
            rules
        },
    }
}

/// Leads to a rules database, step by step: takes up what has happened and says what is to be
/// done next. The rules are loaded, resolved, given the minimum entropy that is asked for,
/// compiled and, as the database then holds them, recorded; whatever fails ends it.
pub fn load_and_record_rules<R, E: Copy, F: Fn(R, E) -> R>(
    event: RuleEvent<R>,
    min_entropy: Option<E>,
    set_entropy: F,
) -> (action: RuleAction<R>)
    requires
        forall|rule: R, e: E| min_entropy == Some(e) ==> #[trigger] set_entropy.requires((rule, e)),
    ensures
        calls_for(event, action, min_entropy, set_entropy),
        event is Begun ==> action is Load,
        event matches RuleEvent::Loaded(Ok(_)) ==> action is Resolve,
        event matches RuleEvent::Resolved(Ok(resolved)) ==> {
            &&& action is Compile
            &&& action->Compile_0@.len() == resolved@.len()
            &&& min_entropy is None ==> action->Compile_0@ == resolved@
            &&& min_entropy is Some ==> forall|i: int|
                0 <= i < resolved@.len() ==> set_entropy.ensures(
                    (#[trigger] resolved@[i], min_entropy->0),
                    #[trigger] action->Compile_0@[i],
                )
        },
        event matches RuleEvent::Compiled(Ok(compiled)) ==> action is Record && action->Record_0@
            == compiled@,
        event is Recorded ==> action matches RuleAction::Finished(Ok(_)),
{
    match event {
        RuleEvent::Begun => RuleAction::Load,
        RuleEvent::Loaded(Ok(())) => RuleAction::Resolve,
        RuleEvent::Loaded(Err(cause)) => RuleAction::Finished(
            Err(cause.under("Failed to load rules")),
        ),
        RuleEvent::Resolved(Ok(resolved)) => RuleAction::Compile(
            tune_rules(resolved, min_entropy, set_entropy),
        ),
        RuleEvent::Resolved(Err(cause)) => RuleAction::Finished(
            Err(cause.under("Failed to resolve rules")),
        ),
        RuleEvent::Compiled(Ok(compiled)) => RuleAction::Record(compiled),
        RuleEvent::Compiled(Err(cause)) => RuleAction::Finished(
            Err(cause.under("Failed to compile rules")),
        ),
        RuleEvent::Recorded => RuleAction::Finished(Ok(())),
    }
}

/// Whether an event can come of an action.
pub open spec fn comes_of<R>(event: RuleEvent<R>, action: RuleAction<R>) -> bool {
    match action {
        RuleAction::Load => event is Loaded,
        RuleAction::Resolve => event is Resolved,
        RuleAction::Compile(_) => event is Compiled,
        RuleAction::Record(_) => event is Recorded,
        RuleAction::Finished(_) => false,
    }
}

/// Events, each with the action that it called for, from the beginning on.
pub open spec fn is_rule_run<R, E, F: Fn(R, E) -> R>(
    run: Seq<(RuleEvent<R>, RuleAction<R>)>,
    min_entropy: Option<E>,
    set_entropy: F,
) -> bool {
    &&& run.len() > 0 ==> run[0].0 is Begun
    &&& forall|i: int|
        0 <= i < run.len() ==> calls_for(
            (#[trigger] run[i]).0,
            run[i].1,
            min_entropy,
            set_entropy,
        )
    &&& forall|i: int, j: int|
        0 <= i < run.len() && j == i + 1 && j < run.len() ==> comes_of(
            (#[trigger] run[j]).0,
            (#[trigger] run[i]).1,
        )
}

/// The way to a rules database has five steps at most, in a fixed order, and only a failure cuts
/// it short: the rules that are compiled are the resolved ones, tuned, and those that are recorded
/// are the ones that the compiled database holds.
pub proof fn law_rule_steps_come_in_order<R, E, F: Fn(R, E) -> R>(
    run: Seq<(RuleEvent<R>, RuleAction<R>)>,
    min_entropy: Option<E>,
    set_entropy: F,
)
    requires
        is_rule_run(run, min_entropy, set_entropy),
    ensures
        run.len() <= 5,
        run.len() > 0 ==> run[0].1 is Load,
        run.len() > 1 ==> run[1].1 is Resolve || (run[1].1 matches RuleAction::Finished(
            Err(_),
        ) && run.len() == 2),
        run.len() > 2 ==> {
            ||| run[2].1 matches RuleAction::Compile(rules) && run[2].0 matches RuleEvent::Resolved(
                Ok(resolved),
            ) && are_tuned(rules@, resolved@, min_entropy, set_entropy)
            ||| run[2].1 matches RuleAction::Finished(Err(_)) && run.len() == 3
        },
        run.len() > 3 ==> {
            ||| run[3].1 matches RuleAction::Record(rules) && run[3].0 matches RuleEvent::Compiled(
                Ok(compiled),
            ) && rules@ == compiled@
            ||| run[3].1 matches RuleAction::Finished(Err(_)) && run.len() == 4
        },
        run.len() > 4 ==> run[4].1 matches RuleAction::Finished(Ok(_)),
{
    if run.len() > 1 {
        assert(comes_of(run[1].0, run[0].1));
    }
    if run.len() > 2 {
        assert(comes_of(run[2].0, run[1].1));
    }
    if run.len() > 3 {
        assert(comes_of(run[3].0, run[2].1));
    }
    if run.len() > 4 {
        assert(comes_of(run[4].0, run[3].1));
    }
    if run.len() > 5 {
        assert(comes_of(run[5].0, run[4].1));
    }
}

/// The rules that are compiled are as many as were resolved, in the same order: the very same where
/// no minimum entropy is asked for, and else each as `set_entropy` gives it for that minimum.
pub proof fn law_every_resolved_rule_is_tuned<R, E, F: Fn(R, E) -> R>(
    rules: Seq<R>,
    resolved: Seq<R>,
    min_entropy: Option<E>,
    set_entropy: F,
)
    requires
        are_tuned(rules, resolved, min_entropy, set_entropy),
    ensures
        rules.len() == resolved.len(),
        min_entropy is None ==> rules == resolved,
        min_entropy is Some ==> forall|i: int|
            0 <= i < resolved.len() ==> set_entropy.ensures(
                (#[trigger] resolved[i], min_entropy->0),
                #[trigger] rules[i],
            ),
{
}

/// Whatever fails on the way to a rules database ends it with an error whose message names the step,
/// and behind which stand the failure's own message and causes. Nothing else ends it with an error.
pub proof fn law_failed_rule_steps_say_which<R, E, F: Fn(R, E) -> R>(
    event: RuleEvent<R>,
    action: RuleAction<R>,
    min_entropy: Option<E>,
    set_entropy: F,
)
    requires
        calls_for(event, action, min_entropy, set_entropy),
    ensures
        event matches RuleEvent::Loaded(Err(cause)) ==> action matches RuleAction::Finished(Err(e))
            && e@.message == "Failed to load rules"@ && e@.causes == seq![cause@.message]
            + cause@.causes,
        event matches RuleEvent::Resolved(Err(cause)) ==> action matches RuleAction::Finished(Err(e))
            && e@.message == "Failed to resolve rules"@ && e@.causes == seq![cause@.message]
            + cause@.causes,
        event matches RuleEvent::Compiled(Err(cause)) ==> action matches RuleAction::Finished(Err(e))
            && e@.message == "Failed to compile rules"@ && e@.causes == seq![cause@.message]
            + cause@.causes,
        action matches RuleAction::Finished(Err(_)) ==> event matches RuleEvent::Loaded(Err(_))
            || event matches RuleEvent::Resolved(Err(_)) || event matches RuleEvent::Compiled(Err(_)),
{
}

/// A pool that is already there is known by the words of the error for it, wherever they stand in it.
pub proof fn law_existing_pool_is_known_by_its_words(before: Seq<char>, behind: Seq<char>)
    ensures
        already_initialized() == "The global thread pool has already been initialized"@,
        occurs_in(
            already_initialized(),
            before + "The global thread pool has already been initialized"@ + behind,
        ),
{
    let words = "The global thread pool has already been initialized"@;
    law_occurrence_leaves_what_is_around(words, before + words + behind);
}

} // verus!

//! Sequences of writes, and what a failure in their midst leaves behind.

use vstd::prelude::*;
use crate::error::Error;
use crate::machine::{failure, planned, run, OutcomeView};
use crate::model::Store;
use crate::protocol::{CommandView, ReplyView};

verus! {

/// The store after the first `count` of `commands`.
pub open spec fn written(store: Store, commands: Seq<CommandView>, count: nat) -> Store
    decreases count,
{
    if count == 0 || commands.len() == 0 {
        store
    } else {
        written(store.after(commands.first()), commands.drop_first(), (count - 1) as nat)
    }
}

/// The place of the first of `commands` that the store does not carry out;
/// their number where it carries out all.
pub open spec fn first_failure(store: Store, commands: Seq<CommandView>) -> nat
    decreases commands.len(),
{
    if commands.len() == 0 {
        0
    } else if store.reply(commands.first()) == ReplyView::Done {
        1 + first_failure(store.after(commands.first()), commands.drop_first())
    } else {
        0
    }
}

/// The reply to the command at place `at`, sent after those before it.
pub open spec fn reply_at(store: Store, commands: Seq<CommandView>, at: nat) -> ReplyView {
    written(store, commands, at).reply(commands[at as int])
}

/// A command that the store does not carry out changes nothing.
pub proof fn lemma_failed_command_changes_nothing(store: Store, command: CommandView)
    requires
        store.reply(command) != ReplyView::Done,
    ensures
        store.after(command) == store,
{
}

/// A sequence of writes stops at the first that fails, with that failure as
/// its error. What was written before stays written: nothing is taken back,
/// nothing is tried again, and nothing after the failure is sent.
pub proof fn law_plan_stops_at_first_failure(
    store: Store,
    commands: Seq<CommandView>,
    outcome: OutcomeView,
)
    ensures
        ({
            let ended = run(store, planned(commands, outcome));
            let stop = first_failure(store, commands);
            &&& stop <= commands.len()
            &&& ended.store == written(store, commands, stop)
            &&& stop == commands.len() ==> ended.result == Ok::<OutcomeView, Error>(outcome)
            &&& stop < commands.len() ==> ended.result == Err::<OutcomeView, Error>(
                failure(reply_at(store, commands, stop)),
            )
        }),
    decreases commands.len(),
{
    reveal_with_fuel(run, 2);
    if commands.len() > 0 {
        let first = commands.first();
        let rest = commands.drop_first();
        if store.reply(first) == ReplyView::Done {
            law_plan_stops_at_first_failure(store.after(first), rest, outcome);
            let stop = first_failure(store.after(first), rest);
            if stop < rest.len() {
                assert(rest[stop as int] == commands[stop as int + 1]);
                assert(written(store, commands, (stop + 1) as nat) == written(
                    store.after(first),
                    rest,
                    stop,
                ));
            }
        } else {
            lemma_failed_command_changes_nothing(store, first);
        }
    }
}

} // verus!

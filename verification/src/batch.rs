//! The steps taken for each file of a batch.

use vstd::prelude::*;

use crate::cli::Cli;

verus! {

/// What happened in the last step for the current file.
#[derive(Clone, Copy, Debug, PartialEq, Eq, Structural)]
pub enum BatchEvent {
    /// Work on a new file begins.
    Begin,
    /// An output path was looked for; whether one was found.
    OutputChosen(bool),
    /// The file was encoded; whether the encoder succeeded.
    Encoded(bool),
    /// The source was deleted or renamed; whether that succeeded.
    PostProcessed(bool),
}

/// What to do next for the current file.
#[derive(Clone, Copy, Debug, PartialEq, Eq, Structural)]
pub enum BatchAction {
    /// Encode into `<stem>.temp.mkv` beside the source.
    UseTempOutput,
    /// Choose an output path that does not clash with an existing file.
    ChooseOutput,
    /// Encode the file.
    Encode,
    /// Delete or rename the source and give the output its name.
    PostProcess,
    /// Count the file as completed; it is done.
    CountCompleted,
    /// Count the file as failed; it is done.
    CountFailed,
}

/// The source is replaced by the output once encoded.
pub open spec fn replaces_source(cli: Cli) -> bool {
    cli.delete || cli.rename
}

/// The step after `event`.
pub open spec fn next_step(cli: Cli, event: BatchEvent) -> BatchAction {
    match event {
        BatchEvent::Begin => if replaces_source(cli) {
            BatchAction::UseTempOutput
        } else {
            BatchAction::ChooseOutput
        },
        BatchEvent::OutputChosen(ok) => if ok {
            BatchAction::Encode
        } else {
            BatchAction::CountFailed
        },
        BatchEvent::Encoded(ok) => if !ok {
            BatchAction::CountFailed
        } else if replaces_source(cli) {
            BatchAction::PostProcess
        } else {
            BatchAction::CountCompleted
        },
        BatchEvent::PostProcessed(ok) => if ok {
            BatchAction::CountCompleted
        } else {
            BatchAction::CountFailed
        },
    }
}

/// What to do after `event` for the current file: the temporary output when
/// the source is to be replaced, else a chosen output; a file without an
/// output, or whose encoding failed, is counted as failed; the source is
/// deleted or renamed only after a successful encode; the file is counted
/// as completed once everything it needs succeeded.
pub fn next_action(cli: &Cli, event: BatchEvent) -> (a: BatchAction)
    ensures
        a == next_step(*cli, event),
        event == BatchEvent::Begin ==> a == (if cli.delete || cli.rename {
            BatchAction::UseTempOutput
        } else {
            BatchAction::ChooseOutput
        }),
        event == BatchEvent::OutputChosen(false) ==> a == BatchAction::CountFailed,
        event == BatchEvent::OutputChosen(true) ==> a == BatchAction::Encode,
        event == BatchEvent::Encoded(false) ==> a == BatchAction::CountFailed,
        event == BatchEvent::Encoded(true) ==> a == (if cli.delete || cli.rename {
            BatchAction::PostProcess
        } else {
            BatchAction::CountCompleted
        }),
        event matches BatchEvent::PostProcessed(ok) ==> a == (if ok {
            BatchAction::CountCompleted
        } else {
            BatchAction::CountFailed
        }),
        a == BatchAction::PostProcess ==> event == BatchEvent::Encoded(true),
{
    match event {
        BatchEvent::Begin => {
            if cli.delete || cli.rename {
                BatchAction::UseTempOutput
            } else {
                BatchAction::ChooseOutput
            }
        },
        BatchEvent::OutputChosen(ok) => {
            if ok {
                BatchAction::Encode
            } else {
                BatchAction::CountFailed
            }
        },
        BatchEvent::Encoded(ok) => {
            if !ok {
                BatchAction::CountFailed
            } else if cli.delete || cli.rename {
                BatchAction::PostProcess
            } else {
                BatchAction::CountCompleted
            }
        },
        BatchEvent::PostProcessed(ok) => {
            if ok {
                BatchAction::CountCompleted
            } else {
                BatchAction::CountFailed
            }
        },
    }
}

/// The event that performing `action` produces, given how each kind of
/// outside work turns out for the file: whether an output path is found,
/// whether encoding succeeds, whether post-processing succeeds. None for
/// the counting actions, which end the file.
pub open spec fn event_after(
    action: BatchAction,
    output_found: bool,
    encoded: bool,
    post_processed: bool,
) -> Option<BatchEvent> {
    match action {
        BatchAction::UseTempOutput => Some(BatchEvent::OutputChosen(true)),
        BatchAction::ChooseOutput => Some(BatchEvent::OutputChosen(output_found)),
        BatchAction::Encode => Some(BatchEvent::Encoded(encoded)),
        BatchAction::PostProcess => Some(BatchEvent::PostProcessed(post_processed)),
        BatchAction::CountCompleted => None,
        BatchAction::CountFailed => None,
    }
}

/// The actions taken for one file, from `Begin`, until it is counted
/// (at most `fuel` steps).
pub open spec fn file_actions(
    cli: Cli,
    event: BatchEvent,
    output_found: bool,
    encoded: bool,
    post_processed: bool,
    fuel: nat,
) -> Seq<BatchAction>
    decreases fuel,
{
    let a = next_step(cli, event);
    if fuel == 0 {
        seq![a]
    } else {
        match event_after(a, output_found, encoded, post_processed) {
            None => seq![a],
            Some(e) => seq![a] + file_actions(
                cli,
                e,
                output_found,
                encoded,
                post_processed,
                (fuel - 1) as nat,
            ),
        }
    }
}

/// Counting ends a file.
pub open spec fn is_count(a: BatchAction) -> bool {
    a == BatchAction::CountCompleted || a == BatchAction::CountFailed
}

/// Law: every file is counted exactly once, as its last step, within four
/// steps; it is counted as completed exactly when an output was available,
/// the encode succeeded and, if the source is to be replaced, replacing it
/// succeeded; the source is touched only after a successful encode and only
/// with `delete` or `rename`.
pub proof fn law_each_file_counted_once(
    cli: Cli,
    output_found: bool,
    encoded: bool,
    post_processed: bool,
)
    ensures
        ({
            let t = file_actions(cli, BatchEvent::Begin, output_found, encoded, post_processed, 3);
            &&& t.len() <= 4
            &&& is_count(t.last())
            &&& forall|i: int| 0 <= i < t.len() - 1 ==> !is_count(#[trigger] t[i])
            &&& (t.last() == BatchAction::CountCompleted <==> (replaces_source(cli)
                || output_found) && encoded && (replaces_source(cli) ==> post_processed))
            &&& (t.contains(BatchAction::PostProcess) <==> replaces_source(cli) && encoded)
            &&& (t.contains(BatchAction::Encode) <==> replaces_source(cli) || output_found)
        }),
{
    reveal_with_fuel(file_actions, 5);
    let t = file_actions(cli, BatchEvent::Begin, output_found, encoded, post_processed, 3);
    if replaces_source(cli) {
        if encoded {
            assert(t =~= seq![
                BatchAction::UseTempOutput,
                BatchAction::Encode,
                BatchAction::PostProcess,
                if post_processed {
                    BatchAction::CountCompleted
                } else {
                    BatchAction::CountFailed
                },
            ]);
            assert(t[2] == BatchAction::PostProcess);
            assert(t[1] == BatchAction::Encode);
        } else {
            assert(t =~= seq![
                BatchAction::UseTempOutput,
                BatchAction::Encode,
                BatchAction::CountFailed,
            ]);
            assert(t[1] == BatchAction::Encode);
        }
    } else if output_found {
        assert(t =~= seq![
            BatchAction::ChooseOutput,
            BatchAction::Encode,
            if encoded {
                BatchAction::CountCompleted
            } else {
                BatchAction::CountFailed
            },
        ]);
        assert(t[1] == BatchAction::Encode);
    } else {
        assert(t =~= seq![BatchAction::ChooseOutput, BatchAction::CountFailed]);
    }
}

} // verus!

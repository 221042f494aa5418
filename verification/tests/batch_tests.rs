use vopus9::batch::{next_action, BatchAction, BatchEvent};
use vopus9::batch::BatchAction::{ChooseOutput, CountCompleted, CountFailed, Encode, PostProcess, UseTempOutput};
use vopus9::cli::{Cli, Speed};

fn cli(delete: bool, rename: bool) -> Cli {
    Cli {
        input: None,
        output: None,
        output_dir: None,
        input_dir: None,
        recursive: false,
        video_bitrate: None,
        audio_bitrate: None,
        crf: None,
        speed: Speed::Fast,
        info: false,
        delete,
        rename,
    }
}

fn run(c: &Cli, output_found: bool, encoded: bool, post_processed: bool) -> Vec<BatchAction> {
    let mut actions = vec![];
    let mut event = BatchEvent::Begin;
    loop {
        let a = next_action(c, event);
        actions.push(a);
        event = match a {
            BatchAction::UseTempOutput => BatchEvent::OutputChosen(true),
            BatchAction::ChooseOutput => BatchEvent::OutputChosen(output_found),
            BatchAction::Encode => BatchEvent::Encoded(encoded),
            BatchAction::PostProcess => BatchEvent::PostProcessed(post_processed),
            BatchAction::CountCompleted | BatchAction::CountFailed => break,
        };
    }
    actions
}

#[test]
fn plain_encode_steps() {
    let c = cli(false, false);
    assert_eq!(run(&c, true, true, true), vec![ChooseOutput, Encode, CountCompleted]);
    assert_eq!(run(&c, true, false, true), vec![ChooseOutput, Encode, CountFailed]);
    assert_eq!(run(&c, false, true, true), vec![ChooseOutput, CountFailed]);
}

#[test]
fn source_replaced_only_after_successful_encode() {
    for c in [cli(true, false), cli(false, true)] {
        assert_eq!(run(&c, false, true, true), vec![UseTempOutput, Encode, PostProcess, CountCompleted]);
        assert_eq!(run(&c, true, true, false), vec![UseTempOutput, Encode, PostProcess, CountFailed]);
        assert_eq!(run(&c, true, false, true), vec![UseTempOutput, Encode, CountFailed]);
    }
}

#[test]
fn single_steps() {
    let c = cli(false, false);
    assert_eq!(next_action(&c, BatchEvent::PostProcessed(true)), BatchAction::CountCompleted);
    assert_eq!(next_action(&c, BatchEvent::PostProcessed(false)), BatchAction::CountFailed);
    assert_eq!(next_action(&cli(true, false), BatchEvent::Begin), BatchAction::UseTempOutput);
    assert_eq!(next_action(&c, BatchEvent::Begin), BatchAction::ChooseOutput);
}

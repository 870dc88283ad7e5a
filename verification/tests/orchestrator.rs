use feedback_ui::events::{run_events, script_for, Event, Instruction};

#[test]
fn path_change_script() {
    let script = script_for(&Event::PathChange).expect("PathChange animates");
    assert_eq!(
        script.enter,
        vec![Instruction::SetFrameAroundCurrentPath, Instruction::Render]
    );
    assert_eq!(
        script.exit,
        vec![Instruction::RemoveFrameAroundCurrentPath, Instruction::Render]
    );
}

#[test]
fn path_error_script() {
    let script = script_for(&Event::PathError).expect("PathError animates");
    assert_eq!(
        script.enter,
        vec![
            Instruction::SetPathToRed,
            Instruction::SetFrameAroundCurrentPath,
            Instruction::Render
        ]
    );
    assert_eq!(
        script.exit,
        vec![
            Instruction::ResetCurrentPathColor,
            Instruction::RemoveFrameAroundCurrentPath,
            Instruction::Render
        ]
    );
}

#[test]
fn file_deleted_script() {
    let script = script_for(&Event::FileDeleted).expect("FileDeleted animates");
    assert_eq!(
        script.enter,
        vec![Instruction::SetFrameAroundSpaceFreed, Instruction::Render]
    );
    assert_eq!(
        script.exit,
        vec![Instruction::RemoveFrameAroundSpaceFreed, Instruction::Render]
    );
}

#[test]
fn app_exit_enqueues_nothing() {
    assert!(script_for(&Event::AppExit).is_none());
    let out = run_events(&vec![Event::AppExit, Event::PathChange, Event::FileDeleted]);
    assert_eq!(out, vec![]);
}

#[test]
fn events_after_exit_are_not_processed() {
    let out = run_events(&vec![Event::PathChange, Event::AppExit, Event::PathError]);
    assert_eq!(
        out,
        vec![
            Instruction::SetFrameAroundCurrentPath,
            Instruction::Render,
            Instruction::RemoveFrameAroundCurrentPath,
            Instruction::Render
        ]
    );
}

#[test]
fn back_to_back_scripts_do_not_interleave() {
    let out = run_events(&vec![Event::PathError, Event::FileDeleted]);
    let mut expected = Vec::new();
    let first = script_for(&Event::PathError).unwrap();
    expected.extend(first.enter);
    expected.extend(first.exit);
    let second_start = expected.len();
    let second = script_for(&Event::FileDeleted).unwrap();
    expected.extend(second.enter);
    expected.extend(second.exit);
    assert_eq!(out, expected);
    // the second script's first instruction comes only after the whole of
    // the first script
    assert_eq!(out[second_start], Instruction::SetFrameAroundSpaceFreed);
    assert_eq!(out[second_start - 1], Instruction::Render);
}

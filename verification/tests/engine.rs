use bf_engine::interpreter::{Interpreter, StepError};

fn run_program(src: &str) -> Interpreter {
    let mut interp = Interpreter::new(src.to_string());
    let result = interp.run();
    assert!(result.is_ok(), "program was expected to run cleanly");
    interp
}

fn cell(interp: &Interpreter, i: usize) -> u8 {
    let (window, _) = interp.get_range_from_tape(i, i + 1);
    window[0]
}

#[test]
fn increments_then_decrements_round_trip() {
    for n in [1usize, 7, 100, 255] {
        let src = format!("{}{}#", "+".repeat(n), "-".repeat(n));
        let interp = run_program(&src);
        assert_eq!(cell(&interp, 0), 0, "n = {}", n);
    }
}

#[test]
fn increment_wraps_after_256() {
    let interp = run_program(&format!("{}#", "+".repeat(255)));
    assert_eq!(cell(&interp, 0), 255);
    let interp = run_program(&format!("{}#", "+".repeat(256)));
    assert_eq!(cell(&interp, 0), 0);
}

#[test]
fn decrement_of_zero_wraps_to_255() {
    let interp = run_program("-#");
    assert_eq!(cell(&interp, 0), 255);
}

#[test]
fn pointer_right_30000_times_reaches_wraparound_state() {
    let interp = run_program(&format!("{}#", ">".repeat(30_000)));
    assert_eq!(interp.data_pointer, 30_000);
    let interp = run_program(&format!("{}#", ">".repeat(30_001)));
    assert_eq!(interp.data_pointer, 0);
}

#[test]
fn pointer_left_from_zero_wraps() {
    let interp = run_program("<#");
    assert_eq!(interp.data_pointer, 30_000);
}

#[test]
fn clear_loop_clears_any_nonzero_value() {
    for v in [1usize, 2, 5, 255] {
        let src = format!("{}[-]#", "+".repeat(v));
        let interp = run_program(&src);
        assert_eq!(cell(&interp, 0), 0, "v = {}", v);
    }
}

#[test]
fn clear_loop_on_zero_cell_is_skipped_entirely() {
    // Were the body dispatched, the output instruction would append a byte.
    let interp = run_program("[.]#");
    assert_eq!(interp.output, "");
    assert_eq!(cell(&interp, 0), 0);
}

#[test]
fn nested_loops_skipped_with_nesting_depth_restored() {
    // With the guard cell 0 the whole nested structure is skipped; the `+`
    // after it runs.  If the skip exited at the first `]`, the inner `-`
    // would run and the trailing `]` would pop an empty stack.
    let mut interp = Interpreter::new("[[-]-]+#".to_string());
    let result = interp.run();
    assert!(result.is_ok());
    assert_eq!(cell(&interp, 0), 1);
}

#[test]
fn nested_loops_run_when_guards_nonzero() {
    // Cell 0 holds 1 (outer guard), cell 1 holds 2 (inner guard); the outer
    // loop clears cell 1 through the inner loop, then clears cell 0.
    let interp = run_program("+>++<[>[-]<-]#");
    assert_eq!(cell(&interp, 0), 0);
    assert_eq!(cell(&interp, 1), 0);
}

#[test]
fn output_appends_exactly_one_character_with_code_64() {
    let interp = run_program("++++++++[>++++++++<-]>.#");
    assert_eq!(interp.output, "@");
    assert_eq!(interp.output.chars().next().map(|c| c as u32), Some(64));
}

#[test]
fn output_accumulates_in_order() {
    let interp = run_program("+.+.#");
    let codes: Vec<u32> = interp.output.chars().map(|c| c as u32).collect();
    assert_eq!(codes, vec![1, 2]);
}

#[test]
fn unmatched_close_bracket_raises_error() {
    let mut interp = Interpreter::new("]#".to_string());
    assert_eq!(interp.run(), Err(StepError::UnmatchedCloseBracket));
}

#[test]
fn unmatched_close_bracket_after_balanced_loop() {
    let mut interp = Interpreter::new("+[-]]#".to_string());
    assert_eq!(interp.run(), Err(StepError::UnmatchedCloseBracket));
}

#[test]
fn step_reports_unmatched_close_and_moves_past_it() {
    let mut interp = Interpreter::new("]+#".to_string());
    assert_eq!(interp.step(), Err(StepError::UnmatchedCloseBracket));
    let (_, cursor) = interp.get_source_with_inst_pointer();
    assert_eq!(cursor, 1);
}

#[test]
fn terminator_stops_run_without_being_dispatched() {
    // The `+` after the terminator must never be observed in the tape.
    let mut interp = Interpreter::new("+#+".to_string());
    let result = interp.run();
    assert!(result.is_ok());
    assert_eq!(cell(&interp, 0), 1);
    let (_, cursor) = interp.get_source_with_inst_pointer();
    assert_eq!(cursor, 1);
}

#[test]
fn finished_exactly_when_cursor_at_last_position() {
    let mut interp = Interpreter::new("+#".to_string());
    assert!(!interp.finished());
    assert!(interp.step().is_ok());
    assert!(interp.finished());

    let interp = Interpreter::new("#".to_string());
    assert!(interp.finished());
}

#[test]
fn construction_places_cursor_at_first_instruction() {
    let interp = Interpreter::new("ab +x#".to_string());
    let (src, cursor) = interp.get_source_with_inst_pointer();
    assert_eq!(src, "ab +x#");
    assert_eq!(cursor, 3);
}

#[test]
fn inert_characters_are_transparent_to_execution() {
    let interp = run_program("comment + one\n+ two\n#");
    assert_eq!(cell(&interp, 0), 2);
    assert_eq!(interp.output, "");
}

#[test]
fn tape_window_and_relative_pointer() {
    let interp = run_program("+>++>+++#");
    let (window, offset) = interp.get_range_from_tape(1, 4);
    assert_eq!(window, vec![2, 3, 0]);
    assert_eq!(offset, 1);
}

#[test]
fn tape_window_offset_saturates_when_pointer_before_window() {
    let interp = run_program("+#");
    let (window, offset) = interp.get_range_from_tape(5, 8);
    assert_eq!(window, vec![0, 0, 0]);
    assert_eq!(offset, 0);
}

#[test]
fn empty_tape_window() {
    let interp = run_program("+#");
    let (window, offset) = interp.get_range_from_tape(3, 3);
    assert!(window.is_empty());
    assert_eq!(offset, 0);
}

#[test]
fn input_instruction_is_a_no_op() {
    let interp = run_program(",#");
    assert_eq!(cell(&interp, 0), 0);
    assert_eq!(interp.data_pointer, 0);
    assert_eq!(interp.output, "");
}

#[test]
fn stepping_a_finished_program_changes_nothing() {
    let mut interp = Interpreter::new("#".to_string());
    assert!(interp.step().is_ok());
    assert!(interp.finished());
    assert_eq!(cell(&interp, 0), 0);
    let (_, cursor) = interp.get_source_with_inst_pointer();
    assert_eq!(cursor, 0);
}

#[test]
fn loop_reentry_restores_bracket_position() {
    // Two iterations: cell 0 counts down from 2 while cell 1 counts up.
    let interp = run_program("++[>+<-]#");
    assert_eq!(cell(&interp, 0), 0);
    assert_eq!(cell(&interp, 1), 2);
}

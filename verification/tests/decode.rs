use asmr::batch::{entrypoint, entrypoint_process_batched, COUNT_OVER_MAX};
use asmr::decode::{entrypoint_process, execute_plan, ParserState, SlotEntry};
use asmr::heap_start;
use asmr::plan::{build_decode_plan, PlanTerminal};

fn full(data_len: u64) -> SlotEntry {
    SlotEntry { marker: 255, data_len }
}

fn dup(index: u8) -> SlotEntry {
    SlotEntry { marker: index, data_len: 0 }
}

fn fresh_state(input_cursor: u64) -> ParserState {
    ParserState { input_cursor, table: Vec::new() }
}

#[test]
fn alternating_duplicates_land_exactly() {
    // Slot i > 0 alternates duplicate / non-duplicate. A non-duplicate slot
    // holds the cursor where its record begins; a duplicate slot holds an
    // exact copy of the entry at its referenced prior index.
    let input = vec![full(8), dup(0), full(0), dup(2), full(16)];
    let mut state = fresh_state(0);
    let completed = entrypoint_process(&input, 5, &mut state);
    assert!(completed);
    // skip constant 10343 plus declared length, rounded to the 8-byte
    // boundary: 0 -> 10344 -> 10352 -> 20688 -> 20696 -> 31048
    assert_eq!(state.table, vec![0, 0, 10352, 10352, 20696]);
    assert_eq!(state.input_cursor, 31048);
}

#[test]
fn largest_declared_length() {
    let input = vec![full(10240)];
    let mut state = fresh_state(0);
    entrypoint_process(&input, 1, &mut state);
    assert_eq!(state.table, vec![0]);
    assert_eq!(state.input_cursor, 20576);
}

#[test]
fn count_zero_decodes_nothing() {
    let input = vec![full(0)];
    let mut state = fresh_state(16);
    let completed = entrypoint_process(&input, 0, &mut state);
    assert!(completed);
    assert!(state.table.is_empty());
    assert_eq!(state.input_cursor, 16);
}

#[test]
fn batched_matches_unrolled() {
    // Same total, decoded once by the plain unrolled path and once by the
    // batched path: identical descriptor tables and cursors.
    let input = vec![
        full(1),
        full(9),
        dup(0),
        full(0),
        dup(3),
        full(17),
        dup(1),
        full(8),
        dup(7),
        full(5),
    ];
    let mut unrolled = fresh_state(0);
    entrypoint_process(&input, 10, &mut unrolled);

    let mut batched = fresh_state(0);
    let completed = entrypoint_process_batched(&input, 10, 8, &mut batched);
    assert!(completed);
    assert_eq!(batched.table.len(), 10);
    assert_eq!(batched.table, unrolled.table);
    assert_eq!(batched.input_cursor, unrolled.input_cursor);
}

#[test]
fn count_equal_to_batch_size() {
    // A total of exactly one batch leaves remainder 0: the remainder path
    // decodes zero slots and completes.
    let input = vec![full(0), dup(0), full(2), dup(2), full(4), dup(4), full(6), dup(6)];
    let mut unrolled = fresh_state(0);
    entrypoint_process(&input, 8, &mut unrolled);

    let mut batched = fresh_state(0);
    let completed = entrypoint_process_batched(&input, 8, 8, &mut batched);
    assert!(completed);
    assert_eq!(batched.table, unrolled.table);
    assert_eq!(batched.input_cursor, unrolled.input_cursor);
}

#[test]
fn count_over_maximum_is_rejected() {
    // 17 accounts when the maximum is 16: the distinguished failure status,
    // and nothing written.
    let input: Vec<SlotEntry> = Vec::new();
    let mut state = fresh_state(99);
    let status = entrypoint(&input, 17, &mut state);
    assert_eq!(status, COUNT_OVER_MAX);
    assert_eq!(status, u32::MAX);
    assert!(state.table.is_empty());
    assert_eq!(state.input_cursor, 99);
}

#[test]
fn entrypoint_routes_small_count_unrolled() {
    let input = vec![full(0), dup(0), full(8)];
    let mut state = fresh_state(0);
    let status = entrypoint(&input, 3, &mut state);
    assert_eq!(status, 0);
    assert_eq!(state.table, vec![0, 0, 10344]);

    let mut via_plain = fresh_state(0);
    entrypoint_process(&input, 3, &mut via_plain);
    assert_eq!(state.table, via_plain.table);
    assert_eq!(state.input_cursor, via_plain.input_cursor);
}

#[test]
fn entrypoint_routes_large_count_batched() {
    let mut input = Vec::new();
    for i in 0..10u8 {
        if i % 3 == 2 {
            input.push(dup(i - 1));
        } else {
            input.push(full(i as u64));
        }
    }
    let mut state = fresh_state(0);
    let status = entrypoint(&input, 10, &mut state);
    assert_eq!(status, 0);

    let mut via_plain = fresh_state(0);
    entrypoint_process(&input, 10, &mut via_plain);
    assert_eq!(state.table, via_plain.table);
    assert_eq!(state.input_cursor, via_plain.input_cursor);
}

#[test]
fn count_zero_through_entrypoint() {
    let input: Vec<SlotEntry> = Vec::new();
    let mut state = fresh_state(7);
    let status = entrypoint(&input, 0, &mut state);
    assert_eq!(status, 0);
    assert!(state.table.is_empty());
    assert_eq!(state.input_cursor, 7);
}

#[test]
fn plan_marks_only_the_program_first_slot() {
    let p = build_decode_plan(3, true, false);
    assert_eq!(p.ops.len(), 3);
    assert!(p.ops[0].is_first_slot);
    assert!(!p.ops[0].emits_duplicate_check);
    assert!(!p.ops[1].is_first_slot);
    assert!(p.ops[1].emits_duplicate_check);
    assert!(p.ops[2].emits_duplicate_check);
    assert_eq!(p.terminal, PlanTerminal::Complete);
}

#[test]
fn reusable_batch_body_checks_every_slot() {
    let p = build_decode_plan(4, false, true);
    assert_eq!(p.ops.len(), 4);
    for op in &p.ops {
        assert!(!op.is_first_slot);
        assert!(op.emits_duplicate_check);
    }
    assert_eq!(p.terminal, PlanTerminal::FallThrough);
}

#[test]
fn empty_plan_has_only_its_terminal() {
    let p = build_decode_plan(0, true, false);
    assert!(p.ops.is_empty());
    assert_eq!(p.terminal, PlanTerminal::Complete);

    let input: Vec<SlotEntry> = Vec::new();
    let mut state = fresh_state(3);
    let completed = execute_plan(&input, &p, &mut state);
    assert!(completed);
    assert!(state.table.is_empty());
    assert_eq!(state.input_cursor, 3);
}

#[test]
fn heap_starts_after_descriptor_table() {
    assert_eq!(heap_start(0), 0x300000000);
    assert_eq!(heap_start(4), 0x300000020);
    assert_eq!(heap_start(16), 0x300000080);
}

#[test]
fn process_accepts_decoded_accounts() {
    let program_id: pinocchio::pubkey::Pubkey = [0u8; 32];
    let accounts: [pinocchio::account_info::AccountInfo; 0] = [];
    assert_eq!(asmr::process(&program_id, &accounts, &[1, 2, 3]), 0);
}

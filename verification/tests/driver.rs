use span_batch_tx::driver::{Action, BlockId, BlockInfo, Driver, Event, L2BlockInfo, Phase};

fn block(number: u64) -> L2BlockInfo {
    L2BlockInfo {
        block_info: BlockInfo {
            hash: [number as u8; 32],
            number,
            parent_hash: [number.wrapping_sub(1) as u8; 32],
            timestamp: 2 * number,
        },
        l1_origin: BlockId { hash: [0xaa; 32], number: number / 6 },
        seq_num: number % 6,
    }
}

#[test]
fn one_full_round_advances_the_cursor() {
    let (d, a) = Driver::new(block(7));
    assert_eq!(a, Action::Step(block(7)));
    let (d, a) = d.on_event(Event::Stepped { ok: true });
    assert_eq!(a, Action::Pull);
    let (d, a) = d.on_event(Event::Pulled { ready: true });
    assert_eq!(a, Action::Validate);
    let (d, a) = d.on_event(Event::Validated { valid: true });
    assert_eq!(a, Action::Fetch(8));
    let (d, a) = d.on_event(Event::Fetched { block: Some(block(8)) });
    assert_eq!(a, Action::Step(block(8)));
    assert_eq!(d, Driver { cursor: block(8), phase: Phase::Stepping });
}

#[test]
fn failed_fetch_keeps_the_cursor_and_the_loop_goes_on() {
    let (d, _) = Driver::new(block(7));
    let (d, _) = d.on_event(Event::Stepped { ok: true });
    let (d, _) = d.on_event(Event::Pulled { ready: true });
    let (d, _) = d.on_event(Event::Validated { valid: true });
    let (d, a) = d.on_event(Event::Fetched { block: None });
    assert_eq!(d.cursor, block(7));
    assert_eq!(a, Action::Step(block(7)));
    let (d, _) = d.on_event(Event::Stepped { ok: true });
    let (d, _) = d.on_event(Event::Pulled { ready: true });
    let (d, a) = d.on_event(Event::Validated { valid: true });
    assert_eq!(a, Action::Fetch(8));
    let (d, _) = d.on_event(Event::Fetched { block: Some(block(8)) });
    assert_eq!(d.cursor, block(8));
}

#[test]
fn failed_step_is_not_fatal() {
    let (d, _) = Driver::new(block(3));
    let (d, a) = d.on_event(Event::Stepped { ok: false });
    assert_eq!(a, Action::Pull);
    assert_eq!(d, Driver { cursor: block(3), phase: Phase::Pulling });
}

#[test]
fn no_attributes_is_a_no_op_iteration() {
    let (start, _) = Driver::new(block(3));
    let (d, _) = start.on_event(Event::Stepped { ok: true });
    let (d, a) = d.on_event(Event::Pulled { ready: false });
    assert_eq!(d, start);
    assert_eq!(a, Action::Step(block(3)));
}

#[test]
fn refused_attributes_halt_the_loop() {
    let (d, _) = Driver::new(block(3));
    let (d, _) = d.on_event(Event::Stepped { ok: true });
    let (d, _) = d.on_event(Event::Pulled { ready: true });
    let (d, a) = d.on_event(Event::Validated { valid: false });
    assert_eq!(a, Action::Halt);
    assert_eq!(d, Driver { cursor: block(3), phase: Phase::Halted });
    let (d, a) = d.on_event(Event::Fetched { block: Some(block(4)) });
    assert_eq!(a, Action::Halt);
    assert_eq!(d.cursor, block(3));
}

#[test]
fn unexpected_answer_changes_nothing() {
    let (start, _) = Driver::new(block(3));
    let (d, a) = start.on_event(Event::Fetched { block: Some(block(9)) });
    assert_eq!(d, start);
    assert_eq!(a, Action::Step(block(3)));
}

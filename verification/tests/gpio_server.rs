use homegw_rt::bridge::{reset_outcome, Req, ReqPacket, ResetError, ResetReq, RESET_HOLD_NS};
use homegw_rt::config::{
    GpioConfig, GpioPinConfig, GpioPinDirection, GpioPinDrive, GpioPinEntry, GpioPinFunction,
    GpioPinLevel,
};
use homegw_rt::deadline::SchedAttr;
use homegw_rt::gpio_server::{
    drain_deadline, loop_schedule, may_drain, ControlLoop, DRAIN_BUDGET_NS, LOOP_PERIOD_MS,
    LOOP_RUNTIME_MS, RESET_ASSERTED, RESET_RELEASED,
};
use homegw_rt::gpiod::GpioPin;
use homegw_rt::operator::{plan_lines, Operator, PinSkip};
use std::collections::HashMap;
use std::time::Duration;

const MS: u64 = 1_000_000;
const SECOND: u64 = 1_000_000_000;

fn control_with_reset_lines(names: &[&str]) -> ControlLoop {
    let mut operator = Operator::new();
    for (i, name) in names.iter().enumerate() {
        operator.install(name.to_string(), GpioPinFunction::ExtReset, 100 + i as i32);
    }
    ControlLoop::new(operator)
}

/// Lines as the hardware would hold them: the last value written to each.
struct Board {
    values: HashMap<i32, u64>,
    next_handle: i32,
}

impl Board {
    fn new() -> Self {
        Board { values: HashMap::new(), next_handle: 10 }
    }

    fn acquire(&mut self, initial_value: u64) -> i32 {
        let handle = self.next_handle;
        self.next_handle += 1;
        self.values.insert(handle, initial_value);
        handle
    }

    fn write(&mut self, line: i32, value: u64) -> bool {
        match self.values.get_mut(&line) {
            Some(slot) => {
                *slot = value;
                true
            }
            None => false,
        }
    }

    fn read(&self, line: i32) -> u64 {
        self.values[&line]
    }
}

/// What the owner of the loop does with the packet of one call, at the
/// instant `now`.
fn serve_packet(control: &mut ControlLoop, board: &mut Board, packet: &mut ReqPacket, now: u64) {
    if let Ok(line) = control.accept(packet) {
        let asserted = board.write(line, RESET_ASSERTED);
        control.conclude(packet, asserted, now);
    }
}

/// One call from its caller's side: what the caller is told in the end.
fn serve(control: &mut ControlLoop, board: &mut Board, req: Req, now: u64) -> bool {
    let mut packet = ReqPacket::new(req);
    serve_packet(control, board, &mut packet, now);
    packet.outcome().expect("every call is completed")
}

/// The first two phases of one iteration that starts at `now`.
fn iterate(control: &mut ControlLoop, board: &mut Board, now: u64) -> Vec<i32> {
    let todo = control.begin_iteration(now);
    for line in control.blink_lines().clone() {
        board.write(line, todo.blink);
    }
    for line in &todo.released {
        board.write(*line, RESET_RELEASED);
    }
    todo.released
}

fn read_level(text: &str) -> Option<GpioPinLevel> {
    match text {
        "high" => Some(GpioPinLevel::High),
        "low" => Some(GpioPinLevel::Low),
        _ => None,
    }
}

/// Reads one entry of the pin table.
fn read_pin(raw: &str) -> Option<GpioPinConfig> {
    let value: serde_json::Value = serde_json::from_str(raw).ok()?;
    let direction = match value.get("direction")?.as_str()? {
        "in" => GpioPinDirection::In,
        "out" => GpioPinDirection::Out,
        _ => return None,
    };
    let drive = match value.get("drive") {
        None => None,
        Some(d) => match d.as_str()? {
            "push_pull" => Some(GpioPinDrive::PushPull),
            "open_drain" => Some(GpioPinDrive::OpenDrain),
            _ => return None,
        },
    };
    let initial_level = match value.get("initial_level") {
        None => None,
        Some(l) => Some(read_level(l.as_str()?)?),
    };
    let function = match value.get("function") {
        None => GpioPinFunction::default(),
        Some(f) => match f.as_str()? {
            "ext_reset" => GpioPinFunction::ExtReset,
            "liveness_blink" => GpioPinFunction::LivenessBlink,
            _ => return None,
        },
    };
    Some(GpioPinConfig {
        chip: u8::try_from(value.get("chip")?.as_u64()?).ok()?,
        offset: u8::try_from(value.get("offset")?.as_u64()?).ok()?,
        direction,
        drive,
        initial_level,
        function,
    })
}

/// Acquires every line that the table asks for on a board with `chip_count`
/// chips, and hands the lines to an operator.
fn bring_up(table: &[(&str, &str)], chip_count: usize, board: &mut Board) -> Operator {
    let config = GpioConfig {
        pins: table
            .iter()
            .map(|(name, raw)| GpioPinEntry { name: name.to_string(), config: read_pin(raw) })
            .collect(),
    };
    let mut operator = Operator::new();
    let plans = plan_lines(Some(&config), chip_count);
    for (entry, plan) in config.pins.iter().zip(plans) {
        if let Ok(request) = plan {
            let handle = board.acquire(request.initial_value);
            operator.install(entry.name.clone(), request.function, handle);
        }
    }
    operator
}

#[test]
fn loop_runs_five_ms_in_each_hundred() {
    assert_eq!(LOOP_RUNTIME_MS, 5);
    assert_eq!(LOOP_PERIOD_MS, 100);
    let params = loop_schedule();
    assert_eq!(params.runtime, Duration::from_millis(5));
    assert_eq!(params.period, Duration::from_millis(100));
    let attr = SchedAttr::deadline(params);
    assert_eq!(attr.sched_runtime, 5 * MS);
    assert_eq!(attr.sched_deadline, 100 * MS);
    assert_eq!(attr.sched_period, 100 * MS);
}

#[test]
fn requests_are_taken_for_four_ms() {
    assert_eq!(DRAIN_BUDGET_NS, 4 * MS);
    assert_eq!(drain_deadline(0), 4 * MS);
    assert_eq!(drain_deadline(250 * MS), 254 * MS);
    assert_eq!(drain_deadline(u64::MAX - 4 * MS), u64::MAX);
    let deadline = drain_deadline(100 * MS);
    assert!(may_drain(100 * MS, deadline));
    assert!(may_drain(104 * MS - 1, deadline));
    assert!(!may_drain(104 * MS, deadline));
    assert!(!may_drain(105 * MS, deadline));
}

#[test]
fn reset_values_are_active_low() {
    assert_eq!(RESET_ASSERTED, 0);
    assert_eq!(RESET_RELEASED, 1);
}

#[test]
fn new_loop_has_nothing_pending() {
    let mut control = control_with_reset_lines(&["x"]);
    assert_eq!(control.pending_resets(), 0);
    assert_eq!(control.reset_expiry(100), None);
    assert!(control.blink_lines().is_empty());
    assert_eq!(control.expire_resets(u64::MAX), Vec::<i32>::new());
}

#[test]
fn blink_alternates_every_iteration() {
    let mut control = control_with_reset_lines(&[]);
    let mut last = control.toggle_blink();
    assert_eq!(last, 1);
    for _ in 0..1000 {
        let bit = control.toggle_blink();
        assert!(bit == 0 || bit == 1);
        assert_ne!(bit, last);
        last = bit;
    }
}

#[test]
fn blink_value_goes_to_every_blink_line() {
    let mut board = Board::new();
    let mut operator = Operator::new();
    let a = board.acquire(0);
    let b = board.acquire(0);
    operator.install("a".to_string(), GpioPinFunction::LivenessBlink, a);
    operator.install("b".to_string(), GpioPinFunction::LivenessBlink, b);
    let mut control = ControlLoop::new(operator);
    assert_eq!(control.blink_lines(), &vec![a, b]);
    iterate(&mut control, &mut board, 0);
    assert_eq!((board.read(a), board.read(b)), (1, 1));
    iterate(&mut control, &mut board, 100 * MS);
    assert_eq!((board.read(a), board.read(b)), (0, 0));
    iterate(&mut control, &mut board, 200 * MS);
    assert_eq!((board.read(a), board.read(b)), (1, 1));
}

#[test]
fn reset_of_known_pin_starts() {
    let mut control = control_with_reset_lines(&["x", "y"]);
    let req = Req::reset("y");
    assert_eq!(control.begin_reset(&req), Ok(101));
    assert_eq!(control.pending_resets(), 0);
    assert_eq!(control.commit_reset(&req, true, 7 * MS), Ok(()));
    assert_eq!(control.pending_resets(), 1);
    assert_eq!(control.reset_expiry(101), Some(7 * MS + SECOND));
    assert_eq!(control.reset_expiry(100), None);
}

#[test]
fn reset_expires_at_request_time_plus_hold() {
    let mut control = control_with_reset_lines(&["x"]);
    let req = Req::Reset(ResetReq { pin: "x".to_string(), hold: 250 * MS });
    assert_eq!(control.commit_reset(&req, true, 40 * MS), Ok(()));
    assert_eq!(control.reset_expiry(100), Some(290 * MS));
    let mut control = control_with_reset_lines(&["x"]);
    let req = Req::Reset(ResetReq { pin: "x".to_string(), hold: 5 });
    assert_eq!(control.commit_reset(&req, true, u64::MAX - 5), Ok(()));
    assert_eq!(control.reset_expiry(100), Some(u64::MAX));
}

#[test]
fn second_reset_of_pending_pin_fails_and_keeps_expiry() {
    let mut control = control_with_reset_lines(&["x"]);
    let req = Req::reset("x");
    assert_eq!(control.commit_reset(&req, true, 10 * MS), Ok(()));
    assert_eq!(control.begin_reset(&req), Err(ResetError::AlreadyResetting));
    assert_eq!(control.commit_reset(&req, true, 500 * MS), Err(ResetError::AlreadyResetting));
    assert_eq!(control.commit_reset(&req, false, 500 * MS), Err(ResetError::AlreadyResetting));
    assert_eq!(control.reset_expiry(100), Some(10 * MS + SECOND));
    assert_eq!(control.pending_resets(), 1);
    assert_eq!(control.expire_resets(10 * MS + SECOND - 1), Vec::<i32>::new());
    assert_eq!(control.begin_reset(&req), Err(ResetError::AlreadyResetting));
    assert_eq!(control.expire_resets(10 * MS + SECOND), vec![100]);
    assert_eq!(control.begin_reset(&req), Ok(100));
}

#[test]
fn eight_resets_fit_and_a_ninth_fails() {
    let names = ["dev0", "dev1", "dev2", "dev3", "dev4", "dev5", "dev6", "dev7", "dev8"];
    let mut control = control_with_reset_lines(&names);
    let mut board = Board::new();
    for i in 0..9 {
        board.values.insert(100 + i, 1);
    }
    for (i, name) in names.iter().enumerate().take(8) {
        assert!(serve(&mut control, &mut board, Req::reset(name), i as u64 * MS));
    }
    assert_eq!(control.pending_resets(), 8);
    let ninth = Req::reset("dev8");
    assert_eq!(control.begin_reset(&ninth), Ok(108));
    assert_eq!(control.commit_reset(&ninth, true, 8 * MS), Err(ResetError::HeapFull));
    assert!(!serve(&mut control, &mut board, Req::reset("dev8"), 8 * MS));
    assert_eq!(control.pending_resets(), 8);
    assert_eq!(control.reset_expiry(108), None);
    for i in 0..8 {
        assert_eq!(control.reset_expiry(100 + i), Some(i as u64 * MS + SECOND));
    }
    assert_eq!(iterate(&mut control, &mut board, SECOND), vec![100]);
    assert!(serve(&mut control, &mut board, ninth, SECOND + MS));
    assert_eq!(control.pending_resets(), 8);
}

#[test]
fn reset_is_released_by_first_iteration_at_or_after_expiry() {
    let mut control = control_with_reset_lines(&["x"]);
    let mut board = Board::new();
    board.values.insert(100, 1);
    let start = 230 * MS;
    assert!(serve(&mut control, &mut board, Req::reset("x"), start));
    assert_eq!(board.read(100), 0);
    let mut now = 300 * MS;
    while now < start + RESET_HOLD_NS {
        assert_eq!(iterate(&mut control, &mut board, now), Vec::<i32>::new());
        assert_eq!(board.read(100), 0);
        assert_eq!(control.reset_expiry(100), Some(start + RESET_HOLD_NS));
        now += 100 * MS;
    }
    assert_eq!(now, 1300 * MS);
    assert_eq!(iterate(&mut control, &mut board, now), vec![100]);
    assert_eq!(board.read(100), 1);
    assert_eq!(control.pending_resets(), 0);
    assert_eq!(iterate(&mut control, &mut board, now + 100 * MS), Vec::<i32>::new());
}

#[test]
fn reset_is_released_at_the_very_instant_of_expiry() {
    let mut control = control_with_reset_lines(&["x"]);
    assert_eq!(control.commit_reset(&Req::reset("x"), true, 0), Ok(()));
    assert_eq!(control.expire_resets(SECOND - 1), Vec::<i32>::new());
    assert_eq!(control.expire_resets(SECOND), vec![100]);
}

#[test]
fn resets_are_released_earliest_first() {
    let mut control = control_with_reset_lines(&["a", "b", "c", "d"]);
    for (name, now) in [("c", 30), ("a", 10), ("d", 40), ("b", 20)] {
        assert_eq!(control.commit_reset(&Req::reset(name), true, now), Ok(()));
    }
    assert_eq!(control.expire_resets(SECOND + 30), vec![100, 101, 102]);
    assert_eq!(control.pending_resets(), 1);
    assert_eq!(control.reset_expiry(103), Some(SECOND + 40));
    assert_eq!(control.expire_resets(SECOND + 40), vec![103]);
}

#[test]
fn unknown_pin_fails_and_changes_nothing() {
    let mut control = control_with_reset_lines(&["x"]);
    let mut board = Board::new();
    board.values.insert(100, 1);
    assert_eq!(control.commit_reset(&Req::reset("x"), true, 5 * MS), Ok(()));
    let unknown = Req::reset("unknown");
    assert_eq!(control.begin_reset(&unknown), Err(ResetError::UnknownPin));
    assert_eq!(control.commit_reset(&unknown, true, 6 * MS), Err(ResetError::UnknownPin));
    assert!(!serve(&mut control, &mut board, unknown, 6 * MS));
    assert_eq!(board.read(100), 1);
    assert_eq!(control.pending_resets(), 1);
    assert_eq!(control.reset_expiry(100), Some(5 * MS + SECOND));
}

#[test]
fn failed_write_fails_the_reset() {
    let mut control = control_with_reset_lines(&["x"]);
    let req = Req::reset("x");
    assert_eq!(control.begin_reset(&req), Ok(100));
    assert_eq!(control.commit_reset(&req, false, 5 * MS), Err(ResetError::WriteFailed));
    assert_eq!(control.pending_resets(), 0);
    assert_eq!(control.begin_reset(&req), Ok(100));
}

#[test]
fn blink_lines_cannot_be_reset() {
    let mut operator = Operator::new();
    operator.install("led".to_string(), GpioPinFunction::LivenessBlink, 7);
    let control = ControlLoop::new(operator);
    assert_eq!(control.begin_reset(&Req::reset("led")), Err(ResetError::UnknownPin));
}

#[test]
fn scenario_reset_holds_line_low_for_one_second() {
    let mut board = Board::new();
    let table = [(
        "x",
        r#"{"chip": 0, "offset": 5, "direction": "out", "function": "ext_reset", "initial_level": "low"}"#,
    )];
    let config = read_pin(table[0].1).unwrap();
    assert_eq!(GpioPin { chip: config.chip, offset: config.offset }, GpioPin { chip: 0, offset: 5 });
    let operator = bring_up(&table, 1, &mut board);
    let line = operator.lookup(&"x".to_string()).unwrap();
    assert_eq!(board.read(line), 0);
    let mut control = ControlLoop::new(operator);

    let mut now = 0;
    for _ in 0..3 {
        iterate(&mut control, &mut board, now);
        now += 100 * MS;
    }
    let called = 2 * 100 * MS + 3 * MS;
    let mut packet = ReqPacket::new(Req::reset("x"));
    serve_packet(&mut control, &mut board, &mut packet, called);
    assert_eq!(packet.outcome(), Some(true));
    assert!(reset_outcome("x", true).is_ok());
    assert_eq!(board.read(line), 0);

    let mut high_at = None;
    while high_at.is_none() {
        iterate(&mut control, &mut board, now);
        if board.read(line) == 1 {
            high_at = Some(now);
        }
        now += 100 * MS;
    }
    let elapsed = high_at.unwrap() - called;
    assert!(elapsed >= SECOND);
    assert!(elapsed <= SECOND + 100 * MS);
    assert_eq!(high_at.unwrap(), 1300 * MS);
}

#[test]
fn scenario_second_of_two_resets_fails() {
    let mut board = Board::new();
    let table = [("x", r#"{"chip": 0, "offset": 5, "direction": "out"}"#)];
    let mut control = ControlLoop::new(bring_up(&table, 1, &mut board));
    iterate(&mut control, &mut board, 0);
    let first = serve(&mut control, &mut board, Req::reset("x"), MS);
    let second = serve(&mut control, &mut board, Req::reset("x"), 2 * MS);
    assert!(first);
    assert!(!second);
    assert!(reset_outcome("x", first).is_ok());
    assert_eq!(reset_outcome("x", second).unwrap_err().message(), "failed to reset pin x");
    assert_eq!(control.pending_resets(), 1);
    assert_eq!(control.reset_expiry(10), Some(MS + SECOND));
}

#[test]
fn scenario_malformed_pin_is_left_out() {
    let table = [
        ("pin1", r#"{"chip": 0, "offset": 1, "direction": "out"}"#),
        ("pin2", r#"{"chip": 0, "offset": 2, "direction": "out", "function": "liveness_blink"}"#),
        ("pin3", r#"{"chip": 0, "offset": 3, "direction": "#),
        ("pin4", r#"{"chip": 1, "offset": 4, "direction": "out", "drive": "open_drain"}"#),
        ("pin5", r#"{"chip": 1, "offset": 5, "direction": "out", "initial_level": "high"}"#),
    ];
    assert!(read_pin(table[2].1).is_none());
    let config = GpioConfig {
        pins: table
            .iter()
            .map(|(name, raw)| GpioPinEntry { name: name.to_string(), config: read_pin(raw) })
            .collect(),
    };
    let plans = plan_lines(Some(&config), 2);
    assert_eq!(plans.len(), 5);
    assert_eq!(*plans[2].as_ref().unwrap_err(), PinSkip::InvalidConfig);
    assert_eq!(plans.iter().filter(|plan| plan.is_ok()).count(), 4);
    assert_eq!(plans[3].as_ref().unwrap().flags, 72);
    assert_eq!(plans[4].as_ref().unwrap().initial_value, 1);

    let mut board = Board::new();
    let operator = bring_up(&table, 2, &mut board);
    assert_eq!(operator.lookup(&"pin1".to_string()), Some(10));
    assert_eq!(operator.blink_lines(), &vec![11]);
    assert_eq!(operator.lookup(&"pin2".to_string()), None);
    assert_eq!(operator.lookup(&"pin3".to_string()), None);
    assert_eq!(operator.lookup(&"pin4".to_string()), Some(12));
    assert_eq!(operator.lookup(&"pin5".to_string()), Some(13));
    assert_eq!(board.values.len(), 4);

    let mut control = ControlLoop::new(operator);
    iterate(&mut control, &mut board, 0);
    assert_eq!(board.read(11), 1);
    for (i, name) in ["pin1", "pin4", "pin5"].iter().enumerate() {
        assert!(serve(&mut control, &mut board, Req::reset(name), (i as u64 + 1) * MS));
    }
    assert!(!serve(&mut control, &mut board, Req::reset("pin3"), 4 * MS));
    assert!(!serve(&mut control, &mut board, Req::reset("pin2"), 4 * MS));
    assert_eq!((board.read(10), board.read(12), board.read(13)), (0, 0, 0));
    assert_eq!(control.pending_resets(), 3);
    assert_eq!(iterate(&mut control, &mut board, SECOND + 2 * MS), vec![10, 12]);
    assert_eq!(board.read(11), 0);
    assert_eq!((board.read(10), board.read(12), board.read(13)), (1, 1, 0));
    assert_eq!(iterate(&mut control, &mut board, SECOND + 3 * MS), vec![13]);
}

#[test]
fn iteration_toggles_then_releases() {
    let mut control = control_with_reset_lines(&["x", "y"]);
    assert_eq!(control.commit_reset(&Req::reset("x"), true, 0), Ok(()));
    assert_eq!(control.commit_reset(&Req::reset("y"), true, 50 * MS), Ok(()));
    let todo = control.begin_iteration(SECOND - 1);
    assert_eq!(todo.blink, 1);
    assert_eq!(todo.released, Vec::<i32>::new());
    let todo = control.begin_iteration(SECOND + 10 * MS);
    assert_eq!(todo.blink, 0);
    assert_eq!(todo.released, vec![100]);
    let todo = control.begin_iteration(SECOND + 110 * MS);
    assert_eq!(todo.blink, 1);
    assert_eq!(todo.released, vec![101]);
    assert_eq!(control.pending_resets(), 0);
}

#[test]
fn accepted_packet_stays_open_until_concluded() {
    let mut control = control_with_reset_lines(&["x"]);
    let mut packet = ReqPacket::new(Req::reset("x"));
    assert_eq!(control.accept(&mut packet), Ok(100));
    assert_eq!(packet.outcome(), None);
    assert_eq!(control.pending_resets(), 0);
    control.conclude(&mut packet, true, 20 * MS);
    assert_eq!(packet.outcome(), Some(true));
    assert_eq!(control.reset_expiry(100), Some(20 * MS + SECOND));
}

#[test]
fn rejected_packet_is_completed_as_failed() {
    let mut control = control_with_reset_lines(&["x"]);
    let mut unknown = ReqPacket::new(Req::reset("unknown"));
    assert_eq!(control.accept(&mut unknown), Err(ResetError::UnknownPin));
    assert_eq!(unknown.outcome(), Some(false));

    assert_eq!(control.commit_reset(&Req::reset("x"), true, 0), Ok(()));
    let mut again = ReqPacket::new(Req::reset("x"));
    assert_eq!(control.accept(&mut again), Err(ResetError::AlreadyResetting));
    assert_eq!(again.outcome(), Some(false));
    assert_eq!(control.reset_expiry(100), Some(SECOND));
}

#[test]
fn packet_of_failed_write_is_completed_as_failed() {
    let mut control = control_with_reset_lines(&["x"]);
    let mut packet = ReqPacket::new(Req::reset("x"));
    assert_eq!(control.accept(&mut packet), Ok(100));
    control.conclude(&mut packet, false, 20 * MS);
    assert_eq!(packet.outcome(), Some(false));
    assert_eq!(control.pending_resets(), 0);
}

#[test]
fn packet_that_finds_no_room_is_completed_as_failed() {
    let names = ["a", "b", "c", "d", "e", "f", "g", "h", "i"];
    let mut control = control_with_reset_lines(&names);
    for name in names.iter().take(8) {
        assert_eq!(control.commit_reset(&Req::reset(name), true, 0), Ok(()));
    }
    let mut packet = ReqPacket::new(Req::reset("i"));
    assert_eq!(control.accept(&mut packet), Ok(108));
    control.conclude(&mut packet, true, 0);
    assert_eq!(packet.outcome(), Some(false));
    assert_eq!(control.pending_resets(), 8);
}

use mpqtt::command::Command;
use mpqtt::engine::{Action, Engine, Event, Phase, Reply, State};
use mpqtt::publish::Message;
use mpqtt::schedule::Tier;
use mpqtt::settings::{InverterSettings, MqttDiscovery, MqttSettings, Settings};

fn settings(mode: &str, inverter_count: u8, inner_iterations: u64, debug: bool) -> Settings {
    Settings {
        debug,
        outer_delay: 5,
        inner_delay: 1,
        error_delay: 30,
        inverter_count,
        inner_iterations,
        inverter: InverterSettings { path: "/dev/hidraw0".to_string() },
        mqtt: MqttSettings {
            host: "localhost".to_string(),
            port: 1883,
            username: "user".to_string(),
            password: "secret".to_string(),
            client_id: "mpqtt".to_string(),
            topic: "solar".to_string(),
            discovery: MqttDiscovery {
                prefix: "homeassistant".to_string(),
                node_name: "node".to_string(),
                device_name: "inverter".to_string(),
                device_id: "inv1".to_string(),
            },
        },
        mode: mode.to_string(),
    }
}

fn record() -> Event {
    Event::Reply(Reply::Record(b"{\"ok\":true}".to_vec()))
}

fn failed(text: &str) -> Event {
    Event::Reply(Reply::Failed(text.to_string()))
}

/// What an action looks like from outside, without the payload.
fn label(action: &Action) -> String {
    match action {
        Action::Execute(command) => format!("execute {:?}", command),
        Action::Publish(message) => format!("publish {}", message.topic),
        Action::Sleep(seconds) => format!("sleep {}", seconds),
        Action::Halt => "halt".to_string(),
    }
}

/// The event that answers an action with success.
fn success(action: &Action) -> Event {
    match action {
        Action::Execute(_) => record(),
        Action::Publish(_) => Event::Delivery(true),
        Action::Sleep(_) => Event::Woke,
        Action::Halt => Event::Woke,
    }
}

/// Answers every request with success and collects the labels of the
/// requests, the pending one first.
fn run_smoothly(engine: &mut Engine, steps: usize) -> Vec<String> {
    let mut action = engine.pending();
    let mut seen = vec![label(&action)];
    for tick in 0..steps {
        action = engine.step(success(&action), tick as u128);
        seen.push(label(&action));
    }
    seen
}

/// An engine that has finished its startup and asks for the first request
/// of its first pass, which began at `now`.
fn started(settings: &Settings, now: u128) -> Engine {
    let mut engine = Engine::new(settings).unwrap();
    let mut action = engine.pending();
    for _ in 0..6 {
        action = engine.step(success(&action), now);
    }
    assert!(!matches!(engine.phase(), Phase::Query { tier: Tier::Init, .. }));
    assert!(!matches!(engine.phase(), Phase::Report { tier: Tier::Init, .. }));
    engine
}

fn published(action: &Action) -> Message {
    match action {
        Action::Publish(message) => message.clone(),
        other => panic!("no message in {:?}", other),
    }
}

#[test]
fn startup_queries_identity_protocol_and_firmware_in_order() {
    let mut engine = Engine::new(&settings("axpert", 1, 2, false)).unwrap();
    let seen = run_smoothly(&mut engine, 6);
    assert_eq!(
        seen,
        vec![
            "execute Qid",
            "publish solar/qid",
            "execute Qpi",
            "publish solar/qpi",
            "execute Qvfw",
            "publish solar/qvfw",
            "execute Qpigs",
        ]
    );
}

#[test]
fn record_is_published_unchanged_under_the_commands_name() {
    let mut engine = Engine::new(&settings("axpert", 1, 2, false)).unwrap();
    let action = engine.step(Event::Reply(Reply::Record(b"\"92931712100842\"".to_vec())), 0);
    assert_eq!(
        action,
        Action::Publish(Message {
            topic: "solar/qid".to_string(),
            payload: b"\"92931712100842\"".to_vec(),
        })
    );
}

#[test]
fn standard_pass_with_two_inner_iterations() {
    let mut engine = started(&settings("default", 1, 2, false), 0);
    let seen = run_smoothly(&mut engine, 15);
    assert_eq!(
        seen,
        vec![
            "execute Qpigs",
            "publish solar/qpigs",
            "publish solar/inner_stats",
            "sleep 1",
            "execute Qpigs",
            "publish solar/qpigs",
            "publish solar/inner_stats",
            "sleep 1",
            "execute Qmod",
            "publish solar/qmod",
            "execute Qpiws",
            "publish solar/qpiws",
            "execute Qpiri",
            "publish solar/qpiri",
            "publish solar/outer_stats",
            "sleep 5",
        ]
    );
    let clear = engine.step(Event::Woke, 100);
    assert_eq!(
        clear,
        Action::Publish(Message { topic: "solar/error".to_string(), payload: Vec::new() })
    );
    let again = run_smoothly(&mut engine, 5);
    assert_eq!(
        again,
        vec![
            "publish solar/error",
            "execute Qpigs",
            "publish solar/qpigs",
            "publish solar/inner_stats",
            "sleep 1",
            "execute Qpigs",
        ]
    );
}

#[test]
fn failure_on_second_inner_pass_restarts_from_the_first() {
    let mut engine = started(&settings("default", 1, 2, false), 0);
    let seen = run_smoothly(&mut engine, 4);
    assert_eq!(
        seen,
        vec![
            "execute Qpigs",
            "publish solar/qpigs",
            "publish solar/inner_stats",
            "sleep 1",
            "execute Qpigs",
        ]
    );
    assert_eq!(engine.round(), 1);
    let alarm = engine.step(failed("device timed out"), 50);
    assert_eq!(
        alarm,
        Action::Publish(Message {
            topic: "solar/error".to_string(),
            payload: b"device timed out".to_vec(),
        })
    );
    assert_eq!(engine.phase(), Phase::Alarm { fatal: false });
    assert_eq!(engine.step(Event::Delivery(true), 51), Action::Sleep(30));
    assert_eq!(engine.phase(), Phase::Backoff);
    assert_eq!(engine.step(Event::Woke, 60), Action::Execute(Command::Qpigs));
    assert_eq!(engine.round(), 0);
    assert_eq!(engine.phase(), Phase::Query { tier: Tier::Inner, slot: 0 });
    let seen = run_smoothly(&mut engine, 8);
    assert_eq!(seen[3], "sleep 1");
    assert_eq!(seen[7], "sleep 1");
    assert_eq!(seen[8], "execute Qmod");
}

#[test]
fn failure_in_outer_tier_abandons_the_pass() {
    let mut engine = started(&settings("axpert", 1, 1, false), 0);
    let seen = run_smoothly(&mut engine, 6);
    assert_eq!(seen[6], "execute Qpiws");
    let alarm = engine.step(Event::Reply(Reply::Unserializable("bad float".to_string())), 9);
    assert_eq!(published(&alarm).topic, "solar/error");
    assert_eq!(published(&alarm).payload, b"bad float".to_vec());
    assert_eq!(engine.step(Event::Delivery(true), 9), Action::Sleep(30));
    assert_eq!(engine.step(Event::Woke, 9), Action::Execute(Command::Qpigs));
    assert_eq!(engine.round(), 0);
}

#[test]
fn alternate_mode_polls_units_one_to_three() {
    let mut engine = started(&settings("alternate", 3, 1, false), 0);
    let seen = run_smoothly(&mut engine, 17);
    assert_eq!(
        seen,
        vec![
            "execute Qpgs(1)",
            "publish solar/qpgs1",
            "execute Qpgs(2)",
            "publish solar/qpgs2",
            "execute Qpgs(3)",
            "publish solar/qpgs3",
            "publish solar/inner_stats",
            "sleep 1",
            "execute Qmod",
            "publish solar/qmod",
            "execute Qpiws",
            "publish solar/qpiws",
            "execute QpiriReduced",
            "publish solar/qpiri",
            "publish solar/outer_stats",
            "sleep 5",
            "publish solar/error",
            "execute Qpgs(1)",
        ]
    );
}

#[test]
fn alternate_mode_with_debug_polls_unit_zero_too() {
    let mut engine = started(&settings("phocos", 2, 1, true), 0);
    let seen = run_smoothly(&mut engine, 7);
    assert_eq!(
        seen,
        vec![
            "execute Qpgs(0)",
            "publish solar/qpgs0",
            "execute Qpgs(1)",
            "publish solar/qpgs1",
            "execute Qpgs(2)",
            "publish solar/qpgs2",
            "publish solar/inner_stats",
            "sleep 1",
        ]
    );
}

#[test]
fn alternate_mode_polls_all_nine_units() {
    let mut engine = started(&settings("phocos", 9, 1, false), 0);
    let seen = run_smoothly(&mut engine, 18);
    for unit in 1..=9usize {
        assert_eq!(seen[2 * (unit - 1)], format!("execute Qpgs({})", unit));
        assert_eq!(seen[2 * (unit - 1) + 1], format!("publish solar/qpgs{}", unit));
    }
    assert_eq!(seen[18], "publish solar/inner_stats");
}

#[test]
fn alternate_mode_without_units_only_beats() {
    let mut engine = started(&settings("phocos", 0, 2, false), 10);
    let seen = run_smoothly(&mut engine, 4);
    assert_eq!(
        seen,
        vec![
            "publish solar/inner_stats",
            "sleep 1",
            "publish solar/inner_stats",
            "sleep 1",
            "execute Qmod",
        ]
    );
}

#[test]
fn standard_mode_never_polls_a_unit() {
    let mut engine = Engine::new(&settings("axpert", 9, 3, true)).unwrap();
    let seen = run_smoothly(&mut engine, 200);
    assert!(seen.iter().all(|entry| !entry.contains("Qpgs") && !entry.contains("qpgs")));
    assert!(seen.iter().any(|entry| entry == "execute Qpigs"));
}

#[test]
fn zero_inner_iterations_goes_straight_to_the_outer_tier() {
    let mut engine = started(&settings("axpert", 1, 0, false), 0);
    let seen = run_smoothly(&mut engine, 10);
    assert_eq!(
        seen,
        vec![
            "execute Qmod",
            "publish solar/qmod",
            "execute Qpiws",
            "publish solar/qpiws",
            "execute Qpiri",
            "publish solar/qpiri",
            "publish solar/outer_stats",
            "sleep 5",
            "publish solar/error",
            "execute Qmod",
            "publish solar/qmod",
        ]
    );
}

#[test]
fn inner_passes_are_counted_exactly() {
    for iterations in 0..6u64 {
        let mut engine = started(&settings("axpert", 1, iterations, false), 0);
        let seen = run_smoothly(&mut engine, 4 * iterations as usize);
        let beats = seen.iter().filter(|entry| *entry == "publish solar/inner_stats").count();
        assert_eq!(beats as u64, iterations);
        assert_eq!(seen.last().unwrap(), "execute Qmod");
        assert!(seen[..seen.len() - 1].iter().all(|entry| !entry.contains("Qmod")));
        assert_eq!(engine.round(), iterations);
    }
}

#[test]
fn error_channel_is_cleared_once_per_pass() {
    let mut engine = started(&settings("axpert", 1, 2, false), 0);
    let per_pass = 2 * 4 + 9;
    let seen = run_smoothly(&mut engine, 3 * per_pass - 1);
    let clears = seen.iter().filter(|entry| *entry == "publish solar/error").count();
    assert_eq!(clears, 3);
    for pass in 0..3 {
        assert_eq!(seen[pass * per_pass + per_pass - 1], "publish solar/error");
    }
}

#[test]
fn heartbeats_report_the_time_since_their_pass_began() {
    let mut engine = started(&settings("axpert", 1, 1, false), 1_000);
    assert_eq!(engine.step(record(), 1_010), Action::Publish(Message {
        topic: "solar/qpigs".to_string(),
        payload: b"{\"ok\":true}".to_vec(),
    }));
    let inner = engine.step(Event::Delivery(true), 1_250);
    assert_eq!(
        inner,
        Action::Publish(Message {
            topic: "solar/inner_stats".to_string(),
            payload: b"{\"update_duration\":250}".to_vec(),
        })
    );
    assert_eq!(engine.step(Event::Delivery(true), 1_260), Action::Sleep(1));
    assert_eq!(engine.step(Event::Woke, 2_260), Action::Execute(Command::Qmod));
    let mut action = Action::Execute(Command::Qmod);
    for _ in 0..5 {
        action = engine.step(success(&action), 2_300);
    }
    assert_eq!(label(&action), "publish solar/qpiri");
    let outer = engine.step(Event::Delivery(true), 2_345);
    assert_eq!(
        outer,
        Action::Publish(Message {
            topic: "solar/outer_stats".to_string(),
            payload: b"{\"update_duration\":1345}".to_vec(),
        })
    );
}

#[test]
fn second_inner_pass_is_timed_from_its_own_start() {
    let mut engine = started(&settings("axpert", 1, 2, false), 0);
    engine.step(record(), 5);
    engine.step(Event::Delivery(true), 40);
    engine.step(Event::Delivery(true), 41);
    engine.step(Event::Woke, 1_041);
    engine.step(record(), 1_050);
    let beat = engine.step(Event::Delivery(true), 1_063);
    assert_eq!(published(&beat).payload, b"{\"update_duration\":22}".to_vec());
}

#[test]
fn clock_that_runs_backwards_gives_zero() {
    let mut engine = started(&settings("axpert", 1, 1, false), 500);
    engine.step(record(), 400);
    let beat = engine.step(Event::Delivery(true), 300);
    assert_eq!(published(&beat).payload, b"{\"update_duration\":0}".to_vec());
}

#[test]
fn identity_failure_is_passed_over() {
    let mut engine = Engine::new(&settings("axpert", 1, 2, false)).unwrap();
    assert_eq!(engine.pending(), Action::Execute(Command::Qid));
    assert_eq!(engine.step(failed("NAK"), 0), Action::Execute(Command::Qpi));
    assert!(!engine.is_halted());
}

#[test]
fn identity_that_cannot_be_serialized_is_fatal() {
    let mut engine = Engine::new(&settings("axpert", 1, 2, false)).unwrap();
    let alarm = engine.step(Event::Reply(Reply::Unserializable("key must be a string".to_string())), 0);
    assert_eq!(published(&alarm).topic, "solar/error");
    assert_eq!(engine.phase(), Phase::Alarm { fatal: true });
    assert_eq!(engine.step(Event::Delivery(true), 0), Action::Halt);
}

#[test]
fn protocol_failure_is_fatal() {
    let mut engine = Engine::new(&settings("axpert", 1, 2, false)).unwrap();
    engine.step(failed("NAK"), 0);
    let alarm = engine.step(failed("no protocol"), 1);
    assert_eq!(
        alarm,
        Action::Publish(Message {
            topic: "solar/error".to_string(),
            payload: b"no protocol".to_vec(),
        })
    );
    assert_eq!(engine.step(Event::Delivery(true), 2), Action::Halt);
    assert!(engine.is_halted());
    assert_eq!(engine.step(Event::Woke, 3), Action::Halt);
    assert_eq!(engine.step(record(), 4), Action::Halt);
    assert_eq!(engine.step(Event::Delivery(true), 5), Action::Halt);
    assert_eq!(engine.pending(), Action::Halt);
}

#[test]
fn firmware_failure_is_fatal() {
    let mut engine = Engine::new(&settings("phocos", 1, 2, false)).unwrap();
    let mut action = engine.pending();
    for _ in 0..4 {
        action = engine.step(success(&action), 0);
    }
    assert_eq!(action, Action::Execute(Command::Qvfw));
    let alarm = engine.step(failed("crc"), 0);
    assert_eq!(published(&alarm).payload, b"crc".to_vec());
    for _ in 0..4 {
        assert_eq!(engine.step(Event::Delivery(false), 0), alarm);
    }
    assert_eq!(engine.step(Event::Delivery(false), 0), Action::Halt);
}

#[test]
fn publish_is_tried_five_times_and_then_dropped() {
    let mut engine = started(&settings("axpert", 1, 1, false), 0);
    let first = engine.step(record(), 1);
    assert_eq!(label(&first), "publish solar/qpigs");
    for _ in 0..4 {
        assert_eq!(engine.step(Event::Delivery(false), 2), first);
        assert_eq!(engine.phase(), Phase::Report { tier: Tier::Inner, slot: 0 });
    }
    let beat = engine.step(Event::Delivery(false), 3);
    assert_eq!(label(&beat), "publish solar/inner_stats");
    for _ in 0..4 {
        assert_eq!(engine.step(Event::Delivery(false), 4), beat);
    }
    assert_eq!(engine.step(Event::Delivery(false), 5), Action::Sleep(1));
}

#[test]
fn publish_that_succeeds_on_a_retry_goes_on() {
    let mut engine = started(&settings("axpert", 1, 1, false), 0);
    let first = engine.step(record(), 1);
    assert_eq!(engine.step(Event::Delivery(false), 2), first);
    assert_eq!(engine.step(Event::Delivery(false), 2), first);
    assert_eq!(label(&engine.step(Event::Delivery(true), 3)), "publish solar/inner_stats");
}

#[test]
fn error_report_is_dropped_after_five_attempts_and_backoff_follows() {
    let mut engine = started(&settings("axpert", 1, 1, false), 0);
    let alarm = engine.step(failed("boom"), 1);
    for _ in 0..4 {
        assert_eq!(engine.step(Event::Delivery(false), 2), alarm);
    }
    assert_eq!(engine.step(Event::Delivery(false), 2), Action::Sleep(30));
    assert_eq!(engine.step(Event::Woke, 3), Action::Execute(Command::Qpigs));
}

#[test]
fn clearing_is_dropped_after_five_attempts_and_the_next_pass_begins() {
    let mut engine = started(&settings("axpert", 1, 0, false), 0);
    let seen = run_smoothly(&mut engine, 8);
    assert_eq!(seen[8], "publish solar/error");
    for _ in 0..4 {
        assert_eq!(label(&engine.step(Event::Delivery(false), 9)), "publish solar/error");
    }
    assert_eq!(engine.step(Event::Delivery(false), 9), Action::Execute(Command::Qmod));
}

#[test]
fn event_that_answers_nothing_changes_nothing() {
    let mut engine = started(&settings("axpert", 1, 1, false), 0);
    let before = engine.clone();
    assert_eq!(engine.step(Event::Woke, 7), Action::Execute(Command::Qpigs));
    assert_eq!(engine.step(Event::Delivery(true), 8), Action::Execute(Command::Qpigs));
    assert_eq!(engine, before);
    let report = engine.step(record(), 9);
    let during = engine.clone();
    assert_eq!(engine.step(Event::Woke, 10), report);
    assert_eq!(engine.step(record(), 11), report);
    assert_eq!(engine, during);
    engine.step(Event::Delivery(true), 12);
    assert_eq!(engine.step(Event::Delivery(true), 13), Action::Sleep(1));
    let asleep = engine.clone();
    assert_eq!(engine.step(Event::Delivery(true), 14), Action::Sleep(1));
    assert_eq!(engine.step(record(), 15), Action::Sleep(1));
    assert_eq!(engine, asleep);
}

#[test]
fn fresh_pass_after_failure_equals_fresh_pass_after_success() {
    let chosen = settings("phocos", 2, 2, false);
    let mut failing = started(&chosen, 0);
    let seen = run_smoothly(&mut failing, 8);
    assert_eq!(seen[8], "execute Qpgs(2)");
    assert_eq!(failing.round(), 1);
    failing.step(failed("lost"), 70);
    failing.step(Event::Delivery(true), 71);
    failing.step(Event::Woke, 99);
    let mut passing = started(&chosen, 0);
    let mut action = passing.pending();
    for _ in 0..(2 * 6 + 9 - 1) {
        action = passing.step(success(&action), 80);
    }
    assert_eq!(label(&action), "publish solar/error");
    passing.step(Event::Delivery(true), 99);
    assert_eq!(failing, passing);
    assert_eq!(failing, started(&chosen, 99));
}

#[test]
fn unit_count_above_nine_is_refused() {
    assert!(Engine::new(&settings("phocos", 10, 1, false)).is_none());
    assert!(Engine::new(&settings("axpert", 255, 1, false)).is_none());
    assert!(Engine::new(&settings("phocos", 9, 1, true)).is_some());
    assert!(Engine::new(&settings("phocos", 0, 0, false)).is_some());
}

#[test]
fn engine_reports_its_schedule() {
    let engine = Engine::new(&settings("phocos", 4, 7, true)).unwrap();
    let schedule = engine.schedule();
    assert_eq!(schedule.inverter_count, 4);
    assert_eq!(schedule.inner_iterations, 7);
    assert_eq!(schedule.inner_delay, 1);
    assert_eq!(schedule.outer_delay, 5);
    assert_eq!(schedule.error_delay, 30);
    assert!(schedule.debug);
}

#[test]
fn largest_iteration_count_is_taken() {
    let mut engine = started(&settings("axpert", 1, u64::MAX, false), 0);
    let seen = run_smoothly(&mut engine, 40);
    assert!(seen.iter().all(|entry| !entry.contains("Qmod")));
    assert_eq!(engine.round(), 10);
}

#[test]
fn states_follow_the_cycle() {
    let mut engine = Engine::new(&settings("axpert", 1, 1, false)).unwrap();
    assert_eq!(engine.state(), State::Startup);
    let mut action = engine.pending();
    let mut seen = vec![engine.state()];
    for tick in 0..(6 + 4 + 9) {
        action = engine.step(success(&action), tick);
        if *seen.last().unwrap() != engine.state() {
            seen.push(engine.state());
        }
    }
    assert_eq!(
        seen,
        vec![State::Startup, State::InnerPass, State::OuterFinalize, State::InnerPass]
    );
    engine.step(failed("x"), 100);
    assert_eq!(engine.state(), State::ErrorBackoff);
    engine.step(Event::Delivery(true), 101);
    assert_eq!(engine.state(), State::ErrorBackoff);
    engine.step(Event::Woke, 102);
    assert_eq!(engine.state(), State::InnerPass);
}

#[test]
fn failed_startup_is_final() {
    let mut engine = Engine::new(&settings("axpert", 1, 1, false)).unwrap();
    engine.step(record(), 0);
    engine.step(Event::Delivery(true), 0);
    engine.step(failed("no protocol"), 0);
    assert_eq!(engine.state(), State::Failed);
    engine.step(Event::Delivery(true), 0);
    assert_eq!(engine.state(), State::Failed);
    assert_eq!(engine.phase(), Phase::Halted);
    let halted = engine.clone();
    for event in [Event::Woke, Event::Delivery(false), record(), failed("y")] {
        assert_eq!(engine.step(event, 9), Action::Halt);
        assert_eq!(engine, halted);
    }
}

#[test]
fn family_name_selects_the_alternate_mode_too() {
    let mut by_name = started(&settings("phocos", 3, 1, false), 0);
    let mut by_tag = started(&settings("alternate", 3, 1, false), 0);
    assert_eq!(run_smoothly(&mut by_name, 17), run_smoothly(&mut by_tag, 17));
    assert_eq!(by_name.pending(), Action::Execute(Command::Qpgs(1)));
}

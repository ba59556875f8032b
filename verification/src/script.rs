//! The script of an outer pass, and the laws by which the engine follows it.
//!
//! One outer pass is a fixed list of operations: `inner_iterations` times
//! the inner tier with its heartbeat and rest, then the outer tier with its
//! heartbeat and rest, then the clearing of the error channel. While no
//! command fails the engine walks this list from its first entry to its last
//! and starts over. When a command fails it leaves the list, reports the error,
//! rests, and starts over at the first entry.

use crate::command::Command;
use crate::engine::{
    elapsed, heartbeat_name, is_stats_payload, lemma_next_wf, state_of, Input, Machine, Order,
    Outcome, Phase, State,
};
use crate::publish::{channel, cleared_note, error_note, lemma_channel_injective};
use crate::schedule::{Schedule, Tier};
use crate::settings::Mode;
use crate::stats::{decoded_stats, lemma_stats_round_trip, Stats};
use vstd::prelude::*;

verus! {

/// One operation of a pass.
pub enum Op {
    /// Execute a command.
    Run(Command),
    /// Publish the record of a command under the command's name.
    Report(Command),
    /// Publish the heartbeat of a tier.
    Heartbeat(Tier),
    /// Sleep for so many seconds.
    Pause(u64),
    /// Publish the empty payload on the error channel.
    ClearError,
}

/// The operations of one run through a tier: each command and its report,
/// then the tier's heartbeat, then the rest.
pub open spec fn tier_script(schedule: Schedule, tier: Tier) -> Seq<Op> {
    let commands = schedule.tier(tier);
    Seq::new(
        2 * commands.len() + 2,
        |i: int|
            if i < 2 * commands.len() {
                if i % 2 == 0 {
                    Op::Run(commands[i / 2])
                } else {
                    Op::Report(commands[i / 2])
                }
            } else if i == 2 * commands.len() {
                Op::Heartbeat(tier)
            } else {
                Op::Pause(schedule.rest_after(tier))
            },
    )
}

/// A script, so many times over.
pub open spec fn repeated(script: Seq<Op>, times: nat) -> Seq<Op>
    decreases times,
{
    if times == 0 {
        Seq::empty()
    } else {
        repeated(script, (times - 1) as nat) + script
    }
}

/// The operations of one outer pass.
pub open spec fn pass_script(schedule: Schedule) -> Seq<Op> {
    repeated(tier_script(schedule, Tier::Inner), schedule.inner_iterations as nat) + tier_script(
        schedule,
        Tier::Outer,
    ).push(Op::ClearError)
}

/// The engine is within an outer pass.
pub open spec fn in_pass(machine: Machine) -> bool {
    match machine.phase {
        Phase::Query { tier, .. } => tier != Tier::Init,
        Phase::Report { tier, .. } => tier != Tier::Init,
        Phase::Beat { tier } => tier != Tier::Init,
        Phase::Rest { tier } => tier != Tier::Init,
        Phase::Clear => true,
        _ => false,
    }
}

/// The engine is getting over a failed command.
pub open spec fn recovering(machine: Machine) -> bool {
    machine.phase == (Phase::Alarm { fatal: false }) || machine.phase == Phase::Backoff
}

/// Where the script of a tier begins in the script of the pass, for an
/// engine that is in that tier.
pub open spec fn tier_start(machine: Machine, tier: Tier) -> int {
    let inner_len = tier_script(machine.schedule, Tier::Inner).len() as int;
    match tier {
        Tier::Inner => machine.round * inner_len,
        _ => machine.schedule.inner_iterations * inner_len,
    }
}

/// The place in the script of the pass that the engine has come to.
pub open spec fn place(machine: Machine) -> int {
    match machine.phase {
        Phase::Query { tier, slot } => tier_start(machine, tier) + 2 * slot,
        Phase::Report { tier, slot } => tier_start(machine, tier) + 2 * slot + 1,
        Phase::Beat { tier } => tier_start(machine, tier) + 2 * machine.schedule.tier(tier).len(),
        Phase::Rest { tier } => tier_start(machine, tier) + 2 * machine.schedule.tier(tier).len()
            + 1,
        Phase::Clear => tier_start(machine, Tier::Outer) + 8,
        _ => 0,
    }
}

/// The engine is asking for what the operation says.
pub open spec fn asks_for(machine: Machine, op: Op) -> bool {
    match op {
        Op::Run(command) => machine.pending() == Order::Execute(command),
        Op::Report(command) => machine.pending() matches Order::Publish(note) && note.topic
            == channel(machine.topic, command.short_name()),
        Op::Heartbeat(tier) => machine.pending() matches Order::Publish(note) && note.topic
            == channel(machine.topic, heartbeat_name(tier)) && is_stats_payload(note.payload),
        Op::Pause(seconds) => machine.pending() == Order::Sleep(seconds),
        Op::ClearError => machine.pending() == Order::Publish(cleared_note(machine.topic)),
    }
}

/// The event answers the engine's request, and with success.
pub open spec fn answers(machine: Machine, input: Input) -> bool {
    match (machine.phase, input) {
        (Phase::Query { .. }, Input::Reply(Outcome::Record(_))) => true,
        (Phase::Report { .. }, Input::Delivery(true)) => true,
        (Phase::Beat { .. }, Input::Delivery(true)) => true,
        (Phase::Clear, Input::Delivery(true)) => true,
        (Phase::Rest { .. }, Input::Woke) => true,
        _ => false,
    }
}

/// The engine at the start of an outer pass that begins at the given
/// reading of the clock.
pub open spec fn fresh_pass(schedule: Schedule, topic: Seq<char>, now: nat) -> Machine {
    Machine::boot(schedule, topic).begin_pass(now)
}

/// An event and the clock's reading that comes with it.
pub struct Tick {
    pub input: Input,
    pub now: nat,
}

/// The engine after the first `count` events of a sequence.
pub open spec fn run(machine: Machine, ticks: Seq<Tick>, count: nat) -> Machine
    decreases count,
{
    if count == 0 {
        machine
    } else {
        run(machine, ticks, (count - 1) as nat).next(ticks[count - 1].input, ticks[count - 1].now)
    }
}

/// Each of the first `count` events answers, with success, the request that
/// the engine made before it.
pub open spec fn smooth(machine: Machine, ticks: Seq<Tick>, count: nat) -> bool
    decreases count,
{
    count == 0 || (smooth(machine, ticks, (count - 1) as nat) && answers(
        run(machine, ticks, (count - 1) as nat),
        ticks[count - 1].input,
    ))
}

/// Before each of the first `count` events the engine was getting over a
/// failed command.
pub open spec fn recovering_before(machine: Machine, ticks: Seq<Tick>, count: nat) -> bool
    decreases count,
{
    count == 0 || (recovering_before(machine, ticks, (count - 1) as nat) && recovering(
        run(machine, ticks, (count - 1) as nat),
    ))
}

/// A script repeated is as long as its copies together.
pub proof fn lemma_repeated_len(script: Seq<Op>, times: nat)
    ensures
        repeated(script, times).len() == times * script.len(),
    decreases times,
{
    let len = script.len();
    if times > 0 {
        let fewer = (times - 1) as nat;
        lemma_repeated_len(script, fewer);
        assert(fewer * len + len == times * len) by (nonlinear_arith)
            requires
                fewer + 1 == times,
        ;
    } else {
        assert(times * len == 0) by (nonlinear_arith)
            requires
                times == 0,
        ;
    }
}

/// Each copy in a repeated script is the script.
pub proof fn lemma_repeated_at(script: Seq<Op>, times: nat, round: nat, offset: int)
    requires
        round < times,
        0 <= offset < script.len(),
    ensures
        0 <= round * script.len() + offset < times * script.len(),
        repeated(script, times)[round * script.len() + offset] == script[offset],
    decreases times,
{
    let len = script.len();
    let before = repeated(script, (times - 1) as nat);
    lemma_repeated_len(script, (times - 1) as nat);
    assert(round * len + offset < times * len && 0 <= round * len) by (nonlinear_arith)
        requires
            round < times,
            0 <= offset < len,
    ;
    if round < times - 1 {
        lemma_repeated_at(script, (times - 1) as nat, round, offset);
    } else {
        assert(round * len == (times - 1) * len);
    }
}

/// The script of a pass has one entry more than `inner_iterations` inner
/// scripts and the outer script have together: the clearing of the error
/// channel, which stands last.
pub proof fn lemma_pass_script_len(schedule: Schedule)
    ensures
        pass_script(schedule).len() == schedule.inner_iterations * tier_script(
            schedule,
            Tier::Inner,
        ).len() + 9,
        pass_script(schedule).last() == Op::ClearError,
{
    lemma_repeated_len(tier_script(schedule, Tier::Inner), schedule.inner_iterations as nat);
}

/// The script of a pass begins with the inner tier's script,
/// `inner_iterations` times over: at each place of each of these rounds
/// stands what the inner tier's script has there.
pub proof fn lemma_inner_rounds_in_script(schedule: Schedule, round: nat, offset: int)
    requires
        round < schedule.inner_iterations,
        0 <= offset < tier_script(schedule, Tier::Inner).len(),
    ensures
        0 <= round * tier_script(schedule, Tier::Inner).len() + offset
            < schedule.inner_iterations * tier_script(schedule, Tier::Inner).len(),
        pass_script(schedule)[round * tier_script(schedule, Tier::Inner).len() + offset]
            == tier_script(schedule, Tier::Inner)[offset],
{
    let inner = tier_script(schedule, Tier::Inner);
    lemma_repeated_len(inner, schedule.inner_iterations as nat);
    lemma_repeated_at(inner, schedule.inner_iterations as nat, round, offset);
}

/// After the last inner round the script of a pass goes on with the outer
/// tier's script: no operation of the outer tier stands before that place.
pub proof fn lemma_outer_tier_in_script(schedule: Schedule, offset: int)
    requires
        0 <= offset < 8,
    ensures
        pass_script(schedule)[schedule.inner_iterations * tier_script(
            schedule,
            Tier::Inner,
        ).len() + offset] == tier_script(schedule, Tier::Outer)[offset],
{
    lemma_repeated_len(tier_script(schedule, Tier::Inner), schedule.inner_iterations as nat);
}

/// Within a pass the engine asks for the operation at its place in the
/// script.
pub proof fn lemma_asks_for_script(machine: Machine)
    requires
        machine.wf(),
        in_pass(machine),
    ensures
        0 <= place(machine) < pass_script(machine.schedule).len(),
        asks_for(machine, pass_script(machine.schedule)[place(machine)]),
{
    let schedule = machine.schedule;
    let inner = tier_script(schedule, Tier::Inner);
    let times = schedule.inner_iterations as nat;
    lemma_pass_script_len(schedule);
    lemma_repeated_len(inner, times);
    let at = place(machine);
    if machine.round < times {
        let offset = at - machine.round * inner.len();
        lemma_repeated_at(inner, times, machine.round, offset);
        assert(pass_script(schedule)[at] == inner[offset]);
    } else {
        let offset = at - times * inner.len();
        assert(pass_script(schedule)[at] == tier_script(schedule, Tier::Outer).push(
            Op::ClearError,
        )[offset]);
    }
}

/// Every outer pass begins the same way, whatever went before: with no
/// inner pass counted and both heartbeats timed from the moment of the
/// start. The engine at the start of a pass is well formed and stands at the
/// first place of the script.
pub proof fn lemma_every_pass_starts_fresh(machine: Machine, now: nat)
    requires
        machine.schedule.wf(),
    ensures
        machine.begin_pass(now) == fresh_pass(machine.schedule, machine.topic, now),
        fresh_pass(machine.schedule, machine.topic, now).wf(),
        in_pass(fresh_pass(machine.schedule, machine.topic, now)),
        place(fresh_pass(machine.schedule, machine.topic, now)) == 0,
        fresh_pass(machine.schedule, machine.topic, now).round == 0,
{
    let len = tier_script(machine.schedule, Tier::Inner).len();
    assert(0 * len == 0);
}

/// An event that answers the engine's request with success moves the engine
/// one place on in the script, and from the last place to the start of a
/// fresh pass.
pub proof fn lemma_success_moves_on(machine: Machine, input: Input, now: nat)
    requires
        machine.wf(),
        in_pass(machine),
        answers(machine, input),
    ensures
        machine.next(input, now).wf(),
        in_pass(machine.next(input, now)),
        place(machine) + 1 < pass_script(machine.schedule).len() ==> place(
            machine.next(input, now),
        ) == place(machine) + 1,
        place(machine) + 1 == pass_script(machine.schedule).len() ==> machine.next(input, now)
            == fresh_pass(machine.schedule, machine.topic, now),
        place(fresh_pass(machine.schedule, machine.topic, now)) == 0,
{
    lemma_next_wf(machine, input, now);
    lemma_pass_script_len(machine.schedule);
    let len = tier_script(machine.schedule, Tier::Inner).len();
    let round = machine.round;
    let rounds = machine.schedule.inner_iterations as nat;
    assert((round + 1) * len == round * len + len) by (nonlinear_arith);
    assert(0 * len == 0);
    if round < rounds {
        assert((round + 1) * len <= rounds * len) by (nonlinear_arith)
            requires
                round + 1 <= rounds,
        ;
    }
}

/// A pass without failure runs by the script: after `count` events from the
/// start of a pass, each answering the request before it with success, the
/// engine stands at place `count` of the script and asks for the operation
/// that the script has there.
pub proof fn lemma_pass_follows_script(machine: Machine, ticks: Seq<Tick>, count: nat)
    requires
        machine.wf(),
        in_pass(machine),
        place(machine) == 0,
        count <= ticks.len(),
        smooth(machine, ticks, count),
        count < pass_script(machine.schedule).len(),
    ensures
        run(machine, ticks, count).wf(),
        run(machine, ticks, count).schedule == machine.schedule,
        run(machine, ticks, count).topic == machine.topic,
        in_pass(run(machine, ticks, count)),
        place(run(machine, ticks, count)) == count,
        asks_for(run(machine, ticks, count), pass_script(machine.schedule)[count as int]),
    decreases count,
{
    if count > 0 {
        let before = run(machine, ticks, (count - 1) as nat);
        lemma_pass_follows_script(machine, ticks, (count - 1) as nat);
        lemma_success_moves_on(before, ticks[count - 1].input, ticks[count - 1].now);
    }
    lemma_asks_for_script(run(machine, ticks, count));
}

/// When the last operation of a pass has been answered the engine is at the
/// start of a fresh pass: it keeps nothing of the pass that is over.
pub proof fn lemma_pass_starts_over(machine: Machine, ticks: Seq<Tick>)
    requires
        machine.wf(),
        in_pass(machine),
        place(machine) == 0,
        smooth(machine, ticks, ticks.len()),
        ticks.len() == pass_script(machine.schedule).len(),
    ensures
        run(machine, ticks, ticks.len()) == fresh_pass(
            machine.schedule,
            machine.topic,
            ticks.last().now,
        ),
{
    lemma_pass_script_len(machine.schedule);
    let before = run(machine, ticks, (ticks.len() - 1) as nat);
    lemma_pass_follows_script(machine, ticks, (ticks.len() - 1) as nat);
    lemma_success_moves_on(before, ticks.last().input, ticks.last().now);
}

/// The error channel is cleared at one place of a pass only: the last.
pub proof fn lemma_clears_once_per_pass(schedule: Schedule, at: int)
    requires
        0 <= at < pass_script(schedule).len(),
    ensures
        pass_script(schedule)[at] == Op::ClearError <==> at == pass_script(schedule).len() - 1,
{
    let inner = tier_script(schedule, Tier::Inner);
    let times = schedule.inner_iterations as nat;
    lemma_pass_script_len(schedule);
    lemma_repeated_len(inner, times);
    let len = inner.len() as int;
    if at < times * len {
        let round = at / len;
        let offset = at % len;
        assert(at == round * len + offset && 0 <= offset < len && 0 <= round < times)
            by (nonlinear_arith)
            requires
                0 <= at < times * len,
                len > 0,
                round == at / len,
                offset == at % len,
        ;
        lemma_repeated_at(inner, times, round as nat, offset);
    }
}

/// A command that fails within a pass ends the pass at once: the engine
/// asks for no further command, it reports the error on the error channel.
pub proof fn lemma_failure_abandons_pass(machine: Machine, input: Input, now: nat)
    requires
        machine.wf(),
        in_pass(machine),
        machine.phase is Query,
        input matches Input::Reply(outcome) && !(outcome is Record),
    ensures
        recovering(machine.next(input, now)),
        input matches Input::Reply(Outcome::Failed(error)) ==> machine.next(input, now).pending()
            == Order::Publish(error_note(machine.topic, error)),
        input matches Input::Reply(Outcome::Unserializable(error)) ==> machine.next(
            input,
            now,
        ).pending() == Order::Publish(error_note(machine.topic, error)),
{
}

/// While the engine gets over a failed command it asks for no command: it
/// asks to publish the error, or to sleep for `error_delay` seconds.
pub proof fn lemma_recovery_asks_for_no_command(machine: Machine)
    requires
        machine.wf(),
        recovering(machine),
    ensures
        !(machine.pending() is Execute),
        machine.phase is Alarm ==> (machine.pending() matches Order::Publish(note) && note.topic
            == channel(machine.topic, "error"@)),
        machine.phase is Backoff ==> machine.pending() == Order::Sleep(
            machine.schedule.error_delay,
        ),
{
}

/// An event takes an engine that gets over a failed command to one of two
/// ends. Either the engine goes on getting over it: it asks to publish the
/// same error or to sleep for `error_delay` seconds, and its count of inner
/// passes stays as it was. Or the event is the end of the backoff: then the
/// engine is at the start of a fresh pass, with no inner pass counted as
/// done.
pub proof fn lemma_recovery_restarts_pass(machine: Machine, input: Input, now: nat)
    requires
        machine.wf(),
        recovering(machine),
    ensures
        ({
            let next = machine.next(input, now);
            ||| {
                &&& recovering(next)
                &&& next.round == machine.round
                &&& next.pending() == Order::Publish(machine.parcel.note) || next.pending()
                    == Order::Sleep(machine.schedule.error_delay)
            }
            ||| {
                &&& machine.phase == Phase::Backoff
                &&& input == Input::Woke
                &&& next == fresh_pass(machine.schedule, machine.topic, now)
                &&& next.round == 0
                &&& place(next) == 0
                &&& in_pass(next)
            }
        }),
{
    let len = tier_script(machine.schedule, Tier::Inner).len();
    assert(0 * len == 0);
}

/// Events only ever move the engine forward through a pass, one place at a
/// time: an event leaves the engine at its place (a publish that is tried
/// again, an event that answers nothing), moves it one place on, takes it
/// from the last place to a fresh pass, or, if it is the failure of a
/// command, takes it out of the pass.
pub proof fn lemma_pass_keeps_order(machine: Machine, input: Input, now: nat)
    requires
        machine.wf(),
        in_pass(machine),
    ensures
        ({
            let next = machine.next(input, now);
            ||| in_pass(next) && place(next) == place(machine) && next.round == machine.round
            ||| in_pass(next) && place(next) == place(machine) + 1
            ||| place(machine) + 1 == pass_script(machine.schedule).len() && next == fresh_pass(
                machine.schedule,
                machine.topic,
                now,
            )
            ||| {
                &&& recovering(next)
                &&& machine.phase is Query
                &&& input matches Input::Reply(outcome) && !(outcome is Record)
            }
        }),
{
    lemma_pass_script_len(machine.schedule);
    let len = tier_script(machine.schedule, Tier::Inner).len();
    let round = machine.round;
    let rounds = machine.schedule.inner_iterations as nat;
    assert((round + 1) * len == round * len + len) by (nonlinear_arith);
    if round < rounds {
        assert((round + 1) * len <= rounds * len) by (nonlinear_arith)
            requires
                round + 1 <= rounds,
        ;
    }
}

/// After a failed command, whatever events follow, there is one way back
/// into a pass: through its start. After `count` events either the engine
/// was getting over the failure before each of them and still is, or one of
/// them took the engine, which had been getting over the failure until then,
/// to the start of a fresh pass.
pub proof fn lemma_failure_leads_to_fresh_pass(machine: Machine, ticks: Seq<Tick>, count: nat)
    requires
        machine.wf(),
        recovering(machine),
        count <= ticks.len(),
    ensures
        recovering_before(machine, ticks, count + 1) || exists|restart: nat|
            {
                &&& 0 < restart <= count
                &&& recovering_before(machine, ticks, restart)
                &&& #[trigger] run(machine, ticks, restart) == fresh_pass(
                    machine.schedule,
                    machine.topic,
                    ticks[restart - 1].now,
                )
            },
    decreases count,
{
    if count == 0 {
        assert(recovering_before(machine, ticks, 0));
        assert(run(machine, ticks, 0) == machine);
        assert(recovering_before(machine, ticks, 1));
    } else {
        let fewer = (count - 1) as nat;
        lemma_failure_leads_to_fresh_pass(machine, ticks, fewer);
        if recovering_before(machine, ticks, count) {
            let before = run(machine, ticks, fewer);
            let after = run(machine, ticks, count);
            lemma_run_wf(machine, ticks, fewer);
            lemma_recovery_restarts_pass(before, ticks[count - 1].input, ticks[count - 1].now);
            assert(recovering(before));
            assert(after == before.next(ticks[count - 1].input, ticks[count - 1].now));
            if recovering(after) {
                assert(recovering_before(machine, ticks, count + 1));
            } else {
                assert(after == fresh_pass(machine.schedule, machine.topic, ticks[count - 1].now));
            }
        } else {
            assert(fewer + 1 == count);
            let restart = choose|restart: nat|
                {
                    &&& 0 < restart <= fewer
                    &&& recovering_before(machine, ticks, restart)
                    &&& #[trigger] run(machine, ticks, restart) == fresh_pass(
                        machine.schedule,
                        machine.topic,
                        ticks[restart - 1].now,
                    )
                };
            assert(run(machine, ticks, restart) == fresh_pass(
                machine.schedule,
                machine.topic,
                ticks[restart - 1].now,
            ));
        }
    }
}

/// A run keeps the engine well formed, with its schedule and its topic.
pub proof fn lemma_run_wf(machine: Machine, ticks: Seq<Tick>, count: nat)
    requires
        machine.wf(),
    ensures
        run(machine, ticks, count).wf(),
        run(machine, ticks, count).schedule == machine.schedule,
        run(machine, ticks, count).topic == machine.topic,
    decreases count,
{
    if count > 0 {
        lemma_run_wf(machine, ticks, (count - 1) as nat);
        lemma_next_wf(
            run(machine, ticks, (count - 1) as nat),
            ticks[count - 1].input,
            ticks[count - 1].now,
        );
    }
}

/// The states follow one another as the cycle says: startup leads into the
/// first pass or fails; the inner passes lead into the outer tier, the outer
/// tier into the next pass; a failed command leads from either into the
/// backoff and from there into a fresh pass; a failed startup is final. The
/// outer tier is entered only when all inner passes are done.
pub proof fn lemma_state_transitions(machine: Machine, input: Input, now: nat)
    requires
        machine.wf(),
    ensures
        ({
            let from = state_of(machine.phase);
            let to = state_of(machine.next(input, now).phase);
            let rounds = machine.schedule.inner_iterations;
            match from {
                State::Startup => to is Startup || to is Failed || (to is InnerPass && rounds > 0)
                    || (to is OuterFinalize && rounds == 0),
                State::InnerPass => to is InnerPass || to is ErrorBackoff || (to is OuterFinalize
                    && machine.round + 1 == rounds),
                State::OuterFinalize => to is OuterFinalize || to is ErrorBackoff || (to
                    is InnerPass && rounds > 0),
                State::ErrorBackoff => to is ErrorBackoff || (to is InnerPass && rounds > 0) || (to
                    is OuterFinalize && rounds == 0),
                State::Failed => to is Failed,
            }
        }),
        state_of(machine.next(input, now).phase) is OuterFinalize ==> machine.next(input, now).round
            == machine.schedule.inner_iterations,
{
    lemma_next_wf(machine, input, now);
}

/// Within a pass the engine publishes on the error channel only to clear
/// it: no record and no heartbeat goes there.
pub proof fn lemma_error_channel_within_pass(machine: Machine)
    requires
        machine.wf(),
        in_pass(machine),
    ensures
        (machine.pending() matches Order::Publish(note) && note.topic == channel(
            machine.topic,
            "error"@,
        )) <==> machine.phase is Clear,
        machine.phase is Clear ==> machine.pending() == Order::Publish(cleared_note(machine.topic)),
{
    reveal_strlit("error");
    reveal_strlit("inner_stats");
    reveal_strlit("outer_stats");
    reveal_strlit("qmod");
    reveal_strlit("qpiws");
    reveal_strlit("qpiri");
    reveal_strlit("qpigs");
    reveal_strlit("qpgs");
    match machine.phase {
        Phase::Report { tier, slot } => {
            let name = machine.schedule.tier(tier)[slot as int].short_name();
            assert(name.len() != 5 || name[0] == 'q');
            if machine.parcel.note.topic == channel(machine.topic, "error"@) {
                lemma_channel_injective(machine.topic, name, "error"@);
            }
        },
        Phase::Beat { tier } => {
            if machine.parcel.note.topic == channel(machine.topic, "error"@) {
                lemma_channel_injective(machine.topic, heartbeat_name(tier), "error"@);
            }
        },
        _ => {},
    }
}

/// The heartbeat that the engine publishes at the end of a tier reads back
/// as the time since the tier's pass began.
pub proof fn lemma_heartbeat_reads_back(machine: Machine, tier: Tier, now: nat)
    requires
        now <= u128::MAX,
    ensures
        machine.heartbeat(tier, now).pending() matches Order::Publish(note) && decoded_stats(
            note.payload,
        ) == Some(Stats { update_duration: elapsed(machine.started(tier), now) as u128 }),
{
    lemma_stats_round_trip(Stats { update_duration: elapsed(machine.started(tier), now) as u128 });
}

/// The command that the engine is busy with: the one it has asked the
/// device, or the one whose record it is publishing.
pub open spec fn command_in_hand(machine: Machine) -> Option<Command> {
    match machine.phase {
        Phase::Query { tier, slot } => Some(machine.schedule.tier(tier)[slot as int]),
        Phase::Report { tier, slot } => Some(machine.schedule.tier(tier)[slot as int]),
        _ => None,
    }
}

/// Whatever the engine asks the device, and whatever record it publishes,
/// the mode allows: in the standard mode never a per-unit query; in the
/// alternate mode never the aggregate status query nor the full rating
/// information, and a per-unit query only for a unit from the first to
/// `inverter_count`, where unit 0 is the first only when debugging.
pub proof fn lemma_queries_fit_mode(machine: Machine)
    requires
        machine.wf(),
    ensures
        machine.pending() matches Order::Execute(command) ==> command_in_hand(machine) == Some(
            command,
        ),
        machine.phase is Report ==> (machine.pending() matches Order::Publish(note) && note.topic
            == channel(machine.topic, command_in_hand(machine)->0.short_name())),
        command_in_hand(machine) matches Some(command) ==> command.wf() && match machine.schedule.mode {
            Mode::Standard => !command.is_per_unit() && command != Command::QpiriReduced,
            Mode::Alternate => {
                &&& command != Command::Qpigs
                &&& command != Command::Qpiri
                &&& command matches Command::Qpgs(unit) ==> {
                    &&& machine.schedule.first_unit() <= unit <= machine.schedule.inverter_count
                    &&& unit == 0 ==> machine.schedule.debug
                }
            },
        },
{
}

} // verus!

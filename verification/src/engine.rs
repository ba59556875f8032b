//! The polling engine: a state machine that turns the outcome of its last
//! request into its next request.
//!
//! The engine asks for one thing at a time: to execute a command on the
//! device, to publish a message, to sleep, or to halt. Whoever drives it carries the
//! request out and hands back what came of it, together with the reading of
//! a monotonic clock in milliseconds. An event that does not answer the
//! pending request changes nothing: the engine asks again.

use crate::clock::Stopwatch;
use crate::command::Command;
use crate::publish::{
    channel, clear_error, cleared_note, error_note, publish_error, publish_update, update_note,
    Delivery, Message, Note, Parcel,
};
use crate::schedule::{init_tier, Schedule, Tier};
use crate::settings::Settings;
use crate::stats::{stats_payload, Stats};
use vstd::prelude::*;

verus! {

/// What came of executing a command.
#[derive(Debug, Clone, PartialEq, Eq)]
pub enum Reply {
    /// The device answered; these are the bytes of the serialized record.
    Record(Vec<u8>),
    /// The command failed on the way to the device or back; this is the
    /// error's text.
    Failed(String),
    /// The device answered, but the record could not be serialized; this is
    /// the error's text.
    Unserializable(String),
}

/// What the driver reports back to the engine.
#[derive(Debug, Clone, PartialEq, Eq)]
pub enum Event {
    /// The command that was asked for has been executed.
    Reply(Reply),
    /// The attempt to publish has ended, with or without success.
    Delivery(bool),
    /// The sleep is over.
    Woke,
}

/// What the engine asks its driver to do next.
#[derive(Debug, Clone, PartialEq, Eq)]
pub enum Action {
    /// Execute this command on the device.
    Execute(Command),
    /// Hand this message to the broker, once.
    Publish(Message),
    /// Pause for this many seconds.
    Sleep(u64),
    /// Stop: initialization has failed for good.
    Halt,
}

/// Where the engine is in its cycle.
#[derive(Debug, Clone, Copy, PartialEq, Eq, Structural)]
pub enum Phase {
    /// Waiting for the reply to the command at this place of a tier.
    Query { tier: Tier, slot: u8 },
    /// Publishing the record of the command at this place of a tier.
    Report { tier: Tier, slot: u8 },
    /// Publishing the heartbeat that closes a tier.
    Beat { tier: Tier },
    /// Sleeping after the heartbeat of a tier.
    Rest { tier: Tier },
    /// Publishing the empty payload that clears the error channel.
    Clear,
    /// Publishing an error; a fatal one ends in a halt.
    Alarm { fatal: bool },
    /// Sleeping after an error, before a fresh pass.
    Backoff,
    /// Initialization has failed: nothing more is asked for.
    Halted,
}

/// The engine's cycle at a glance.
#[derive(Debug, Clone, Copy, PartialEq, Eq, Structural)]
pub enum State {
    /// The startup queries.
    Startup,
    /// The inner tier: status queries, heartbeat, rest.
    InnerPass,
    /// The outer tier, its heartbeat and rest, and the clearing of the
    /// error channel.
    OuterFinalize,
    /// The report of a failed command and the rest that follows it.
    ErrorBackoff,
    /// Startup has failed: the error is reported, then nothing more happens.
    Failed,
}

/// The state that a phase belongs to.
pub open spec fn state_of(phase: Phase) -> State {
    match phase {
        Phase::Query { tier, .. } => tier_state(tier),
        Phase::Report { tier, .. } => tier_state(tier),
        Phase::Beat { tier } => tier_state(tier),
        Phase::Rest { tier } => tier_state(tier),
        Phase::Clear => State::OuterFinalize,
        Phase::Alarm { fatal } => if fatal {
            State::Failed
        } else {
            State::ErrorBackoff
        },
        Phase::Backoff => State::ErrorBackoff,
        Phase::Halted => State::Failed,
    }
}

/// The state in which a tier runs.
pub open spec fn tier_state(tier: Tier) -> State {
    match tier {
        Tier::Init => State::Startup,
        Tier::Inner => State::InnerPass,
        Tier::Outer => State::OuterFinalize,
    }
}

/// The model of [`Reply`].
pub enum Outcome {
    Record(Seq<u8>),
    Failed(Seq<char>),
    Unserializable(Seq<char>),
}

/// The model of [`Event`].
pub enum Input {
    Reply(Outcome),
    Delivery(bool),
    Woke,
}

/// The model of [`Action`].
pub enum Order {
    Execute(Command),
    Publish(Note),
    Sleep(u64),
    Halt,
}

impl View for Reply {
    type V = Outcome;

    open spec fn view(&self) -> Outcome {
        match self {
            Reply::Record(value) => Outcome::Record(value@),
            Reply::Failed(text) => Outcome::Failed(text@),
            Reply::Unserializable(text) => Outcome::Unserializable(text@),
        }
    }
}

impl View for Event {
    type V = Input;

    open spec fn view(&self) -> Input {
        match self {
            Event::Reply(reply) => Input::Reply(reply@),
            Event::Delivery(delivered) => Input::Delivery(*delivered),
            Event::Woke => Input::Woke,
        }
    }
}

impl View for Action {
    type V = Order;

    open spec fn view(&self) -> Order {
        match self {
            Action::Execute(command) => Order::Execute(*command),
            Action::Publish(message) => Order::Publish(message@),
            Action::Sleep(seconds) => Order::Sleep(*seconds),
            Action::Halt => Order::Halt,
        }
    }
}

/// The milliseconds from one reading of the clock to a later one.
pub open spec fn elapsed(since: nat, now: nat) -> nat {
    if now >= since {
        (now - since) as nat
    } else {
        0
    }
}

/// The channel of the heartbeat that closes a tier.
pub open spec fn heartbeat_name(tier: Tier) -> Seq<char> {
    match tier {
        Tier::Inner => "inner_stats"@,
        _ => "outer_stats"@,
    }
}

/// The payload is that of some heartbeat.
pub open spec fn is_stats_payload(payload: Seq<u8>) -> bool {
    exists|duration: nat| payload == stats_payload(duration)
}

/// The model of the engine.
pub struct Machine {
    pub schedule: Schedule,
    /// The prefix of every channel's name.
    pub topic: Seq<char>,
    pub phase: Phase,
    /// The inner passes completed in the current outer pass.
    pub round: nat,
    /// The message that is being published, if one is.
    pub parcel: Parcel,
    /// The clock's reading when the current outer pass began.
    pub pass_started: nat,
    /// The clock's reading when the current inner pass began.
    pub round_started: nat,
}

impl Machine {
    /// The engine before anything has happened: it asks for the first
    /// startup query.
    pub open spec fn boot(schedule: Schedule, topic: Seq<char>) -> Machine {
        Machine {
            schedule,
            topic,
            phase: Phase::Query { tier: Tier::Init, slot: 0 },
            round: 0,
            parcel: Parcel::idle(),
            pass_started: 0,
            round_started: 0,
        }
    }

    /// The rounds of the pass that a tier belongs to have been counted
    /// right: the inner tier runs while rounds are left, the outer tier
    /// when none is.
    pub open spec fn round_fits(self, tier: Tier) -> bool {
        match tier {
            Tier::Init => true,
            Tier::Inner => self.round < self.schedule.inner_iterations,
            Tier::Outer => self.round == self.schedule.inner_iterations,
        }
    }

    /// The engine is in a state that it can come to: its place exists in
    /// the tier it is in, the inner passes are counted right, and the message
    /// in hand, if the phase has one, is on the channel that the phase
    /// publishes on.
    pub open spec fn wf(self) -> bool {
        &&& self.schedule.wf()
        &&& self.round <= self.schedule.inner_iterations
        &&& match self.phase {
            Phase::Query { tier, slot } => {
                &&& slot < self.schedule.tier(tier).len()
                &&& self.round_fits(tier)
                &&& self.parcel == Parcel::idle()
            },
            Phase::Report { tier, slot } => {
                &&& slot < self.schedule.tier(tier).len()
                &&& self.round_fits(tier)
                &&& self.parcel.live()
                &&& self.parcel.note.topic == channel(
                    self.topic,
                    self.schedule.tier(tier)[slot as int].short_name(),
                )
            },
            Phase::Beat { tier } => {
                &&& tier != Tier::Init
                &&& self.round_fits(tier)
                &&& self.parcel.live()
                &&& self.parcel.note.topic == channel(self.topic, heartbeat_name(tier))
                &&& is_stats_payload(self.parcel.note.payload)
            },
            Phase::Rest { tier } => {
                &&& tier != Tier::Init
                &&& self.round_fits(tier)
                &&& self.parcel == Parcel::idle()
            },
            Phase::Clear => {
                &&& self.round_fits(Tier::Outer)
                &&& self.parcel.live()
                &&& self.parcel.note == cleared_note(self.topic)
            },
            Phase::Alarm { fatal } => {
                &&& self.parcel.live()
                &&& self.parcel.note.topic == channel(self.topic, "error"@)
            },
            Phase::Backoff => self.parcel == Parcel::idle(),
            Phase::Halted => self.parcel == Parcel::idle(),
        }
    }

    /// What the engine is asking for.
    pub open spec fn pending(self) -> Order {
        match self.phase {
            Phase::Query { tier, slot } => Order::Execute(self.schedule.tier(tier)[slot as int]),
            Phase::Report { .. } => Order::Publish(self.parcel.note),
            Phase::Beat { .. } => Order::Publish(self.parcel.note),
            Phase::Clear => Order::Publish(self.parcel.note),
            Phase::Alarm { .. } => Order::Publish(self.parcel.note),
            Phase::Rest { tier } => Order::Sleep(self.schedule.rest_after(tier)),
            Phase::Backoff => Order::Sleep(self.schedule.error_delay),
            Phase::Halted => Order::Halt,
        }
    }

    /// Asks for the command at a place of a tier.
    pub open spec fn querying(self, tier: Tier, slot: nat) -> Machine {
        Machine { phase: Phase::Query { tier, slot: slot as u8 }, parcel: Parcel::idle(), ..self }
    }

    /// Starts to publish a message.
    pub open spec fn sending(self, phase: Phase, note: Note) -> Machine {
        Machine { phase, parcel: Parcel::first(note), ..self }
    }

    /// Goes on without a message in hand.
    pub open spec fn resting(self, phase: Phase) -> Machine {
        Machine { phase, parcel: Parcel::idle(), ..self }
    }

    /// The clock's reading from which the heartbeat of a tier counts.
    pub open spec fn started(self, tier: Tier) -> nat {
        match tier {
            Tier::Inner => self.round_started,
            _ => self.pass_started,
        }
    }

    /// Publishes the heartbeat of a tier: the time since the tier's pass
    /// began.
    pub open spec fn heartbeat(self, tier: Tier, now: nat) -> Machine {
        self.sending(
            Phase::Beat { tier },
            update_note(
                self.topic,
                heartbeat_name(tier),
                stats_payload(elapsed(self.started(tier), now)),
            ),
        )
    }

    /// Comes to a place of the inner or the outer tier: the query there, or
    /// the heartbeat once the tier is through.
    pub open spec fn enter(self, tier: Tier, slot: nat, now: nat) -> Machine {
        if slot < self.schedule.tier(tier).len() {
            self.querying(tier, slot)
        } else {
            self.heartbeat(tier, now)
        }
    }

    /// Takes up the next inner pass if one is left, else the outer tier.
    pub open spec fn poll(self, now: nat) -> Machine {
        if self.round < self.schedule.inner_iterations {
            self.enter(Tier::Inner, 0, now)
        } else {
            self.enter(Tier::Outer, 0, now)
        }
    }

    /// Starts an outer pass from scratch.
    pub open spec fn begin_pass(self, now: nat) -> Machine {
        Machine { round: 0, pass_started: now, round_started: now, ..self }.poll(now)
    }

    /// Counts an inner pass as done and goes on.
    pub open spec fn next_round(self, now: nat) -> Machine {
        Machine { round: self.round + 1, round_started: now, ..self }.poll(now)
    }

    /// Leaves the command at a place of a tier behind.
    pub open spec fn proceed(self, tier: Tier, slot: nat, now: nat) -> Machine {
        match tier {
            Tier::Init => if slot + 1 < init_tier().len() {
                self.querying(Tier::Init, slot + 1)
            } else {
                self.begin_pass(now)
            },
            _ => self.enter(tier, slot + 1, now),
        }
    }

    /// Publishes an error. One that strikes during startup is fatal.
    pub open spec fn alarm(self, tier: Tier, error: Seq<char>) -> Machine {
        self.sending(Phase::Alarm { fatal: tier == Tier::Init }, error_note(self.topic, error))
    }

    /// The engine after the reply to the command at a place of a tier. A
    /// record is published under the command's name. A failure of the
    /// identity query, the first at startup, is passed over; every other
    /// failure raises the alarm.
    pub open spec fn replied(self, tier: Tier, slot: u8, outcome: Outcome, now: nat) -> Machine {
        match outcome {
            Outcome::Record(value) => self.sending(
                Phase::Report { tier, slot },
                update_note(self.topic, self.schedule.tier(tier)[slot as int].short_name(), value),
            ),
            Outcome::Failed(error) => if tier == Tier::Init && slot == 0 {
                self.proceed(tier, slot as nat, now)
            } else {
                self.alarm(tier, error)
            },
            Outcome::Unserializable(error) => self.alarm(tier, error),
        }
    }

    /// The engine after an attempt to publish has ended: it tries again
    /// while the delivery allows it, and else goes on as `then` says,
    /// whether the message arrived or not.
    pub open spec fn delivered(self, delivered: bool, then: Machine) -> Machine {
        if self.parcel.retries(delivered) {
            Machine { parcel: self.parcel.settled(delivered), ..self }
        } else {
            then
        }
    }

    /// The engine after an event, given the clock's reading.
    pub open spec fn next(self, input: Input, now: nat) -> Machine {
        match (self.phase, input) {
            (Phase::Query { tier, slot }, Input::Reply(outcome)) => self.replied(
                tier,
                slot,
                outcome,
                now,
            ),
            (Phase::Report { tier, slot }, Input::Delivery(delivered)) => self.delivered(
                delivered,
                self.proceed(tier, slot as nat, now),
            ),
            (Phase::Beat { tier }, Input::Delivery(delivered)) => self.delivered(
                delivered,
                self.resting(Phase::Rest { tier }),
            ),
            (Phase::Rest { tier }, Input::Woke) => match tier {
                Tier::Inner => self.next_round(now),
                _ => self.sending(Phase::Clear, cleared_note(self.topic)),
            },
            (Phase::Clear, Input::Delivery(delivered)) => self.delivered(
                delivered,
                self.begin_pass(now),
            ),
            (Phase::Alarm { fatal }, Input::Delivery(delivered)) => self.delivered(
                delivered,
                self.resting(
                    if fatal {
                        Phase::Halted
                    } else {
                        Phase::Backoff
                    },
                ),
            ),
            (Phase::Backoff, Input::Woke) => self.begin_pass(now),
            _ => self,
        }
    }
}

/// Every step keeps the engine well formed.
pub proof fn lemma_next_wf(machine: Machine, input: Input, now: nat)
    requires
        machine.wf(),
    ensures
        machine.next(input, now).wf(),
        machine.next(input, now).schedule == machine.schedule,
        machine.next(input, now).topic == machine.topic,
{
}

fn tier_to_state(tier: Tier) -> (state: State)
    ensures
        state == tier_state(tier),
{
    match tier {
        Tier::Init => State::Startup,
        Tier::Inner => State::InnerPass,
        Tier::Outer => State::OuterFinalize,
    }
}

/// The polling engine.
#[derive(Debug, Clone, PartialEq, Eq)]
pub struct Engine {
    schedule: Schedule,
    topic: String,
    phase: Phase,
    round: u64,
    delivery: Delivery,
    pass_started: u128,
    round_started: u128,
}

impl View for Engine {
    type V = Machine;

    closed spec fn view(&self) -> Machine {
        Machine {
            schedule: self.schedule,
            topic: self.topic@,
            phase: self.phase,
            round: self.round as nat,
            parcel: self.delivery@,
            pass_started: self.pass_started as nat,
            round_started: self.round_started as nat,
        }
    }
}

impl Engine {
    /// An engine for the given settings, about to ask for the first startup
    /// query. Settings whose unit count no per-unit query can address are
    /// refused.
    pub fn new(settings: &Settings) -> (engine: Option<Engine>)
        ensures
            settings.valid() <==> engine is Some,
            engine matches Some(e) ==> e@ == Machine::boot(
                Schedule::of(*settings),
                settings.mqtt.topic@,
            ) && e@.wf(),
    {
        match Schedule::from_settings(settings) {
            Some(schedule) => Some(
                Engine {
                    schedule,
                    topic: settings.mqtt.topic.clone(),
                    phase: Phase::Query { tier: Tier::Init, slot: 0 },
                    round: 0,
                    delivery: Delivery::idle(),
                    pass_started: 0,
                    round_started: 0,
                },
            ),
            None => None,
        }
    }

    /// The schedule that the engine follows.
    pub fn schedule(&self) -> (schedule: Schedule)
        ensures
            schedule == self@.schedule,
    {
        self.schedule
    }

    /// Where the engine is in its cycle.
    pub fn phase(&self) -> (phase: Phase)
        ensures
            phase == self@.phase,
    {
        self.phase
    }

    /// The inner passes completed in the current outer pass.
    pub fn round(&self) -> (round: u64)
        ensures
            round == self@.round,
    {
        self.round
    }

    /// The engine's cycle at a glance.
    pub fn state(&self) -> (state: State)
        ensures
            state == state_of(self@.phase),
    {
        match self.phase {
            Phase::Query { tier, .. } => tier_to_state(tier),
            Phase::Report { tier, .. } => tier_to_state(tier),
            Phase::Beat { tier } => tier_to_state(tier),
            Phase::Rest { tier } => tier_to_state(tier),
            Phase::Clear => State::OuterFinalize,
            Phase::Alarm { fatal } => if fatal {
                State::Failed
            } else {
                State::ErrorBackoff
            },
            Phase::Backoff => State::ErrorBackoff,
            Phase::Halted => State::Failed,
        }
    }

    /// Whether initialization has failed for good.
    pub fn is_halted(&self) -> (halted: bool)
        ensures
            halted == (self@.phase is Halted),
    {
        match self.phase {
            Phase::Halted => true,
            _ => false,
        }
    }

    /// What the engine is asking for.
    pub fn pending(&self) -> (action: Action)
        requires
            self@.wf(),
        ensures
            action@ == self@.pending(),
    {
        match self.phase {
            Phase::Query { tier, slot } => Action::Execute(self.schedule.command_at(tier, slot)),
            Phase::Report { .. } => Action::Publish(self.delivery.message().duplicate()),
            Phase::Beat { .. } => Action::Publish(self.delivery.message().duplicate()),
            Phase::Clear => Action::Publish(self.delivery.message().duplicate()),
            Phase::Alarm { .. } => Action::Publish(self.delivery.message().duplicate()),
            Phase::Rest { tier } => Action::Sleep(
                match tier {
                    Tier::Inner => self.schedule.inner_delay,
                    _ => self.schedule.outer_delay,
                },
            ),
            Phase::Backoff => Action::Sleep(self.schedule.error_delay),
            Phase::Halted => Action::Halt,
        }
    }

    /// Takes in what came of the pending request, with the reading of a
    /// monotonic clock in milliseconds, and says what to do next.
    pub fn step(&mut self, event: Event, now: u128) -> (action: Action)
        requires
            old(self)@.wf(),
        ensures
            final(self)@ == old(self)@.next(event@, now as nat),
            final(self)@.wf(),
            action@ == final(self)@.pending(),
    {
        proof {
            lemma_next_wf(self@, event@, now as nat);
        }
        self.apply(event, now);
        self.pending()
    }

    /// Takes in what came of the pending request, reads the clock, and says
    /// what to do next: a [`step`](Engine::step) at the reading that the
    /// clock gives, which is no earlier than its reading before.
    pub fn advance(&mut self, event: Event, clock: &mut Stopwatch) -> (action: Action)
        requires
            old(self)@.wf(),
        ensures
            old(clock)@ <= final(clock)@,
            final(self)@ == old(self)@.next(event@, final(clock)@),
            final(self)@.wf(),
            action@ == final(self)@.pending(),
    {
        let now = clock.millis();
        self.step(event, now)
    }

    fn apply(&mut self, event: Event, now: u128)
        requires
            old(self)@.wf(),
        ensures
            final(self)@ == old(self)@.next(event@, now as nat),
    {
        match self.phase {
            Phase::Query { tier, slot } => match event {
                Event::Reply(reply) => self.replied(tier, slot, reply, now),
                _ => {},
            },
            Phase::Report { tier, slot } => match event {
                Event::Delivery(delivered) => {
                    if !self.delivery.settle(delivered) {
                        self.proceed(tier, slot, now);
                    }
                },
                _ => {},
            },
            Phase::Beat { tier } => match event {
                Event::Delivery(delivered) => {
                    if !self.delivery.settle(delivered) {
                        self.rest(Phase::Rest { tier });
                    }
                },
                _ => {},
            },
            Phase::Rest { tier } => match event {
                Event::Woke => match tier {
                    Tier::Inner => self.next_round(now),
                    _ => {
                        self.delivery = clear_error(self.topic.as_str());
                        self.phase = Phase::Clear;
                    },
                },
                _ => {},
            },
            Phase::Clear => match event {
                Event::Delivery(delivered) => {
                    if !self.delivery.settle(delivered) {
                        self.begin_pass(now);
                    }
                },
                _ => {},
            },
            Phase::Alarm { fatal } => match event {
                Event::Delivery(delivered) => {
                    if !self.delivery.settle(delivered) {
                        if fatal {
                            self.rest(Phase::Halted);
                        } else {
                            self.rest(Phase::Backoff);
                        }
                    }
                },
                _ => {},
            },
            Phase::Backoff => match event {
                Event::Woke => self.begin_pass(now),
                _ => {},
            },
            Phase::Halted => {},
        }
    }

    fn replied(&mut self, tier: Tier, slot: u8, reply: Reply, now: u128)
        requires
            old(self)@.wf(),
            old(self)@.phase == (Phase::Query { tier, slot }),
        ensures
            final(self)@ == old(self)@.replied(tier, slot, reply@, now as nat),
    {
        match reply {
            Reply::Record(value) => {
                let command = self.schedule.command_at(tier, slot);
                self.delivery = publish_update(self.topic.as_str(), command.suffix(), value);
                self.phase = Phase::Report { tier, slot };
            },
            Reply::Failed(error) => {
                if tier == Tier::Init && slot == 0 {
                    self.proceed(tier, slot, now);
                } else {
                    self.alarm(tier, error);
                }
            },
            Reply::Unserializable(error) => self.alarm(tier, error),
        }
    }

    fn alarm(&mut self, tier: Tier, error: String)
        ensures
            final(self)@ == old(self)@.alarm(tier, error@),
    {
        self.delivery = publish_error(self.topic.as_str(), error.as_str());
        self.phase = Phase::Alarm { fatal: tier == Tier::Init };
    }

    fn rest(&mut self, phase: Phase)
        ensures
            final(self)@ == old(self)@.resting(phase),
    {
        self.delivery = Delivery::idle();
        self.phase = phase;
    }

    fn proceed(&mut self, tier: Tier, slot: u8, now: u128)
        requires
            old(self)@.schedule.wf(),
            slot < old(self)@.schedule.tier(tier).len(),
        ensures
            final(self)@ == old(self)@.proceed(tier, slot as nat, now as nat),
    {
        match tier {
            Tier::Init => if slot + 1 < 3 {
                self.rest(Phase::Query { tier: Tier::Init, slot: slot + 1 });
            } else {
                self.begin_pass(now);
            },
            _ => self.enter(tier, slot + 1, now),
        }
    }

    fn enter(&mut self, tier: Tier, slot: u8, now: u128)
        requires
            old(self)@.schedule.wf(),
            tier != Tier::Init,
        ensures
            final(self)@ == old(self)@.enter(tier, slot as nat, now as nat),
    {
        if slot < self.schedule.tier_len(tier) {
            self.rest(Phase::Query { tier, slot });
        } else {
            let since = match tier {
                Tier::Inner => self.round_started,
                _ => self.pass_started,
            };
            let name = match tier {
                Tier::Inner => "inner_stats",
                _ => "outer_stats",
            };
            let stats = Stats { update_duration: if now >= since { now - since } else { 0 } };
            self.delivery = publish_update(self.topic.as_str(), name, stats.to_payload());
            self.phase = Phase::Beat { tier };
        }
    }

    fn poll(&mut self, now: u128)
        requires
            old(self)@.schedule.wf(),
        ensures
            final(self)@ == old(self)@.poll(now as nat),
    {
        if self.round < self.schedule.inner_iterations {
            self.enter(Tier::Inner, 0, now);
        } else {
            self.enter(Tier::Outer, 0, now);
        }
    }

    fn begin_pass(&mut self, now: u128)
        requires
            old(self)@.schedule.wf(),
        ensures
            final(self)@ == old(self)@.begin_pass(now as nat),
    {
        self.round = 0;
        self.pass_started = now;
        self.round_started = now;
        self.poll(now);
    }

    fn next_round(&mut self, now: u128)
        requires
            old(self)@.schedule.wf(),
            old(self)@.round < old(self)@.schedule.inner_iterations,
        ensures
            final(self)@ == old(self)@.next_round(now as nat),
    {
        self.round = self.round + 1;
        self.round_started = now;
        self.poll(now);
    }
}

} // verus!

//! Which commands run in which tier, and how long the engine rests.

use crate::command::Command;
use crate::settings::{Mode, Settings, MAX_UNIT};
use vstd::prelude::*;

verus! {

/// A group of commands that the engine runs in one go.
#[derive(Debug, Clone, Copy, PartialEq, Eq, Structural)]
pub enum Tier {
    /// The one-shot queries at startup.
    Init,
    /// The fast status queries, repeated within each outer pass.
    Inner,
    /// The slow queries that close an outer pass.
    Outer,
}

/// What the engine needs of the settings: the command selection and the
/// pacing. Delays are in seconds.
#[derive(Debug, Clone, Copy, PartialEq, Eq, Structural)]
pub struct Schedule {
    pub mode: Mode,
    pub debug: bool,
    pub inverter_count: u8,
    pub inner_iterations: u64,
    pub inner_delay: u64,
    pub outer_delay: u64,
    pub error_delay: u64,
}

/// The startup queries, in their order.
pub open spec fn init_tier() -> Seq<Command> {
    seq![Command::Qid, Command::Qpi, Command::Qvfw]
}

impl Schedule {
    pub open spec fn wf(self) -> bool {
        self.inverter_count <= MAX_UNIT
    }

    /// The schedule that the settings describe.
    pub open spec fn of(settings: Settings) -> Schedule {
        Schedule {
            mode: settings.selected_mode(),
            debug: settings.debug,
            inverter_count: settings.inverter_count,
            inner_iterations: settings.inner_iterations,
            inner_delay: settings.inner_delay,
            outer_delay: settings.outer_delay,
            error_delay: settings.error_delay,
        }
    }

    /// The first unit that is polled: unit 0 only when debugging.
    pub open spec fn first_unit(self) -> int {
        if self.debug {
            0
        } else {
            1
        }
    }

    /// The status queries of one inner pass: in the alternate mode one query
    /// per unit from the first unit to `inverter_count`, else the single
    /// aggregate query.
    pub open spec fn inner_tier(self) -> Seq<Command> {
        match self.mode {
            Mode::Standard => seq![Command::Qpigs],
            Mode::Alternate => Seq::new(
                (self.inverter_count + 1 - self.first_unit()) as nat,
                |i: int| Command::Qpgs((self.first_unit() + i) as u8),
            ),
        }
    }

    /// The rating-information query that the mode selects.
    pub open spec fn rating_query(self) -> Command {
        match self.mode {
            Mode::Standard => Command::Qpiri,
            Mode::Alternate => Command::QpiriReduced,
        }
    }

    /// The queries that close an outer pass.
    pub open spec fn outer_tier(self) -> Seq<Command> {
        seq![Command::Qmod, Command::Qpiws, self.rating_query()]
    }

    pub open spec fn tier(self, tier: Tier) -> Seq<Command> {
        match tier {
            Tier::Init => init_tier(),
            Tier::Inner => self.inner_tier(),
            Tier::Outer => self.outer_tier(),
        }
    }

    /// The seconds of rest after the heartbeat of a tier.
    pub open spec fn rest_after(self, tier: Tier) -> u64 {
        match tier {
            Tier::Inner => self.inner_delay,
            _ => self.outer_delay,
        }
    }

    /// Reads the schedule off the settings, or refuses settings whose unit
    /// count no per-unit query can address.
    pub fn from_settings(settings: &Settings) -> (schedule: Option<Schedule>)
        ensures
            settings.valid() ==> schedule == Some(Schedule::of(*settings)),
            !settings.valid() ==> schedule is None,
    {
        if settings.is_valid() {
            Some(
                Schedule {
                    mode: settings.device_mode(),
                    debug: settings.debug,
                    inverter_count: settings.inverter_count,
                    inner_iterations: settings.inner_iterations,
                    inner_delay: settings.inner_delay,
                    outer_delay: settings.outer_delay,
                    error_delay: settings.error_delay,
                },
            )
        } else {
            None
        }
    }

    /// The number of commands in a tier.
    pub fn tier_len(&self, tier: Tier) -> (len: u8)
        requires
            self.wf(),
        ensures
            len == self.tier(tier).len(),
            len <= 10,
    {
        match tier {
            Tier::Init => 3,
            Tier::Outer => 3,
            Tier::Inner => match self.mode {
                Mode::Standard => 1,
                Mode::Alternate => if self.debug {
                    self.inverter_count + 1
                } else {
                    self.inverter_count
                },
            },
        }
    }

    /// The command at a place in a tier.
    pub fn command_at(&self, tier: Tier, slot: u8) -> (command: Command)
        requires
            self.wf(),
            slot < self.tier(tier).len(),
        ensures
            command == self.tier(tier)[slot as int],
            command.wf(),
    {
        match tier {
            Tier::Init => if slot == 0 {
                Command::Qid
            } else if slot == 1 {
                Command::Qpi
            } else {
                Command::Qvfw
            },
            Tier::Outer => if slot == 0 {
                Command::Qmod
            } else if slot == 1 {
                Command::Qpiws
            } else {
                match self.mode {
                    Mode::Standard => Command::Qpiri,
                    Mode::Alternate => Command::QpiriReduced,
                }
            },
            Tier::Inner => match self.mode {
                Mode::Standard => Command::Qpigs,
                Mode::Alternate => if self.debug {
                    Command::Qpgs(slot)
                } else {
                    Command::Qpgs(slot + 1)
                },
            },
        }
    }

    /// The commands of a tier, in the order in which they run.
    pub fn commands(&self, tier: Tier) -> (list: Vec<Command>)
        requires
            self.wf(),
        ensures
            list@ == self.tier(tier),
    {
        let len = self.tier_len(tier);
        let mut list: Vec<Command> = Vec::new();
        let mut slot: u8 = 0;
        while slot < len
            invariant
                self.wf(),
                len == self.tier(tier).len(),
                slot <= len,
                list@ == self.tier(tier).take(slot as int),
            decreases len - slot,
        {
            let command = self.command_at(tier, slot);
            list.push(command);
            slot = slot + 1;
            assert(list@ =~= self.tier(tier).take(slot as int));
        }
        assert(self.tier(tier).take(len as int) =~= self.tier(tier));
        list
    }

    /// The status queries of one inner pass.
    pub fn inner_commands(&self) -> (list: Vec<Command>)
        requires
            self.wf(),
        ensures
            list@ == self.inner_tier(),
    {
        self.commands(Tier::Inner)
    }

    /// The queries that close an outer pass.
    pub fn outer_commands(&self) -> (list: Vec<Command>)
        requires
            self.wf(),
        ensures
            list@ == self.outer_tier(),
    {
        self.commands(Tier::Outer)
    }
}

/// In the alternate mode the inner pass queries exactly the units from 1 to
/// `inverter_count`, and unit 0 as well when debugging, in rising order; it
/// never uses the aggregate query.
pub proof fn lemma_alternate_polls_each_unit(schedule: Schedule)
    requires
        schedule.wf(),
        schedule.mode == Mode::Alternate,
    ensures
        forall|unit: u8|
            schedule.inner_tier().contains(Command::Qpgs(unit)) <==> (schedule.first_unit() <= unit
                <= schedule.inverter_count),
        schedule.inner_tier().contains(Command::Qpgs(0)) <==> schedule.debug,
        forall|i: int|
            0 <= i < schedule.inner_tier().len() ==> schedule.inner_tier()[i] == Command::Qpgs(
                (schedule.first_unit() + i) as u8,
            ),
        forall|i: int|
            0 <= i < schedule.inner_tier().len() ==> (#[trigger] schedule.inner_tier()[i]).is_per_unit(),
        schedule.inner_tier().len() == schedule.inverter_count + 1 - schedule.first_unit(),
{
    let tier = schedule.inner_tier();
    assert forall|unit: u8|
        tier.contains(Command::Qpgs(unit)) <==> (schedule.first_unit() <= unit
            <= schedule.inverter_count) by {
        if schedule.first_unit() <= unit <= schedule.inverter_count {
            assert(tier[unit - schedule.first_unit()] == Command::Qpgs(unit));
        }
    }
}

/// In the standard mode the inner pass is the single aggregate status query,
/// and no tier holds a per-unit query.
pub proof fn lemma_standard_polls_aggregate_only(schedule: Schedule, tier: Tier)
    requires
        schedule.mode == Mode::Standard,
    ensures
        schedule.inner_tier() == seq![Command::Qpigs],
        forall|i: int|
            0 <= i < schedule.tier(tier).len() ==> !(#[trigger] schedule.tier(tier)[i]).is_per_unit(),
{
}

} // verus!

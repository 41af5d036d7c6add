//! Repeating countdown timers that pace the timed spawns.
use vstd::prelude::*;

verus! {

/// Period of the enemy spawn timer: five seconds.
pub const ENEMY_SPAWN_PERIOD_MICROS: u64 = 5_000_000;

/// Period of the star spawn timer: one second.
pub const STAR_SPAWN_PERIOD_MICROS: u64 = 1_000_000;

/// Relies on bevy's `Timer::tick` in repeating mode (bevy_time 0.10): on an
/// unpaused timer whose elapsed time lies below its period, a tick by `delta`
/// adds `delta`; when the sum reaches the period the tick counts as finished
/// and the elapsed time becomes the sum minus the whole periods it holds.
/// `period_micros > 0` keeps bevy's division by the period defined.
#[verifier::external_body]
fn repeating_tick(period_micros: u64, elapsed_micros: u64, delta_micros: u32) -> (r: (u64, bool))
    requires
        period_micros > 0,
        elapsed_micros < period_micros,
    ensures
        r.0 == (elapsed_micros + delta_micros) % (period_micros as int),
        r.1 == (elapsed_micros + delta_micros >= period_micros),
{
    let mut timer = bevy::time::Timer::new(
        std::time::Duration::from_micros(period_micros),
        bevy::time::TimerMode::Repeating,
    );
    timer.set_elapsed(std::time::Duration::from_micros(elapsed_micros));
    timer.tick(std::time::Duration::from_micros(delta_micros as u64));
    (timer.elapsed().as_micros() as u64, timer.just_finished())
}

/// A repeating countdown: fires once on each tick that crosses the end of a
/// period, and carries the excess over into the next period.
#[derive(Clone, Copy, Debug, PartialEq, Eq, Structural)]
pub struct RepeatingTimer {
    pub period_micros: u64,
    pub elapsed_micros: u64,
    pub just_finished: bool,
}

impl RepeatingTimer {
    pub open spec fn wf(&self) -> bool {
        0 < self.elapsed_micros + 1 <= self.period_micros
    }

    /// The timer after a tick of `delta` microseconds.
    pub open spec fn ticked(&self, delta: int) -> RepeatingTimer {
        RepeatingTimer {
            period_micros: self.period_micros,
            elapsed_micros: ((self.elapsed_micros + delta) % (self.period_micros as int)) as u64,
            just_finished: self.elapsed_micros + delta >= self.period_micros,
        }
    }

    /// A timer at the start of its first period.
    pub fn new(period_micros: u64) -> (t: RepeatingTimer)
        requires
            period_micros > 0,
        ensures
            t.wf(),
            t.period_micros == period_micros,
            t.elapsed_micros == 0,
            !t.just_finished,
    {
        RepeatingTimer { period_micros, elapsed_micros: 0, just_finished: false }
    }

    /// Advances the timer by `delta_micros`.
    pub fn tick(&mut self, delta_micros: u32)
        requires
            old(self).wf(),
        ensures
            final(self).wf(),
            *final(self) == old(self).ticked(delta_micros as int),
    {
        let (elapsed, fired) = repeating_tick(self.period_micros, self.elapsed_micros, delta_micros);
        self.elapsed_micros = elapsed;
        self.just_finished = fired;
    }
}

/// The timer that paces timed enemy spawns.
#[derive(Clone, Copy, Debug, PartialEq, Eq, Structural)]
pub struct EnemyTimer {
    pub timer: RepeatingTimer,
}

impl Default for EnemyTimer {
    fn default() -> (t: EnemyTimer)
        ensures
            t.timer.wf(),
            t.timer.period_micros == ENEMY_SPAWN_PERIOD_MICROS,
            t.timer.elapsed_micros == 0,
            !t.timer.just_finished,
    {
        EnemyTimer { timer: RepeatingTimer::new(ENEMY_SPAWN_PERIOD_MICROS) }
    }
}

/// The timer that paces timed star spawns.
#[derive(Clone, Copy, Debug, PartialEq, Eq, Structural)]
pub struct StarTimer {
    pub timer: RepeatingTimer,
}

impl Default for StarTimer {
    fn default() -> (t: StarTimer)
        ensures
            t.timer.wf(),
            t.timer.period_micros == STAR_SPAWN_PERIOD_MICROS,
            t.timer.elapsed_micros == 0,
            !t.timer.just_finished,
    {
        StarTimer { timer: RepeatingTimer::new(STAR_SPAWN_PERIOD_MICROS) }
    }
}

/// Advances the enemy spawn timer by the frame's elapsed time.
pub fn enemy_timer_tick(enemy_timer: &mut EnemyTimer, delta_micros: u32)
    requires
        old(enemy_timer).timer.wf(),
    ensures
        final(enemy_timer).timer.wf(),
        final(enemy_timer).timer == old(enemy_timer).timer.ticked(delta_micros as int),
{
    enemy_timer.timer.tick(delta_micros);
}

/// Advances the star spawn timer by the frame's elapsed time.
pub fn star_timer_tick(star_timer: &mut StarTimer, delta_micros: u32)
    requires
        old(star_timer).timer.wf(),
    ensures
        final(star_timer).timer.wf(),
        final(star_timer).timer == old(star_timer).timer.ticked(delta_micros as int),
{
    star_timer.timer.tick(delta_micros);
}

} // verus!

//! Dispatcher of the `control-secure` channel.
//!
//! The dispatcher decides and carries nothing out. It turns a received command
//! into an [`Effect`], which the caller applies.

use crate::agent::config::SecurityConfig;
use crate::clock;
use crate::encode;
use crate::proto::control::{self, ControlCommand, CursorMode, QualityPreset, RejectReason};
use std::collections::VecDeque;
use vstd::prelude::*;

verus! {

/// Window of the rate limit, in nanoseconds.
pub const RATE_WINDOW: u128 = 10_000_000_000;

/// Commands tolerated within the window: ample for normal use, and low enough
/// that a compromised client cannot hammer the agent.
pub const RATE_LIMIT: usize = 40;

/// Pixels of the surface that the presets refer to.
pub const REFERENCE_PIXELS: u64 = 2_073_600;

/// What the caller has to do once the command is allowed.
#[derive(Debug, Clone, Copy, PartialEq, Eq, Structural)]
pub enum Effect {
    /// Ask the pipeline for a key frame.
    Keyframe,
    /// Change the target bitrate.
    Bitrate(u32),
    /// Change the pointing mode.
    CursorMode(CursorMode),
    /// Send telemetry.
    SendStats,
    /// Record the answer to a latency probe.
    Pong(u32),
    /// Lock the session.
    Lock,
    /// Go to sleep.
    Sleep,
    /// Restart.
    Reboot,
    /// Turn off.
    Shutdown,
}

/// Turns commands into effects, under the constraints of the configuration.
#[derive(Debug)]
pub struct Dispatcher {
    security: SecurityConfig,
    width: u32,
    height: u32,
    recent: VecDeque<u128>,
    epoch: std::time::Instant,
}

/// A dispatcher as a mathematical value.
#[verifier::ext_equal]
pub struct DispatcherModel {
    /// Safeguards in force.
    pub security: SecurityConfig,
    /// Width of the desktop, in pixels.
    pub width: u32,
    /// Height of the desktop, in pixels.
    pub height: u32,
    /// When the commands still within the window were received, oldest first.
    pub recent: Seq<u128>,
}

impl View for Dispatcher {
    type V = DispatcherModel;

    closed spec fn view(&self) -> DispatcherModel {
        DispatcherModel {
            security: self.security,
            width: self.width,
            height: self.height,
            recent: self.recent@,
        }
    }
}

/// The pixels that a bitrate is scaled by. A surface without pixels counts as one.
pub open spec fn counted_pixels(width: u32, height: u32) -> int {
    if width * height == 0 {
        1
    } else {
        width * height
    }
}

/// Whether what a command asks for can be computed on a surface: the bitrate of a
/// preset is scaled within 64 bits. Every preset is on every surface up to 600 000 by
/// 600 000 pixels.
pub open spec fn computable(command: ControlCommand, width: u32, height: u32) -> bool {
    command matches ControlCommand::SetQuality { preset } ==> control::bitrate_1080p(preset)
        * counted_pixels(width, height) <= u64::MAX
}

/// The bitrate of a preset, scaled to the real surface and kept within
/// 0.5 to 100 Mbit/s.
pub open spec fn scaled_bitrate(preset: QualityPreset, width: u32, height: u32) -> u32 {
    let scaled = control::bitrate_1080p(preset) * counted_pixels(width, height) / (
    REFERENCE_PIXELS as int);
    if scaled < 500_000 {
        500_000
    } else if scaled > 100_000_000 {
        100_000_000
    } else {
        scaled as u32
    }
}

/// The effect of an allowed command.
pub open spec fn effect_of(command: ControlCommand, width: u32, height: u32) -> Effect {
    match command {
        ControlCommand::Lock => Effect::Lock,
        ControlCommand::Sleep => Effect::Sleep,
        ControlCommand::Reboot => Effect::Reboot,
        ControlCommand::Shutdown => Effect::Shutdown,
        ControlCommand::RequestKeyframe => Effect::Keyframe,
        ControlCommand::SetQuality { preset } => Effect::Bitrate(
            scaled_bitrate(preset, width, height),
        ),
        ControlCommand::SetCursorMode { mode } => Effect::CursorMode(mode),
        ControlCommand::RequestStats => Effect::SendStats,
        ControlCommand::Pong { seq } => Effect::Pong(seq),
    }
}

/// What is left of `recent` once the oldest commands have left the window.
pub open spec fn within_window(recent: Seq<u128>, now: u128) -> Seq<u128>
    decreases recent.len(),
{
    if recent.len() > 0 && clock::elapsed(recent[0], now) >= RATE_WINDOW {
        within_window(recent.drop_first(), now)
    } else {
        recent
    }
}

/// What becomes of `recent` when a command is received at `now`, and whether the
/// command gets through the rate limit.
pub open spec fn rate_step(recent: Seq<u128>, now: u128) -> (Seq<u128>, bool) {
    let live = within_window(recent, now);
    if live.len() >= RATE_LIMIT {
        (live, false)
    } else {
        (live.push(now), true)
    }
}

/// What a dispatcher answers to a command received at `now`. The rate limit comes
/// before the permissions.
pub open spec fn answer(d: DispatcherModel, command: ControlCommand, now: u128) -> Result<
    Effect,
    RejectReason,
> {
    if !rate_step(d.recent, now).1 {
        Err(RejectReason::RateLimited)
    } else if control::power_action(command) && !d.security.allow_power_actions {
        Err(RejectReason::NotPermitted)
    } else {
        Ok(effect_of(command, d.width, d.height))
    }
}

/// What a dispatcher becomes once a command was received at `now`.
pub open spec fn after(d: DispatcherModel, now: u128) -> DispatcherModel {
    DispatcherModel { recent: rate_step(d.recent, now).0, ..d }
}

impl Dispatcher {
    /// Whether the window holds no more than the limit.
    pub open spec fn wf(&self) -> bool {
        self@.recent.len() <= RATE_LIMIT
    }

    /// Whether what a command asks for can be computed on this desktop.
    pub fn can_compute(&self, command: ControlCommand) -> (b: bool)
        ensures
            b == computable(command, self@.width, self@.height),
    {
        match command {
            ControlCommand::SetQuality { preset } => {
                proof {
                    let w = self.width as int;
                    let h = self.height as int;
                    assert(0 <= w * h <= 0xFFFF_FFFF * 0xFFFF_FFFF) by (nonlinear_arith)
                        requires
                            0 <= w <= 0xFFFF_FFFF,
                            0 <= h <= 0xFFFF_FFFF,
                    ;
                }
                let surface: u128 = self.width as u128 * self.height as u128;
                let pixels: u128 = if surface == 0 {
                    1
                } else {
                    surface
                };
                let target: u128 = preset.target_bitrate_1080p() as u128;
                proof {
                    let t = target as int;
                    let p = pixels as int;
                    assert(0 <= t * p <= 0xFFFF_FFFF * (0xFFFF_FFFF * 0xFFFF_FFFF))
                        by (nonlinear_arith)
                        requires
                            0 <= t <= 0xFFFF_FFFF,
                            0 <= p <= 0xFFFF_FFFF * 0xFFFF_FFFF,
                    ;
                }
                target * pixels <= u64::MAX as u128
            },
            _ => true,
        }
    }

    /// A dispatcher for a session on a desktop of the given size.
    pub fn new(security: SecurityConfig, width: u32, height: u32) -> (d: Dispatcher)
        ensures
            d.wf(),
            d@ == (DispatcherModel { security, width, height, recent: Seq::empty() }),
    {
        Dispatcher {
            security,
            width,
            height,
            recent: VecDeque::with_capacity(RATE_LIMIT),
            epoch: clock::start(),
        }
    }

    /// Allows or refuses a command received now.
    pub fn dispatch(&mut self, command: ControlCommand) -> (r: Result<Effect, RejectReason>)
        requires
            old(self).wf(),
            computable(command, old(self)@.width, old(self)@.height),
        ensures
            final(self).wf(),
            exists|now: u128| #[trigger]
                answer(old(self)@, command, now) == r && final(self)@ == after(old(self)@, now),
    {
        let now: u128 = clock::nanos_since(&self.epoch);
        self.dispatch_at(command, now)
    }

    /// Allows or refuses a command received at `now`, in nanoseconds since the
    /// dispatcher was made.
    pub fn dispatch_at(&mut self, command: ControlCommand, now: u128) -> (r: Result<
        Effect,
        RejectReason,
    >)
        requires
            old(self).wf(),
            rate_step(old(self)@.recent, now).1 ==> computable(
                command,
                old(self)@.width,
                old(self)@.height,
            ),
        ensures
            final(self).wf(),
            r == answer(old(self)@, command, now),
            final(self)@ == after(old(self)@, now),
    {
        if let Err(e) = self.check_rate(now) {
            return Err(e);
        }
        if command.is_power_action() && !self.security.allow_power_actions {
            return Err(RejectReason::NotPermitted);
        }
        let effect = match command {
            ControlCommand::Lock => Effect::Lock,
            ControlCommand::Sleep => Effect::Sleep,
            ControlCommand::Reboot => Effect::Reboot,
            ControlCommand::Shutdown => Effect::Shutdown,
            ControlCommand::RequestKeyframe => Effect::Keyframe,
            ControlCommand::SetQuality { preset } => Effect::Bitrate(self.bitrate_for(preset)),
            ControlCommand::SetCursorMode { mode } => Effect::CursorMode(mode),
            ControlCommand::RequestStats => Effect::SendStats,
            ControlCommand::Pong { seq } => Effect::Pong(seq),
        };
        Ok(effect)
    }

    /// Scales a preset to the real surface of the desktop.
    pub fn bitrate_for(&self, preset: QualityPreset) -> (bps: u32)
        requires
            computable(ControlCommand::SetQuality { preset }, self@.width, self@.height),
        ensures
            bps == scaled_bitrate(preset, self@.width, self@.height),
    {
        let target: u64 = preset.target_bitrate_1080p() as u64;
        proof {
            let w = self.width as int;
            let h = self.height as int;
            assert(0 <= w * h <= u64::MAX) by (nonlinear_arith)
                requires
                    0 <= w <= 0xFFFF_FFFF,
                    0 <= h <= 0xFFFF_FFFF,
            ;
        }
        let surface: u64 = self.width as u64 * self.height as u64;
        let pixels: u64 = if surface == 0 {
            1
        } else {
            surface
        };
        let scaled: u64 = target * pixels / REFERENCE_PIXELS;
        if scaled < 500_000 {
            500_000
        } else if scaled > 100_000_000 {
            100_000_000
        } else {
            scaled as u32
        }
    }

    /// Limits the number of commands within a sliding window.
    pub fn check_rate(&mut self, now: u128) -> (r: Result<(), RejectReason>)
        requires
            old(self).wf(),
        ensures
            final(self).wf(),
            final(self)@ == after(old(self)@, now),
            r == if rate_step(old(self)@.recent, now).1 {
                Ok::<(), RejectReason>(())
            } else {
                Err(RejectReason::RateLimited)
            },
    {
        while self.recent.len() > 0 && clock::time_between(self.recent[0], now) >= RATE_WINDOW
            invariant
                within_window(self.recent@, now) == within_window(old(self)@.recent, now),
                self.recent@.len() <= RATE_LIMIT,
                self.security == old(self).security,
                self.width == old(self).width,
                self.height == old(self).height,
            decreases self.recent@.len(),
        {
            let ghost before = self.recent@;
            self.recent.pop_front();
            assert(self.recent@ =~= before.drop_first());
        }
        if self.recent.len() >= RATE_LIMIT {
            return Err(RejectReason::RateLimited);
        }
        self.recent.push_back(now);
        Ok(())
    }

    /// Whether a command received at `now` gets through the rate limit.
    pub fn has_room(&self, now: u128) -> (b: bool)
        ensures
            b == rate_step(self@.recent, now).1,
    {
        let mut gone: usize = 0;
        assert(self.recent@.skip(0) =~= self.recent@);
        while gone < self.recent.len() && clock::time_between(self.recent[gone], now)
            >= RATE_WINDOW
            invariant
                gone <= self.recent@.len(),
                within_window(self.recent@.skip(gone as int), now) == within_window(
                    self.recent@,
                    now,
                ),
            decreases self.recent@.len() - gone,
        {
            assert(self.recent@.skip(gone as int).drop_first() =~= self.recent@.skip(gone + 1));
            gone = gone + 1;
        }
        self.recent.len() - gone < RATE_LIMIT
    }

    /// The time on this dispatcher's clock, in nanoseconds. Nothing is claimed of it.
    pub(crate) fn clock(&self) -> u128 {
        clock::nanos_since(&self.epoch)
    }

    /// Whether input may be injected.
    pub fn input_allowed(&self) -> (b: bool)
        ensures
            b == self@.security.allow_input,
    {
        self.security.allow_input
    }

    /// Whether the session has to be locked when the transport is lost.
    pub fn lock_on_disconnect(&self) -> (b: bool)
        ensures
            b == self@.security.lock_on_disconnect,
    {
        self.security.lock_on_disconnect
    }
}

/// Unless the configuration allows power actions, no command ever makes the host
/// sleep, restart or turn off.
pub proof fn law_power_needs_permission(d: DispatcherModel, command: ControlCommand, now: u128)
    requires
        !d.security.allow_power_actions,
    ensures
        answer(d, command, now) != Ok::<Effect, RejectReason>(Effect::Sleep),
        answer(d, command, now) != Ok::<Effect, RejectReason>(Effect::Reboot),
        answer(d, command, now) != Ok::<Effect, RejectReason>(Effect::Shutdown),
{
}

/// Whatever the configuration, a command that gets through the rate limit and is
/// no power action is carried out; locking is one of them.
pub proof fn law_other_commands_are_always_allowed(
    d: DispatcherModel,
    command: ControlCommand,
    now: u128,
)
    requires
        !control::power_action(command),
        rate_step(d.recent, now).1,
    ensures
        answer(d, command, now) == Ok::<Effect, RejectReason>(
            effect_of(command, d.width, d.height),
        ),
{
}

/// Whatever the surface, a bitrate stays within 0.5 to 100 Mbit/s.
pub proof fn law_bitrate_is_bounded(preset: QualityPreset, width: u32, height: u32)
    ensures
        500_000 <= scaled_bitrate(preset, width, height) <= 100_000_000,
{
}

/// A preset is scaled to a surface as the encoder scales its bitrate, a surface without
/// pixels among them.
pub proof fn law_scalings_agree(preset: QualityPreset, width: u32, height: u32)
    ensures
        scaled_bitrate(preset, width, height) == encode::scaled(
            width,
            height,
            control::bitrate_1080p(preset),
        ),
{
    if width * height == 0 {
        assert(control::bitrate_1080p(preset) * 1 / 2_073_600 < 500_000);
        assert(control::bitrate_1080p(preset) * (width * height) == 0) by (nonlinear_arith)
            requires
                width * height == 0,
        ;
    }
}

/// The outcome of receiving commands at the times `times`, one after the other:
/// the window, and when the commands that got through were received.
pub open spec fn run(times: Seq<u128>) -> (Seq<u128>, Seq<u128>)
    decreases times.len(),
{
    if times.len() == 0 {
        (Seq::empty(), Seq::empty())
    } else {
        let (recent, passed) = run(times.drop_last());
        let (next, ok) = rate_step(recent, times.last());
        (
            next,
            if ok {
                passed.push(times.last())
            } else {
                passed
            },
        )
    }
}

/// What leaves the window is the head of it, all of it older than the window.
proof fn lemma_within_window(recent: Seq<u128>, now: u128)
    ensures
        within_window(recent, now).len() <= recent.len(),
        within_window(recent, now) == recent.skip(
            recent.len() - within_window(recent, now).len(),
        ),
        forall|i: int|
            0 <= i < recent.len() - within_window(recent, now).len() ==> clock::elapsed(
                #[trigger] recent[i],
                now,
            ) >= RATE_WINDOW,
    decreases recent.len(),
{
    if recent.len() > 0 && clock::elapsed(recent[0], now) >= RATE_WINDOW {
        let rest = recent.drop_first();
        lemma_within_window(rest, now);
        let live = within_window(rest, now);
        assert(live =~= recent.skip(recent.len() - live.len()));
        assert forall|i: int| 0 <= i < recent.len() - live.len() implies clock::elapsed(
            #[trigger] recent[i],
            now,
        ) >= RATE_WINDOW by {
            if i > 0 {
                assert(rest[i - 1] == recent[i]);
            }
        }
    } else {
        assert(recent =~= recent.skip(0));
    }
}

/// The window holds the last commands that got through; every other one is at
/// least a window older than the last reception.
proof fn lemma_run(times: Seq<u128>)
    requires
        forall|i: int, j: int| 0 <= i <= j < times.len() ==> times[i] <= times[j],
    ensures
        run(times).0.len() <= RATE_LIMIT,
        run(times).0.len() <= run(times).1.len(),
        run(times).0 == run(times).1.skip(run(times).1.len() - run(times).0.len()),
        forall|i: int|
            0 <= i < run(times).1.len() - run(times).0.len() ==> times.last() - (#[trigger] run(
                times,
            ).1[i]) >= RATE_WINDOW,
        forall|i: int|
            0 <= i < run(times).1.len() ==> #[trigger] run(times).1[i] <= times.last(),
        forall|i: int, j: int|
            0 <= i <= j < run(times).1.len() ==> #[trigger] run(times).1[i] <= #[trigger] run(
                times,
            ).1[j],
        forall|i: int, j: int|
            0 <= i && i + RATE_LIMIT <= j < run(times).1.len() ==> (#[trigger] run(times).1[j])
                - (#[trigger] run(times).1[i]) >= RATE_WINDOW,
    decreases times.len(),
{
    if times.len() == 0 {
        assert(run(times).1.skip(0) =~= run(times).0);
    } else {
        let prev = times.drop_last();
        lemma_run(prev);
        let now = times.last();
        let (recent, passed) = run(prev);
        let live = within_window(recent, now);
        let (next, ok) = rate_step(recent, now);
        lemma_within_window(recent, now);
        assert(prev.len() > 0 ==> prev.last() == times[times.len() - 2]);
        assert(prev.len() > 0 ==> prev.last() <= now);
        let gone = passed.len() - live.len();
        assert(live =~= passed.skip(gone));
        assert forall|i: int| 0 <= i < gone implies now - (#[trigger] passed[i]) >= RATE_WINDOW by {
            let old_gone = passed.len() - recent.len();
            if i >= old_gone {
                assert(recent[i - old_gone] == passed[i]);
            }
        }
        if ok {
            let all = passed.push(now);
            assert(run(times).1 == all);
            assert(next =~= all.skip(all.len() - next.len()));
            assert forall|i: int, j: int|
                0 <= i && i + RATE_LIMIT <= j < all.len() implies (#[trigger] all[j]) - (
            #[trigger] all[i]) >= RATE_WINDOW by {
                if j == passed.len() {
                    assert(i < gone);
                    assert(all[i] == passed[i]);
                } else {
                    assert(all[j] == passed[j] && all[i] == passed[i]);
                }
            }
        } else {
            assert(run(times).1 == passed);
        }
    }
}

/// Of the commands that get through, no 41 ever fall within one window: the one
/// that comes 40 places after another comes at least ten seconds later.
///
/// The clock does not go back.
pub proof fn law_rate_limit_holds_in_every_window(times: Seq<u128>, i: int, j: int)
    requires
        forall|a: int, b: int| 0 <= a <= b < times.len() ==> times[a] <= times[b],
        0 <= i,
        i + RATE_LIMIT <= j < run(times).1.len(),
    ensures
        run(times).1[j] - run(times).1[i] >= RATE_WINDOW,
{
    lemma_run(times);
}

/// How many of the commands received at the times `passed` lie within the window that
/// ends at `now`.
pub open spec fn count_within(passed: Seq<u128>, now: u128) -> nat
    decreases passed.len(),
{
    if passed.len() == 0 {
        0
    } else {
        count_within(passed.drop_last(), now) + if now - passed.last() < RATE_WINDOW {
            1nat
        } else {
            0nat
        }
    }
}

/// Where the first `gone` commands have left the window and the others have not, the
/// others are those within it.
proof fn lemma_count_within(passed: Seq<u128>, now: u128, gone: int)
    requires
        0 <= gone <= passed.len(),
        forall|i: int| 0 <= i < gone ==> now - (#[trigger] passed[i]) >= RATE_WINDOW,
        forall|i: int| gone <= i < passed.len() ==> now - (#[trigger] passed[i]) < RATE_WINDOW,
    ensures
        count_within(passed, now) == passed.len() - gone,
    decreases passed.len(),
{
    if passed.len() > 0 {
        let head = passed.drop_last();
        assert forall|i: int| 0 <= i < head.len() implies head[i] == passed[i] by {}
        if gone == passed.len() {
            assert(now - passed[passed.len() - 1] >= RATE_WINDOW);
            lemma_count_within(head, now, gone - 1);
        } else {
            assert(now - passed[passed.len() - 1] < RATE_WINDOW);
            lemma_count_within(head, now, gone);
        }
    }
}

/// After any commands, the next one gets through exactly when fewer than 40 of those
/// that got through lie within the ten seconds before it. One that is refused is not
/// counted: hammering never prolongs the block.
///
/// The clock does not go back.
pub proof fn law_a_command_passes_while_there_is_room(
    d: DispatcherModel,
    times: Seq<u128>,
    command: ControlCommand,
    now: u128,
)
    requires
        forall|a: int, b: int| 0 <= a <= b < times.len() ==> times[a] <= times[b],
        times.len() > 0 ==> times.last() <= now,
        d.recent == run(times).0,
    ensures
        rate_step(d.recent, now).1 <==> count_within(run(times).1, now) < RATE_LIMIT,
        answer(d, command, now) == Err::<Effect, RejectReason>(RejectReason::RateLimited)
            <==> count_within(run(times).1, now) >= RATE_LIMIT,
        after(d, now).recent == run(times.push(now)).0,
        count_within(run(times).1, now) >= RATE_LIMIT ==> run(times.push(now)).1 == run(times).1,
        count_within(run(times).1, now) < RATE_LIMIT ==> run(times.push(now)).1 == run(
            times,
        ).1.push(now),
{
    lemma_run(times);
    let (recent, passed) = run(times);
    let live = within_window(recent, now);
    lemma_within_window(recent, now);
    lemma_live(recent, now);
    let gone = passed.len() - live.len();
    let old_gone = passed.len() - recent.len();
    assert forall|i: int| 0 <= i < gone implies now - (#[trigger] passed[i]) >= RATE_WINDOW by {
        if i >= old_gone {
            assert(recent[i - old_gone] == passed[i]);
        }
    }
    assert forall|i: int| gone <= i < passed.len() implies now - (#[trigger] passed[i])
        < RATE_WINDOW by {
        assert(recent[gone - old_gone] == passed[gone]);
        assert(live[0] == recent[recent.len() - live.len()]);
        assert(passed[gone] <= passed[i]);
    }
    lemma_count_within(passed, now, gone);
    assert(times.push(now).drop_last() =~= times);
}

/// The head of what is left of the window lies within it.
proof fn lemma_live(recent: Seq<u128>, now: u128)
    ensures
        within_window(recent, now).len() > 0 ==> clock::elapsed(within_window(recent, now)[0], now)
            < RATE_WINDOW,
    decreases recent.len(),
{
    if recent.len() > 0 && clock::elapsed(recent[0], now) >= RATE_WINDOW {
        lemma_live(recent.drop_first(), now);
    }
}

/// An allowed command has its own effect and no other: a lock locks, sleep sends to sleep,
/// a restart restarts, turning off turns off, a key frame is asked for, telemetry is sent, a
/// pointing mode and a probe are handed on as they came, and a preset gives its bitrate in
/// proportion to the surface. A command is allowed exactly when the rate lets it through
/// and, for a power action, the configuration does.
pub proof fn law_each_command_has_its_own_effect(
    d: DispatcherModel,
    command: ControlCommand,
    now: u128,
)
    ensures
        ({
            let power = command is Sleep || command is Reboot || command is Shutdown;
            let room = within_window(d.recent, now).len() < 40;
            let allowed = room && (power ==> d.security.allow_power_actions);
            let r = answer(d, command, now);
            &&& r is Ok <==> allowed
            &&& r == Err::<Effect, RejectReason>(RejectReason::RateLimited) <==> !room
            &&& r == Err::<Effect, RejectReason>(RejectReason::NotPermitted) <==> room && power
                && !d.security.allow_power_actions
            &&& r == Ok::<Effect, RejectReason>(Effect::Lock) <==> allowed && command is Lock
            &&& r == Ok::<Effect, RejectReason>(Effect::Sleep) <==> allowed && command is Sleep
            &&& r == Ok::<Effect, RejectReason>(Effect::Reboot) <==> allowed && command is Reboot
            &&& r == Ok::<Effect, RejectReason>(Effect::Shutdown) <==> allowed
                && command is Shutdown
            &&& r == Ok::<Effect, RejectReason>(Effect::Keyframe) <==> allowed
                && command is RequestKeyframe
            &&& r == Ok::<Effect, RejectReason>(Effect::SendStats) <==> allowed
                && command is RequestStats
            &&& r matches Ok(Effect::CursorMode(mode)) ==> command == (
            ControlCommand::SetCursorMode { mode })
            &&& command matches ControlCommand::SetCursorMode { mode } ==> (allowed ==> r == Ok::<
                Effect,
                RejectReason,
            >(Effect::CursorMode(mode)))
            &&& r matches Ok(Effect::Pong(seq)) ==> command == (ControlCommand::Pong { seq })
            &&& command matches ControlCommand::Pong { seq } ==> (allowed ==> r == Ok::<
                Effect,
                RejectReason,
            >(Effect::Pong(seq)))
            &&& r matches Ok(Effect::Bitrate(b)) ==> (command matches ControlCommand::SetQuality {
                preset,
            } && b == encode::scaled(d.width, d.height, control::bitrate_1080p(preset)))
            &&& allowed && command is SetQuality ==> r matches Ok(Effect::Bitrate(_))
        }),
{
    if let ControlCommand::SetQuality { preset } = command {
        law_scalings_agree(preset, d.width, d.height);
    }
}

/// A command leaves the safeguards and the surface as they are. What is remembered of the
/// commands before it are those of the last ten seconds, and the command itself if it got
/// through.
pub proof fn law_a_command_is_remembered_for_ten_seconds(d: DispatcherModel, now: u128)
    ensures
        after(d, now).security == d.security,
        after(d, now).width == d.width,
        after(d, now).height == d.height,
        ({
            let live = within_window(d.recent, now);
            &&& live.len() <= d.recent.len()
            &&& live == d.recent.skip(d.recent.len() - live.len())
            &&& forall|i: int|
                0 <= i < d.recent.len() - live.len() ==> now - #[trigger] d.recent[i]
                    >= 10_000_000_000
            &&& live.len() > 0 ==> now - live[0] < 10_000_000_000
            &&& live.len() < 40 ==> after(d, now).recent == live.push(now)
            &&& live.len() >= 40 ==> after(d, now).recent == live
        }),
{
    lemma_window_is_a_tail(d.recent, now);
}

proof fn lemma_window_is_a_tail(recent: Seq<u128>, now: u128)
    ensures
        ({
            let live = within_window(recent, now);
            &&& live.len() <= recent.len()
            &&& live == recent.skip(recent.len() - live.len())
            &&& forall|i: int|
                0 <= i < recent.len() - live.len() ==> now - #[trigger] recent[i] >= 10_000_000_000
            &&& live.len() > 0 ==> now - live[0] < 10_000_000_000
        }),
    decreases recent.len(),
{
    if recent.len() > 0 && clock::elapsed(recent[0], now) >= RATE_WINDOW {
        let rest = recent.drop_first();
        lemma_window_is_a_tail(rest, now);
        let live = within_window(recent, now);
        assert(live =~= recent.skip(recent.len() - live.len()));
        assert forall|i: int| 0 <= i < recent.len() - live.len() implies now - #[trigger] recent[i]
            >= 10_000_000_000 by {
            if i > 0 {
                assert(rest[i - 1] == recent[i]);
            }
        }
    } else {
        assert(recent.skip(0) =~= recent);
    }
}

/// What can be computed: every command but a preset, and a preset as long as its bitrate
/// times the pixels fits in 64 bits, as it does on every surface of 600 000 by 600 000
/// pixels or less.
pub proof fn law_every_real_surface_can_be_computed(
    command: ControlCommand,
    width: u32,
    height: u32,
)
    requires
        width <= 600_000,
        height <= 600_000,
    ensures
        computable(command, width, height),
{
    if let ControlCommand::SetQuality { preset } = command {
        let t = control::bitrate_1080p(preset) as int;
        let p = counted_pixels(width, height);
        assert(0 <= width * height <= 600_000 * 600_000) by (nonlinear_arith)
            requires
                0 <= width <= 600_000,
                0 <= height <= 600_000,
        ;
        assert(t * p <= 50_000_000 * 360_000_000_000) by (nonlinear_arith)
            requires
                0 <= t <= 50_000_000,
                0 <= p <= 360_000_000_000,
        ;
    }
}

} // verus!

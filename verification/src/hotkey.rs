//! The hotkey monitor: edge detection with debounce over a polled chord.
//! A rising edge publishes `Pressed` at once; a falling edge opens a grace
//! window, and only a chord that stays up through the whole window publishes
//! `Released` — a shorter dip, as modifier chords produce when their keys
//! are sampled across polls, is cancelled without a word.
//!
//! The polling itself (the OS call and the clock) happens outside this
//! crate; each observation is handed in as a flag and a millisecond reading.

use vstd::prelude::*;

verus! {

/// How long a chord must stay up before its release is believed.
pub const RELEASE_GRACE_MS: u64 = 250;

#[derive(Clone, Copy, PartialEq, Eq, Structural, Debug)]
pub enum HotkeyEvent {
    Pressed,
    Released,
}

/// One poll observation: whether the chord was down, and the clock's
/// millisecond reading.
#[derive(Clone, Copy, PartialEq, Eq, Structural, Debug)]
pub struct Poll {
    pub pressed: bool,
    pub now_ms: u64,
}

/// The monitor's memory between polls: whether the chord is believed held,
/// and when the pending release began, if one is pending.
#[derive(Clone, Copy)]
pub struct HotkeyMonitor {
    pub was_pressed: bool,
    pub release_start: Option<u64>,
}

/// The monitor after one poll.
pub open spec fn step_state(m: HotkeyMonitor, pressed: bool, now_ms: u64) -> HotkeyMonitor {
    if pressed {
        HotkeyMonitor { was_pressed: true, release_start: None }
    } else if m.was_pressed {
        match m.release_start {
            None => HotkeyMonitor { was_pressed: true, release_start: Some(now_ms) },
            Some(start) => if start <= now_ms && now_ms - start >= RELEASE_GRACE_MS {
                HotkeyMonitor { was_pressed: false, release_start: None }
            } else {
                m
            },
        }
    } else {
        m
    }
}

/// What one poll publishes.
pub open spec fn step_event(m: HotkeyMonitor, pressed: bool, now_ms: u64) -> Option<HotkeyEvent> {
    if pressed {
        if !m.was_pressed {
            Some(HotkeyEvent::Pressed)
        } else {
            None
        }
    } else if m.was_pressed {
        match m.release_start {
            None => None,
            Some(start) => if start <= now_ms && now_ms - start >= RELEASE_GRACE_MS {
                Some(HotkeyEvent::Released)
            } else {
                None
            },
        }
    } else {
        None
    }
}

/// The monitor after a whole run of polls.
pub open spec fn run_state(m: HotkeyMonitor, polls: Seq<Poll>) -> HotkeyMonitor
    decreases polls.len(),
{
    if polls.len() == 0 {
        m
    } else {
        run_state(step_state(m, polls[0].pressed, polls[0].now_ms), polls.drop_first())
    }
}

/// Everything a whole run of polls publishes, in order.
pub open spec fn run_events(m: HotkeyMonitor, polls: Seq<Poll>) -> Seq<HotkeyEvent>
    decreases polls.len(),
{
    if polls.len() == 0 {
        Seq::empty()
    } else {
        let rest = run_events(
            step_state(m, polls[0].pressed, polls[0].now_ms),
            polls.drop_first(),
        );
        match step_event(m, polls[0].pressed, polls[0].now_ms) {
            Some(e) => seq![e] + rest,
            None => rest,
        }
    }
}

impl HotkeyMonitor {
    /// A monitor that believes the chord up, with no pending release.
    pub fn new() -> (m: HotkeyMonitor)
        ensures
            m.was_pressed == false,
            m.release_start is None,
    {
        HotkeyMonitor { was_pressed: false, release_start: None }
    }

    /// Feeds one poll observation in and publishes the edge it detects, if
    /// any.
    pub fn tick(&mut self, pressed: bool, now_ms: u64) -> (ev: Option<HotkeyEvent>)
        ensures
            *final(self) == step_state(*old(self), pressed, now_ms),
            ev == step_event(*old(self), pressed, now_ms),
    {
        if pressed {
            let had = self.was_pressed;
            self.was_pressed = true;
            self.release_start = None;
            if !had {
                Some(HotkeyEvent::Pressed)
            } else {
                None
            }
        } else if self.was_pressed {
            match self.release_start {
                None => {
                    self.release_start = Some(now_ms);
                    None
                },
                Some(start) => {
                    if start <= now_ms && now_ms - start >= RELEASE_GRACE_MS {
                        self.was_pressed = false;
                        self.release_start = None;
                        Some(HotkeyEvent::Released)
                    } else {
                        None
                    }
                },
            }
        } else {
            None
        }
    }
}

/// Running two stretches of polls one after the other is running their
/// concatenation.
pub proof fn lemma_run_append(m: HotkeyMonitor, a: Seq<Poll>, b: Seq<Poll>)
    ensures
        run_state(m, a + b) == run_state(run_state(m, a), b),
        run_events(m, a + b) == run_events(m, a) + run_events(run_state(m, a), b),
    decreases a.len(),
{
    if a.len() == 0 {
        assert(a + b =~= b);
        assert(run_events(m, a) + run_events(run_state(m, a), b) =~= run_events(m, b));
    } else {
        let m1 = step_state(m, a[0].pressed, a[0].now_ms);
        assert((a + b)[0] == a[0]);
        assert((a + b).drop_first() =~= a.drop_first() + b);
        lemma_run_append(m1, a.drop_first(), b);
        match step_event(m, a[0].pressed, a[0].now_ms) {
            Some(e) => {
                assert(seq![e] + (run_events(m1, a.drop_first()) + run_events(
                    run_state(m1, a.drop_first()),
                    b,
                )) =~= (seq![e] + run_events(m1, a.drop_first())) + run_events(
                    run_state(m1, a.drop_first()),
                    b,
                ));
            },
            None => {},
        }
    }
}

/// While the chord stays down, a monitor that already believes it held
/// publishes nothing.
pub proof fn lemma_hold_run(polls: Seq<Poll>)
    requires
        forall|i: int| 0 <= i < polls.len() ==> polls[i].pressed,
    ensures
        run_state(
            (HotkeyMonitor { was_pressed: true, release_start: None }),
            polls,
        ) == (HotkeyMonitor { was_pressed: true, release_start: None }),
        run_events((HotkeyMonitor { was_pressed: true, release_start: None }), polls)
            == Seq::<HotkeyEvent>::empty(),
    decreases polls.len(),
{
    if polls.len() > 0 {
        lemma_hold_run(polls.drop_first());
    }
}

/// While the chord stays up, a monitor that believes it up publishes
/// nothing and forgets nothing.
pub proof fn lemma_idle_run(m: HotkeyMonitor, polls: Seq<Poll>)
    requires
        !m.was_pressed,
        forall|i: int| 0 <= i < polls.len() ==> !polls[i].pressed,
    ensures
        run_state(m, polls) == m,
        run_events(m, polls) == Seq::<HotkeyEvent>::empty(),
    decreases polls.len(),
{
    if polls.len() > 0 {
        lemma_idle_run(m, polls.drop_first());
    }
}

/// A chord pressed and held publishes exactly one `Pressed`: at the rising
/// edge, and never again while it is down.
pub proof fn lemma_press_run(m: HotkeyMonitor, polls: Seq<Poll>)
    requires
        !m.was_pressed,
        polls.len() >= 1,
        forall|i: int| 0 <= i < polls.len() ==> polls[i].pressed,
    ensures
        run_events(m, polls) == seq![HotkeyEvent::Pressed],
        run_state(m, polls) == (HotkeyMonitor { was_pressed: true, release_start: None }),
{
    let m1 = step_state(m, polls[0].pressed, polls[0].now_ms);
    assert(m1 == (HotkeyMonitor { was_pressed: true, release_start: None }));
    assert(forall|i: int|
        0 <= i < polls.drop_first().len() ==> polls.drop_first()[i].pressed);
    lemma_hold_run(polls.drop_first());
    assert(seq![HotkeyEvent::Pressed] + Seq::<HotkeyEvent>::empty() =~= seq![
        HotkeyEvent::Pressed,
    ]);
}

/// While a pending release stays inside the grace window, the monitor
/// publishes nothing and keeps waiting.
pub proof fn lemma_grace_wait(start: u64, polls: Seq<Poll>)
    requires
        forall|i: int| 0 <= i < polls.len() ==> !polls[i].pressed,
        forall|i: int|
            0 <= i < polls.len() ==> ((#[trigger] polls[i]).now_ms as int) < start
                + RELEASE_GRACE_MS,
    ensures
        run_state(
            (HotkeyMonitor { was_pressed: true, release_start: Some(start) }),
            polls,
        ) == (HotkeyMonitor { was_pressed: true, release_start: Some(start) }),
        run_events((HotkeyMonitor { was_pressed: true, release_start: Some(start) }), polls)
            == Seq::<HotkeyEvent>::empty(),
    decreases polls.len(),
{
    if polls.len() > 0 {
        lemma_grace_wait(start, polls.drop_first());
    }
}

/// A pending release that outlasts the grace window publishes exactly one
/// `Released`: at the first poll past the window, and nothing after.
pub proof fn lemma_release_run(start: u64, polls: Seq<Poll>, j: int)
    requires
        0 <= j < polls.len(),
        forall|i: int| 0 <= i < polls.len() ==> !polls[i].pressed,
        forall|i: int|
            0 <= i < j ==> ((#[trigger] polls[i]).now_ms as int) < start + RELEASE_GRACE_MS,
        polls[j].now_ms as int >= start + RELEASE_GRACE_MS,
    ensures
        run_events((HotkeyMonitor { was_pressed: true, release_start: Some(start) }), polls)
            == seq![HotkeyEvent::Released],
        !run_state(
            (HotkeyMonitor { was_pressed: true, release_start: Some(start) }),
            polls,
        ).was_pressed,
    decreases j,
{
    let m = HotkeyMonitor { was_pressed: true, release_start: Some(start) };
    if j == 0 {
        let m1 = step_state(m, polls[0].pressed, polls[0].now_ms);
        assert(m1 == (HotkeyMonitor { was_pressed: false, release_start: None }));
        lemma_idle_run(m1, polls.drop_first());
        assert(seq![HotkeyEvent::Released] + Seq::<HotkeyEvent>::empty() =~= seq![
            HotkeyEvent::Released,
        ]);
    } else {
        assert(step_state(m, polls[0].pressed, polls[0].now_ms) == m);
        assert(step_event(m, polls[0].pressed, polls[0].now_ms) is None);
        assert(forall|i: int|
            0 <= i < polls.drop_first().len() ==> !polls.drop_first()[i].pressed);
        lemma_release_run(start, polls.drop_first(), j - 1);
    }
}

/// A press held over at least one poll, then a release held continuously
/// past the grace window, publishes exactly one `Pressed` and then exactly
/// one `Released`, in that order and nothing else.
pub proof fn lemma_press_then_release(
    m: HotkeyMonitor,
    press: Seq<Poll>,
    release: Seq<Poll>,
    j: int,
)
    requires
        !m.was_pressed,
        press.len() >= 1,
        forall|i: int| 0 <= i < press.len() ==> press[i].pressed,
        release.len() >= 2,
        forall|i: int| 0 <= i < release.len() ==> !release[i].pressed,
        1 <= j < release.len(),
        forall|i: int|
            1 <= i < j ==> ((#[trigger] release[i]).now_ms as int) < release[0].now_ms
                + RELEASE_GRACE_MS,
        release[j].now_ms as int >= release[0].now_ms + RELEASE_GRACE_MS,
    ensures
        run_events(m, press + release) == seq![HotkeyEvent::Pressed, HotkeyEvent::Released],
{
    lemma_run_append(m, press, release);
    lemma_press_run(m, press);
    let held = HotkeyMonitor { was_pressed: true, release_start: None };
    let t0 = release[0].now_ms;
    let waiting = HotkeyMonitor { was_pressed: true, release_start: Some(t0) };
    assert(step_state(held, release[0].pressed, release[0].now_ms) == waiting);
    assert(step_event(held, release[0].pressed, release[0].now_ms) is None);
    assert(forall|i: int|
        0 <= i < release.drop_first().len() ==> !release.drop_first()[i].pressed);
    assert(forall|i: int|
        0 <= i < j - 1 ==> ((#[trigger] release.drop_first()[i]).now_ms as int) < t0
            + RELEASE_GRACE_MS);
    assert(release.drop_first()[j - 1] == release[j]);
    lemma_release_run(t0, release.drop_first(), j - 1);
    assert(run_events(held, release) == seq![HotkeyEvent::Released]);
    assert(seq![HotkeyEvent::Pressed] + seq![HotkeyEvent::Released] =~= seq![
        HotkeyEvent::Pressed,
        HotkeyEvent::Released,
    ]);
}

/// A dip shorter than the grace window, ended by a re-press, publishes
/// nothing at all — no `Released`, and no second `Pressed` — and leaves the
/// monitor exactly as a held chord has it.
pub proof fn lemma_short_release_cancelled(release: Seq<Poll>, repress: Poll)
    requires
        release.len() >= 1,
        forall|i: int| 0 <= i < release.len() ==> !release[i].pressed,
        forall|i: int|
            0 <= i < release.len() ==> ((#[trigger] release[i]).now_ms as int) < release[0].now_ms
                + RELEASE_GRACE_MS,
        repress.pressed,
    ensures
        run_events(
            (HotkeyMonitor { was_pressed: true, release_start: None }),
            release + seq![repress],
        ) == Seq::<HotkeyEvent>::empty(),
        run_state(
            (HotkeyMonitor { was_pressed: true, release_start: None }),
            release + seq![repress],
        ) == (HotkeyMonitor { was_pressed: true, release_start: None }),
{
    let held = HotkeyMonitor { was_pressed: true, release_start: None };
    let t0 = release[0].now_ms;
    let waiting = HotkeyMonitor { was_pressed: true, release_start: Some(t0) };
    lemma_run_append(held, release, seq![repress]);
    assert(step_state(held, release[0].pressed, release[0].now_ms) == waiting);
    assert(step_event(held, release[0].pressed, release[0].now_ms) is None);
    assert(forall|i: int|
        0 <= i < release.drop_first().len() ==> !release.drop_first()[i].pressed);
    assert(forall|i: int|
        0 <= i < release.drop_first().len() ==> ((#[trigger] release.drop_first()[i]).now_ms
            as int) < t0 + RELEASE_GRACE_MS);
    lemma_grace_wait(t0, release.drop_first());
    assert(run_state(held, release) == waiting);
    assert(run_events(held, release) == Seq::<HotkeyEvent>::empty());
    let s = seq![repress];
    assert(s.drop_first() =~= Seq::<Poll>::empty());
    assert(step_state(waiting, repress.pressed, repress.now_ms) == held);
    assert(step_event(waiting, repress.pressed, repress.now_ms) is None);
    assert(run_events(held, s.drop_first()) == Seq::<HotkeyEvent>::empty());
    assert(run_state(held, s.drop_first()) == held);
    assert(run_events(waiting, s) == Seq::<HotkeyEvent>::empty());
    assert(run_state(waiting, s) == held);
}

} // verus!

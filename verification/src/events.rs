//! The interaction state machine: discrete input events drive the viewport
//! transitions and signal when a recompute or a shutdown is due.
//!
//! On each scheduler tick the queued events are drained in arrival order. A
//! quit or termination event stops the loop at once; a primary or secondary
//! pointer press zooms in or out at the clicked pixel; an initial press of a
//! navigation key tunes the iteration budget or the escape radius. Repeated
//! key events and everything else are ignored.

use vstd::prelude::*;

use crate::fixed::COORD_LIMIT;
use crate::viewport::Mandelbrot;
use crate::viewport::spec_decrease_detail;
use crate::viewport::spec_decrease_radius;
use crate::viewport::spec_increase_detail;
use crate::viewport::spec_increase_radius;
use crate::viewport::spec_zoom_in;
use crate::viewport::spec_zoom_out;

verus! {

/// A pointer button. The primary button zooms in, the secondary zooms out,
/// any other button does nothing.
#[derive(Clone, Copy, PartialEq, Eq, Structural, Debug)]
pub enum MouseButton {
    Left,
    Right,
    Other,
}

/// A key. The four navigation keys tune the parameters; any other key does
/// nothing.
#[derive(Clone, Copy, PartialEq, Eq, Structural, Debug)]
pub enum Key {
    Up,
    Down,
    Left,
    Right,
    Other,
}

/// One input event, as the input source reports it. Device pixel
/// coordinates grow rightward and downward from the top-left corner.
#[derive(Clone, Copy, PartialEq, Eq, Structural, Debug)]
pub enum Event {
    Quit,
    AppTerminating,
    MouseButtonDown { button: MouseButton, x: i32, y: i32 },
    KeyDown { key: Key, repeat: bool },
    Other,
}

/// What one event asks of the scheduler: stop the loop, recompute the
/// frame, or nothing.
#[derive(Clone, Copy, PartialEq, Eq, Structural, Debug)]
pub enum Reaction {
    Stop,
    Rerender,
    Ignore,
}

/// Whether an event terminates the scheduler.
pub open spec fn spec_is_stop(e: Event) -> bool {
    match e {
        Event::Quit => true,
        Event::AppTerminating => true,
        _ => false,
    }
}

/// Clamp a device coordinate into `0..=dim`.
pub open spec fn spec_clamp_pixel(a: int, dim: int) -> int {
    if a < 0 {
        0
    } else if a > dim {
        dim
    } else {
        a
    }
}

/// The viewport transition of one event: pointer presses zoom at the
/// clicked pixel (with the vertical axis flipped, since device y grows
/// downward and plane y upward), initial key presses tune the parameters,
/// and everything else leaves the viewport unchanged.
pub open spec fn spec_apply_event(v: Mandelbrot, e: Event) -> Mandelbrot {
    match e {
        Event::MouseButtonDown { button, x, y } => {
            let px = spec_clamp_pixel(x as int, v.width_px as int);
            let py = v.height_px - spec_clamp_pixel(y as int, v.height_px as int);
            match button {
                MouseButton::Left => spec_zoom_in(v, px as u32, py as u32),
                MouseButton::Right => spec_zoom_out(v, px as u32, py as u32),
                MouseButton::Other => v,
            }
        },
        Event::KeyDown { key, repeat } => {
            if repeat {
                v
            } else {
                match key {
                    Key::Up => spec_increase_detail(v),
                    Key::Down => spec_decrease_detail(v),
                    Key::Right => spec_increase_radius(v),
                    Key::Left => spec_decrease_radius(v),
                    Key::Other => v,
                }
            }
        },
        _ => v,
    }
}

/// The scheduler signal of one event. Only mapped events ask for a
/// recompute; the mapping does not depend on the viewport.
pub open spec fn spec_reaction(e: Event) -> Reaction {
    match e {
        Event::Quit => Reaction::Stop,
        Event::AppTerminating => Reaction::Stop,
        Event::MouseButtonDown { button, .. } => match button {
            MouseButton::Left => Reaction::Rerender,
            MouseButton::Right => Reaction::Rerender,
            MouseButton::Other => Reaction::Ignore,
        },
        Event::KeyDown { key, repeat } => {
            if repeat {
                Reaction::Ignore
            } else {
                match key {
                    Key::Other => Reaction::Ignore,
                    _ => Reaction::Rerender,
                }
            }
        },
        Event::Other => Reaction::Ignore,
    }
}

/// The viewport after draining a queue: events apply in order until the
/// first stopping event, which ends the drain with the rest unprocessed.
pub open spec fn spec_apply_events(v: Mandelbrot, es: Seq<Event>) -> Mandelbrot
    decreases es.len(),
{
    if es.len() == 0 {
        v
    } else if spec_is_stop(es[0]) {
        v
    } else {
        spec_apply_events(spec_apply_event(v, es[0]), es.skip(1))
    }
}

/// Whether the scheduler keeps running after draining a queue: it does
/// exactly when no stopping event occurs.
pub open spec fn spec_keep_going(es: Seq<Event>) -> bool
    decreases es.len(),
{
    if es.len() == 0 {
        true
    } else if spec_is_stop(es[0]) {
        false
    } else {
        spec_keep_going(es.skip(1))
    }
}

/// Whether draining a queue asks for a recompute: it does exactly when some
/// event before the first stopping one is mapped to a transition.
pub open spec fn spec_recompute(es: Seq<Event>) -> bool
    decreases es.len(),
{
    if es.len() == 0 {
        false
    } else if spec_is_stop(es[0]) {
        false
    } else {
        spec_reaction(es[0]) == Reaction::Rerender || spec_recompute(es.skip(1))
    }
}

/// What draining the queued events of one scheduler tick produced.
#[derive(Clone, Copy, PartialEq, Eq, Structural, Debug)]
pub struct TickOutcome {
    pub keep_going: bool,
    pub recompute: bool,
}

/// Clamp a device coordinate into `0..=dim`.
fn clamp_pixel(a: i32, dim: u32) -> (p: u32)
    requires
        dim <= 0x8000,
    ensures
        p == spec_clamp_pixel(a as int, dim as int),
        p <= dim,
{
    if a < 0 {
        0
    } else if a > dim as i32 {
        dim
    } else {
        a as u32
    }
}

impl Mandelbrot {
    /// Apply one input event: mutate the viewport by its transition and
    /// report the scheduler signal. Total over all events; unmapped events,
    /// repeated keys and out-of-window clicks (clamped to the border) never
    /// fail.
    pub fn apply_event(&mut self, e: &Event) -> (r: Reaction)
        requires
            old(self).wf(),
        ensures
            *final(self) == spec_apply_event(*old(self), *e),
            r == spec_reaction(*e),
            final(self).wf(),
    {
        match *e {
            Event::Quit => Reaction::Stop,
            Event::AppTerminating => Reaction::Stop,
            Event::MouseButtonDown { button, x, y } => {
                let px: u32 = clamp_pixel(x, self.width_px);
                let py: u32 = self.height_px - clamp_pixel(y, self.height_px);
                match button {
                    MouseButton::Left => {
                        self.zoom_in(px, py);
                        Reaction::Rerender
                    },
                    MouseButton::Right => {
                        self.zoom_out(px, py);
                        Reaction::Rerender
                    },
                    MouseButton::Other => Reaction::Ignore,
                }
            },
            Event::KeyDown { key, repeat } => {
                if repeat {
                    Reaction::Ignore
                } else {
                    match key {
                        Key::Up => {
                            self.increase_detail();
                            Reaction::Rerender
                        },
                        Key::Down => {
                            self.decrease_detail();
                            Reaction::Rerender
                        },
                        Key::Right => {
                            self.increase_radius();
                            Reaction::Rerender
                        },
                        Key::Left => {
                            self.decrease_radius();
                            Reaction::Rerender
                        },
                        Key::Other => Reaction::Ignore,
                    }
                }
            },
            Event::Other => Reaction::Ignore,
        }
    }
}

/// Drain one tick's queue: apply the events in arrival order until the
/// first stopping event, and report whether the scheduler keeps running and
/// whether a recompute is due.
pub fn process_events(m: &mut Mandelbrot, events: &Vec<Event>) -> (t: TickOutcome)
    requires
        old(m).wf(),
    ensures
        *final(m) == spec_apply_events(*old(m), events@),
        t.keep_going == spec_keep_going(events@),
        t.recompute == spec_recompute(events@),
        final(m).wf(),
{
    let ghost v0 = *m;
    let n: usize = events.len();
    let mut i: usize = 0;
    let mut keep_going: bool = true;
    let mut recompute: bool = false;
    proof {
        assert(events@.skip(0) =~= events@);
    }
    loop
        invariant_except_break
            m.wf(),
            i <= n,
            n == events@.len(),
            keep_going,
            spec_apply_events(v0, events@) == spec_apply_events(*m, events@.skip(i as int)),
            spec_keep_going(events@) == spec_keep_going(events@.skip(i as int)),
            spec_recompute(events@) == (recompute || spec_recompute(events@.skip(i as int))),
        ensures
            m.wf(),
            *m == spec_apply_events(v0, events@),
            keep_going == spec_keep_going(events@),
            recompute == spec_recompute(events@),
        decreases n - i,
    {
        if i >= n {
            proof {
                assert(events@.skip(i as int) =~= Seq::<Event>::empty());
            }
            break ;
        }
        let e: Event = events[i];
        proof {
            assert(events@.skip(i as int)[0] == events@[i as int]);
            assert(events@.skip(i as int).skip(1) =~= events@.skip(i as int + 1));
        }
        match e {
            Event::Quit | Event::AppTerminating => {
                keep_going = false;
                break ;
            },
            _ => {},
        }
        let r: Reaction = m.apply_event(&e);
        if matches!(r, Reaction::Rerender) {
            recompute = true;
        }
        i = i + 1;
    }
    TickOutcome { keep_going, recompute }
}

/// Law: every event keeps the viewport invariant. Whatever a single event
/// does, the viewport it leaves behind is still well formed.
pub proof fn lemma_event_preserves_wf(v: Mandelbrot, e: Event)
    requires
        v.wf(),
    ensures
        spec_apply_event(v, e).wf(),
{
}

/// Law: draining any queue keeps the viewport invariant: positive extents
/// and radius and a budget of at least one hold at all times, whatever
/// events arrive in whatever order.
pub proof fn lemma_drain_preserves_wf(v: Mandelbrot, es: Seq<Event>)
    requires
        v.wf(),
    ensures
        spec_apply_events(v, es).wf(),
    decreases es.len(),
{
    if es.len() > 0 && !spec_is_stop(es[0]) {
        lemma_event_preserves_wf(v, es[0]);
        lemma_drain_preserves_wf(spec_apply_event(v, es[0]), es.skip(1));
    }
}

/// Law: a primary click followed by a secondary click at the same device
/// pixel restores the viewport exactly, whenever the extents are multiples
/// of four steps and the zoomed-in corner stays inside the representable
/// plane square; the vertical flip and the border clamp apply equally to
/// both clicks and cancel.
pub proof fn lemma_click_round_trip(v: Mandelbrot, x: i32, y: i32)
    requires
        v.wf(),
        v.width % 4 == 0,
        v.height % 4 == 0,
        -COORD_LIMIT <= v.low_x + (spec_clamp_pixel(x as int, v.width_px as int) * v.width) / (
        v.width_px as int) - ((v.width as int) / 4) / 2 <= COORD_LIMIT,
        -COORD_LIMIT <= v.low_y + ((v.height_px - spec_clamp_pixel(y as int, v.height_px as int))
            * v.height) / (v.height_px as int) - ((v.height as int) / 4) / 2 <= COORD_LIMIT,
    ensures
        spec_apply_event(
            spec_apply_event(v, Event::MouseButtonDown { button: MouseButton::Left, x, y }),
            Event::MouseButtonDown { button: MouseButton::Right, x, y },
        ) == v,
{
    let px = spec_clamp_pixel(x as int, v.width_px as int);
    let py = v.height_px - spec_clamp_pixel(y as int, v.height_px as int);
    crate::viewport::lemma_zoom_round_trip(v, px as u32, py as u32);
}

/// Law: key-repeat events change nothing. A queue of nothing but repeated
/// key presses leaves every viewport field as it was, asks for no
/// recompute, and keeps the scheduler running.
pub proof fn lemma_repeats_change_nothing(v: Mandelbrot, es: Seq<Event>)
    requires
        forall|i: int|
            0 <= i < es.len() ==> ((#[trigger] es[i]) matches Event::KeyDown { repeat: true, .. }),
    ensures
        spec_apply_events(v, es) == v,
        spec_recompute(es) == false,
        spec_keep_going(es),
    decreases es.len(),
{
    if es.len() > 0 {
        assert(es[0] matches Event::KeyDown { repeat: true, .. });
        assert(forall|i: int|
            0 <= i < es.skip(1).len() ==> ((#[trigger] es.skip(1)[i]) matches Event::KeyDown {
                repeat: true,
                ..
            }));
        lemma_repeats_change_nothing(v, es.skip(1));
    }
}

} // verus!

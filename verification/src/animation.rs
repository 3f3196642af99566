//! Panels that move with time: a notice that slides away once and a button
//! that bounces between two bounds.
//!
//! Distances are whole numbers of a unit that the host chooses, times are
//! microseconds, and speeds are units per second. A position never leaves the
//! range of `i64`: a step that would take it further stops at the end of the
//! range.

use crate::random::gen_range_inclusive;
use vstd::prelude::*;

verus! {

/// The time that the host reports with each tick, in microseconds.
#[derive(Clone, Copy, Debug, PartialEq, Eq)]
pub struct Clock {
    /// Time since the host started.
    pub since_start: u64,
    /// Time since the previous tick.
    pub delta: u64,
}

/// The way a panel moves.
#[derive(Clone, Copy, Debug, PartialEq, Eq, Structural)]
pub enum Direction {
    Left,
    Right,
    Up,
    Down,
    /// No direction has been chosen yet.
    Unkwon,
}

impl Direction {
    /// The direction that stands for a draw from 1 to 4; any other number
    /// stands for none.
    pub open spec fn of_draw(n: int) -> Direction {
        if n == 1 {
            Direction::Left
        } else if n == 2 {
            Direction::Right
        } else if n == 3 {
            Direction::Up
        } else if n == 4 {
            Direction::Down
        } else {
            Direction::Unkwon
        }
    }

    /// Whether this is one of the four directions.
    pub open spec fn is_chosen(self) -> bool {
        self != Direction::Unkwon
    }

    /// The direction for the number `n` drawn.
    pub fn from_draw(n: i32) -> (direction: Direction)
        ensures
            direction == Direction::of_draw(n as int),
    {
        match n {
            1 => Direction::Left,
            2 => Direction::Right,
            3 => Direction::Up,
            4 => Direction::Down,
            _ => Direction::Unkwon,
        }
    }

    /// One of the four directions, drawn at random.
    pub fn generate_direction() -> (direction: Direction)
        ensures
            direction.is_chosen(),
    {
        let mut rng = rand::thread_rng();
        let random_number: i32 = gen_range_inclusive(&mut rng, 1, 4);
        Direction::from_draw(random_number)
    }
}

/// Which of the three behaviours a panel has.
#[derive(Clone, Copy, Debug, PartialEq, Eq, Structural)]
pub enum Animation {
    /// The panel stays where it is.
    Still,
    /// Once shown, the panel waits, slides away in a direction drawn at
    /// random, and hides itself.
    Swipe,
    /// While shown, the panel moves up and down between two bounds.
    Roll,
}

/// The parameters of a panel's motion.
pub struct Motion {
    /// The way the panel moves now.
    pub direction: Direction,
    /// The speed, in units per second.
    pub change_amount: u64,
    /// When the panel was last shown.
    pub initial_time: Option<u64>,
    /// How long after being shown the panel starts to slide.
    pub start_moving: Option<u64>,
    /// How long after being shown the panel hides itself.
    pub stop_moving: Option<u64>,
    /// The least vertical position before a bouncing panel turns down.
    pub lower_bound: Option<i64>,
    /// The vertical position that the lower edge of a bouncing panel reaches
    /// before it turns up.
    pub upper_bound: Option<i64>,
}

impl Motion {
    /// Whether the parameters that `animation` reads are there.
    pub open spec fn fits(self, animation: Animation) -> bool {
        match animation {
            Animation::Still => true,
            Animation::Swipe => self.initial_time is Some && self.start_moving is Some
                && self.stop_moving is Some,
            Animation::Roll => self.lower_bound is Some && self.upper_bound is Some,
        }
    }
}

/// The parameters of a panel's motion.
#[derive(Clone, Copy, Debug)]
pub struct AnimatedArguments {
    direction: Direction,
    change_amount: u64,
    initial_time: Option<u64>,
    start_moving: Option<u64>,
    stop_moving: Option<u64>,
    lower_bound: Option<i64>,
    upper_bound: Option<i64>,
}

impl View for AnimatedArguments {
    type V = Motion;

    closed spec fn view(&self) -> Motion {
        Motion {
            direction: self.direction,
            change_amount: self.change_amount,
            initial_time: self.initial_time,
            start_moving: self.start_moving,
            stop_moving: self.stop_moving,
            lower_bound: self.lower_bound,
            upper_bound: self.upper_bound,
        }
    }
}

impl AnimatedArguments {
    /// Parameters for a panel that slides away: it starts `start_moving`
    /// after it is shown, at `change_amount` units per second, and hides
    /// itself `stop_moving` after it is shown.
    pub fn for_swipe_animation(
        clock: Clock,
        change_amount: u64,
        start_moving: u64,
        stop_moving: u64,
    ) -> (args: AnimatedArguments)
        ensures
            args@ == (Motion {
                direction: Direction::Unkwon,
                change_amount: change_amount,
                initial_time: Some(clock.since_start),
                start_moving: Some(start_moving),
                stop_moving: Some(stop_moving),
                lower_bound: None,
                upper_bound: None,
            }),
    {
        AnimatedArguments {
            direction: Direction::Unkwon,
            change_amount,
            initial_time: Some(clock.since_start),
            start_moving: Some(start_moving),
            stop_moving: Some(stop_moving),
            lower_bound: None,
            upper_bound: None,
        }
    }

    /// Parameters for a panel that bounces at `change_amount` units per
    /// second, first in `direction`, between `lower_bound` and `upper_bound`.
    pub fn for_roll_animation(
        change_amount: u64,
        direction: Direction,
        lower_bound: i64,
        upper_bound: i64,
    ) -> (args: AnimatedArguments)
        ensures
            args@ == (Motion {
                direction: direction,
                change_amount: change_amount,
                initial_time: None,
                start_moving: None,
                stop_moving: None,
                lower_bound: Some(lower_bound),
                upper_bound: Some(upper_bound),
            }),
    {
        AnimatedArguments {
            direction,
            change_amount,
            initial_time: None,
            start_moving: None,
            stop_moving: None,
            lower_bound: Some(lower_bound),
            upper_bound: Some(upper_bound),
        }
    }

    /// Whether the parameters that `animation` reads are there.
    pub fn fits(&self, animation: Animation) -> (fit: bool)
        ensures
            fit == self@.fits(animation),
    {
        match animation {
            Animation::Still => true,
            Animation::Swipe => self.initial_time.is_some() && self.start_moving.is_some()
                && self.stop_moving.is_some(),
            Animation::Roll => self.lower_bound.is_some() && self.upper_bound.is_some(),
        }
    }

    /// The way the panel moves now.
    pub fn get_direction(&self) -> (direction: Direction)
        ensures
            direction == self@.direction,
    {
        self.direction
    }
}

impl Default for AnimatedArguments {
    /// Parameters for a panel that does not move.
    fn default() -> (args: AnimatedArguments)
        ensures
            args@ == (Motion {
                direction: Direction::Unkwon,
                change_amount: 0,
                initial_time: None,
                start_moving: None,
                stop_moving: None,
                lower_bound: None,
                upper_bound: None,
            }),
    {
        AnimatedArguments {
            direction: Direction::Unkwon,
            change_amount: 0,
            initial_time: None,
            start_moving: None,
            stop_moving: None,
            lower_bound: None,
            upper_bound: None,
        }
    }
}

/// A rectangle: its corner of least coordinates, its width and its height.
#[derive(Clone, Copy, Debug, PartialEq, Eq, Structural)]
pub struct Rect {
    pub x: i64,
    pub y: i64,
    pub w: i64,
    pub h: i64,
}

impl Rect {
    /// Whether the point `(x, y)` lies in the rectangle, its edges included.
    pub open spec fn holds(self, x: i64, y: i64) -> bool {
        &&& self.x <= x <= self.x + self.w
        &&& self.y <= y <= self.y + self.h
    }

    /// Whether the point `(x, y)` lies in the rectangle, its edges included.
    pub fn contains(&self, x: i64, y: i64) -> (inside: bool)
        ensures
            inside == self.holds(x, y),
    {
        x >= self.x && x as i128 <= self.x as i128 + self.w as i128 && y >= self.y && y as i128
            <= self.y as i128 + self.h as i128
    }
}

/// The distance covered in `delta` microseconds at `speed` units per second.
pub open spec fn travel(speed: u64, delta: u64) -> int {
    speed * delta / 1_000_000
}

/// The position nearest to `v` in the range of `i64`.
pub open spec fn clamp(v: int) -> i64 {
    if v < i64::MIN {
        i64::MIN
    } else if v > i64::MAX {
        i64::MAX
    } else {
        v as i64
    }
}

/// What is known of a panel: where it is, where it rests, whether it is
/// shown, and how it moves.
pub struct Panel {
    /// Where the panel is now.
    pub frame: Rect,
    /// The position of the panel's corner at rest.
    pub home: (i64, i64),
    /// Whether the panel is shown.
    pub visible: bool,
    /// The behaviour of the panel.
    pub animation: Animation,
    /// The parameters of the motion now.
    pub args: Motion,
    /// The parameters of the motion at rest.
    pub home_args: Motion,
}

impl Panel {
    /// The parameters that the panel's behaviour reads are there, now and at
    /// rest.
    pub open spec fn wf(self) -> bool {
        self.args.fits(self.animation) && self.home_args.fits(self.animation)
    }

    /// The panel moved by `distance` in `direction`.
    pub open spec fn shifted(self, direction: Direction, distance: int) -> Panel {
        match direction {
            Direction::Left => Panel {
                frame: Rect { x: clamp(self.frame.x - distance), ..self.frame },
                ..self
            },
            Direction::Right => Panel {
                frame: Rect { x: clamp(self.frame.x + distance), ..self.frame },
                ..self
            },
            Direction::Up => Panel {
                frame: Rect { y: clamp(self.frame.y - distance), ..self.frame },
                ..self
            },
            Direction::Down => Panel {
                frame: Rect { y: clamp(self.frame.y + distance), ..self.frame },
                ..self
            },
            Direction::Unkwon => self,
        }
    }

    /// One tick of a sliding panel. A hidden panel stays as it is. A panel
    /// that has no direction yet was just shown: it notes the time and takes
    /// the direction `drawn`. Once the start delay has passed since it was
    /// shown, it moves by the distance covered since the previous tick; once
    /// the whole duration has passed, it hides, returns to its place of rest
    /// and forgets its direction.
    pub open spec fn swipe(self, clock: Clock, drawn: Direction) -> Panel {
        if !self.visible {
            self
        } else {
            let shown = if self.args.direction == Direction::Unkwon {
                Panel {
                    args: Motion {
                        initial_time: Some(clock.since_start),
                        direction: drawn,
                        ..self.args
                    },
                    ..self
                }
            } else {
                self
            };
            let since = shown.args.initial_time->0;
            let moved = if clock.since_start >= shown.args.start_moving->0 + since {
                shown.shifted(shown.args.direction, travel(shown.args.change_amount, clock.delta))
            } else {
                shown
            };
            if clock.since_start >= shown.args.stop_moving->0 + since {
                Panel {
                    visible: false,
                    frame: Rect { x: self.home.0, y: self.home.1, ..self.frame },
                    args: Motion { direction: Direction::Unkwon, ..moved.args },
                    ..moved
                }
            } else {
                moved
            }
        }
    }

    /// Whether `next` is what one tick of a sliding panel can lead to,
    /// whichever direction is drawn.
    pub open spec fn swipes_to(self, clock: Clock, next: Panel) -> bool {
        exists|drawn: Direction| drawn.is_chosen() && next == #[trigger] self.swipe(clock, drawn)
    }

    /// One tick of a bouncing panel. Moving up, it rises by the distance
    /// covered since the previous tick and turns down if that brings it to
    /// the lower bound or beyond; moving down, it sinks by that distance and
    /// turns up if that brings its lower edge to the upper bound or beyond.
    pub open spec fn roll(self, clock: Clock) -> Panel {
        let distance = travel(self.args.change_amount, clock.delta);
        match self.args.direction {
            Direction::Up => {
                let moved = self.shifted(Direction::Up, distance);
                if moved.frame.y <= self.args.lower_bound->0 {
                    Panel { args: Motion { direction: Direction::Down, ..self.args }, ..moved }
                } else {
                    moved
                }
            },
            Direction::Down => {
                let moved = self.shifted(Direction::Down, distance);
                if moved.frame.y >= self.args.upper_bound->0 - self.frame.h {
                    Panel { args: Motion { direction: Direction::Up, ..self.args }, ..moved }
                } else {
                    moved
                }
            },
            _ => self,
        }
    }

    /// One tick of the panel: nothing while it is hidden, else one tick of
    /// its behaviour.
    pub open spec fn advance(self, clock: Clock, drawn: Direction) -> Panel {
        if !self.visible {
            self
        } else {
            match self.animation {
                Animation::Still => self,
                Animation::Swipe => self.swipe(clock, drawn),
                Animation::Roll => self.roll(clock),
            }
        }
    }

    /// Whether `next` is what one tick of the panel can lead to, whichever
    /// direction is drawn.
    pub open spec fn advances_to(self, clock: Clock, next: Panel) -> bool {
        exists|drawn: Direction| drawn.is_chosen() && next == #[trigger] self.advance(clock, drawn)
    }

    /// The panel hidden, at its place of rest, with the parameters of rest.
    pub open spec fn at_rest(self) -> Panel {
        Panel {
            visible: false,
            frame: Rect { x: self.home.0, y: self.home.1, ..self.frame },
            args: self.home_args,
            ..self
        }
    }
}

/// A tick leaves the parameters that the panel's behaviour reads in place.
pub proof fn law_advance_keeps_wf(panel: Panel, clock: Clock, drawn: Direction)
    requires
        panel.wf(),
    ensures
        panel.advance(clock, drawn).wf(),
        panel.advance(clock, drawn).animation == panel.animation,
        panel.advance(clock, drawn).home == panel.home,
        panel.advance(clock, drawn).home_args == panel.home_args,
        panel.at_rest().wf(),
{
}

/// A sliding panel that is shown keeps its place until the start delay has
/// passed since it was shown.
pub proof fn law_swipe_waits(panel: Panel, clock: Clock, drawn: Direction)
    requires
        panel.visible,
        panel.args.direction.is_chosen(),
        clock.since_start < panel.args.start_moving->0 + panel.args.initial_time->0,
        clock.since_start < panel.args.stop_moving->0 + panel.args.initial_time->0,
    ensures
        panel.swipe(clock, drawn) == panel,
{
}

/// Once the whole duration has passed since a sliding panel was shown, the
/// tick hides it at its place of rest, without a direction.
pub proof fn law_swipe_ends_at_rest(panel: Panel, clock: Clock, drawn: Direction)
    requires
        panel.visible,
        panel.args.direction.is_chosen(),
        clock.since_start >= panel.args.stop_moving->0 + panel.args.initial_time->0,
    ensures
        !panel.swipe(clock, drawn).visible,
        panel.swipe(clock, drawn).frame.x == panel.home.0,
        panel.swipe(clock, drawn).frame.y == panel.home.1,
        panel.swipe(clock, drawn).args.direction == Direction::Unkwon,
{
}

/// A sliding panel that was just shown takes the direction drawn and counts
/// its delays from this tick.
pub proof fn law_swipe_starts_when_shown(panel: Panel, clock: Clock, drawn: Direction)
    requires
        panel.visible,
        panel.args.direction == Direction::Unkwon,
        panel.args.stop_moving->0 > 0,
    ensures
        panel.swipe(clock, drawn).visible,
        panel.swipe(clock, drawn).args.initial_time == Some(clock.since_start),
        panel.swipe(clock, drawn).args.direction == drawn,
{
}

/// A panel that bounces upwards turns down on the very tick that brings it
/// to its lower bound or beyond, and not before; having turned, it does not
/// rise on the next tick.
pub proof fn law_bounce_turns_at_lower_bound(panel: Panel, first: Clock, second: Clock)
    requires
        panel.args.direction == Direction::Up,
    ensures
        ({
            let turned = panel.roll(first);
            let lower = panel.args.lower_bound->0;
            &&& turned.frame.y <= panel.frame.y
            &&& turned.frame.y <= lower <==> turned.args.direction == Direction::Down
            &&& turned.frame.y > lower <==> turned.args.direction == Direction::Up
            &&& turned.frame.y <= lower ==> turned.roll(second).frame.y >= turned.frame.y
            &&& turned.frame.y > lower ==> turned.roll(second).frame.y <= turned.frame.y
        }),
{
    lemma_travel_not_negative(panel.args.change_amount, first.delta);
    lemma_travel_not_negative(panel.args.change_amount, second.delta);
}

/// A panel that bounces downwards turns up on the very tick that brings its
/// lower edge to the upper bound or beyond, and not before; having turned, it
/// does not sink on the next tick.
pub proof fn law_bounce_turns_at_upper_bound(panel: Panel, first: Clock, second: Clock)
    requires
        panel.args.direction == Direction::Down,
    ensures
        ({
            let turned = panel.roll(first);
            let upper = panel.args.upper_bound->0 - panel.frame.h;
            &&& turned.frame.y >= panel.frame.y
            &&& turned.frame.y >= upper <==> turned.args.direction == Direction::Up
            &&& turned.frame.y < upper <==> turned.args.direction == Direction::Down
            &&& turned.frame.y >= upper ==> turned.roll(second).frame.y <= turned.frame.y
            &&& turned.frame.y < upper ==> turned.roll(second).frame.y >= turned.frame.y
        }),
{
    lemma_travel_not_negative(panel.args.change_amount, first.delta);
    lemma_travel_not_negative(panel.args.change_amount, second.delta);
}

proof fn lemma_travel_not_negative(speed: u64, delta: u64)
    ensures
        0 <= speed * delta <= u64::MAX * u64::MAX,
        0 <= travel(speed, delta) <= u64::MAX * u64::MAX,
        u64::MAX * u64::MAX < u128::MAX,
{
    assert(0 <= speed * delta <= u64::MAX * u64::MAX) by (nonlinear_arith)
        requires
            0 <= speed <= u64::MAX,
            0 <= delta <= u64::MAX,
    ;
}

/// The distance covered in `delta` microseconds at `speed` units per second.
fn distance_covered(speed: u64, delta: u64) -> (distance: u128)
    ensures
        distance == travel(speed, delta),
{
    proof {
        lemma_travel_not_negative(speed, delta);
    }
    (speed as u128 * delta as u128) / 1_000_000
}

/// The position `distance` further on, or further back, kept in range.
fn moved_by(position: i64, distance: u128, forward: bool) -> (target: i64)
    ensures
        forward ==> target == clamp(position + distance),
        !forward ==> target == clamp(position - distance),
{
    let step: i128 = if distance > u64::MAX as u128 {
        u64::MAX as i128
    } else {
        distance as i128
    };
    let reached: i128 = if forward {
        position as i128 + step
    } else {
        position as i128 - step
    };
    if reached > i64::MAX as i128 {
        i64::MAX
    } else if reached < i64::MIN as i128 {
        i64::MIN
    } else {
        reached as i64
    }
}

/// A panel that can be shown, hidden and moved with time.
#[derive(Clone, Copy, Debug)]
pub struct AnimatedBox {
    initial_position: (i64, i64),
    floating_box: Rect,
    animation: Animation,
    args: AnimatedArguments,
    initial_args: AnimatedArguments,
    is_visible: bool,
}

impl View for AnimatedBox {
    type V = Panel;

    closed spec fn view(&self) -> Panel {
        Panel {
            frame: self.floating_box,
            home: self.initial_position,
            visible: self.is_visible,
            animation: self.animation,
            args: self.args@,
            home_args: self.initial_args@,
        }
    }
}

impl AnimatedBox {
    /// A hidden panel at rest at `(offset_x, offset_y)`.
    pub fn new(
        offset_x: i64,
        offset_y: i64,
        width: i64,
        height: i64,
        animation: Animation,
        args: AnimatedArguments,
    ) -> (panel: AnimatedBox)
        requires
            args@.fits(animation),
        ensures
            panel@.wf(),
            panel@ == (Panel {
                frame: Rect { x: offset_x, y: offset_y, w: width, h: height },
                home: (offset_x, offset_y),
                visible: false,
                animation: animation,
                args: args@,
                home_args: args@,
            }),
    {
        AnimatedBox {
            initial_position: (offset_x, offset_y),
            floating_box: Rect { x: offset_x, y: offset_y, w: width, h: height },
            animation,
            args,
            initial_args: args,
            is_visible: false,
        }
    }

    /// Moves the panel by one tick, if it is shown.
    pub fn update_animated_box(&mut self, clock: Clock)
        requires
            old(self)@.wf(),
        ensures
            final(self)@.wf(),
            old(self)@.advances_to(clock, final(self)@),
    {
        let ghost before = self@;
        if self.is_on_screen() {
            match self.animation {
                Animation::Still => {
                    no_animation(self, clock);
                    assert(self@ == before.advance(clock, Direction::Left));
                },
                Animation::Swipe => {
                    swipe_animation(self, clock);
                    let ghost drawn = choose|drawn: Direction|
                        drawn.is_chosen() && self@ == #[trigger] before.swipe(clock, drawn);
                    assert(self@ == before.advance(clock, drawn));
                    proof {
                        law_advance_keeps_wf(before, clock, drawn);
                    }
                },
                Animation::Roll => {
                    roll_animation(self, clock);
                    assert(self@ == before.advance(clock, Direction::Left));
                },
            }
        } else {
            assert(self@ == before.advance(clock, Direction::Left));
        }
    }

    /// Whether the panel is shown.
    pub fn is_on_screen(&self) -> (shown: bool)
        ensures
            shown == self@.visible,
    {
        self.is_visible == true
    }

    /// Shows the panel.
    pub fn put_on_screen(&mut self)
        ensures
            final(self)@ == (Panel { visible: true, ..old(self)@ }),
    {
        self.is_visible = true;
    }

    /// Hides the panel, puts it back at its place of rest and gives its
    /// motion the parameters it was made with.
    pub fn restore(&mut self)
        ensures
            final(self)@ == old(self)@.at_rest(),
    {
        self.is_visible = false;
        self.floating_box.x = self.initial_position.0;
        self.floating_box.y = self.initial_position.1;
        self.args = self.initial_args;
    }

    /// Whether the point `(x, y)` lies in the panel where it is now, shown or
    /// not.
    pub fn point_is_in(&self, x: i64, y: i64) -> (inside: bool)
        ensures
            inside == self@.frame.holds(x, y),
    {
        self.floating_box.contains(x, y)
    }

    /// Where the panel is now.
    pub fn get_box(&self) -> (frame: Rect)
        ensures
            frame == self@.frame,
    {
        self.floating_box
    }

    /// The behaviour of the panel.
    pub fn get_animation(&self) -> (animation: Animation)
        ensures
            animation == self@.animation,
    {
        self.animation
    }

    /// The parameters of the panel's motion now.
    pub fn get_args(&self) -> (args: AnimatedArguments)
        ensures
            args@ == self@.args,
    {
        self.args
    }
}

/// One tick of a sliding panel whose direction, if it needs one, is `drawn`.
pub fn swipe_animation_with(obj: &mut AnimatedBox, clock: Clock, drawn: Direction)
    requires
        old(obj)@.args.fits(Animation::Swipe),
    ensures
        final(obj)@ == old(obj)@.swipe(clock, drawn),
{
    if obj.is_visible == false {
        return ;
    }
    if obj.args.direction == Direction::Unkwon {
        obj.args.initial_time = Some(clock.since_start);
        obj.args.direction = drawn;
    }
    let since: u128 = obj.args.initial_time.unwrap() as u128;
    let now: u128 = clock.since_start as u128;
    if now >= obj.args.start_moving.unwrap() as u128 + since {
        let distance: u128 = distance_covered(obj.args.change_amount, clock.delta);
        match obj.args.direction {
            Direction::Left => {
                obj.floating_box.x = moved_by(obj.floating_box.x, distance, false);
            },
            Direction::Right => {
                obj.floating_box.x = moved_by(obj.floating_box.x, distance, true);
            },
            Direction::Up => {
                obj.floating_box.y = moved_by(obj.floating_box.y, distance, false);
            },
            Direction::Down => {
                obj.floating_box.y = moved_by(obj.floating_box.y, distance, true);
            },
            _ => {},
        }
    }
    if now >= obj.args.stop_moving.unwrap() as u128 + since {
        obj.is_visible = false;
        obj.floating_box.x = obj.initial_position.0;
        obj.floating_box.y = obj.initial_position.1;
        obj.args.direction = Direction::Unkwon;
    }
}

/// One tick of a sliding panel. A panel that was just shown slides in a
/// direction drawn at random.
pub fn swipe_animation(obj: &mut AnimatedBox, clock: Clock)
    requires
        old(obj)@.args.fits(Animation::Swipe),
    ensures
        old(obj)@.swipes_to(clock, final(obj)@),
{
    let drawn = if obj.is_visible && obj.args.direction == Direction::Unkwon {
        Direction::generate_direction()
    } else {
        Direction::Left
    };
    swipe_animation_with(obj, clock, drawn);
}

/// One tick of a bouncing panel.
pub fn roll_animation(obj: &mut AnimatedBox, clock: Clock)
    requires
        old(obj)@.args.fits(Animation::Roll),
    ensures
        final(obj)@ == old(obj)@.roll(clock),
{
    let lower_bound: i64 = obj.args.lower_bound.unwrap();
    let upper_bound: i128 = obj.args.upper_bound.unwrap() as i128 - obj.floating_box.h as i128;
    match obj.args.direction {
        Direction::Up => {
            let distance: u128 = distance_covered(obj.args.change_amount, clock.delta);
            obj.floating_box.y = moved_by(obj.floating_box.y, distance, false);
            if obj.floating_box.y <= lower_bound {
                obj.args.direction = Direction::Down;
            }
        },
        Direction::Down => {
            let distance: u128 = distance_covered(obj.args.change_amount, clock.delta);
            obj.floating_box.y = moved_by(obj.floating_box.y, distance, true);
            if obj.floating_box.y as i128 >= upper_bound {
                obj.args.direction = Direction::Up;
            }
        },
        _ => {},
    }
}

/// One tick of a panel that stays where it is.
pub fn no_animation(obj: &mut AnimatedBox, clock: Clock)
    ensures
        final(obj)@ == old(obj)@,
{
}

} // verus!

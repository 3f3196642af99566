use wordle::animation::{
    no_animation, roll_animation, swipe_animation, swipe_animation_with, AnimatedArguments,
    AnimatedBox, Animation, Clock, Direction, Rect,
};

fn tick(since_start: u64, delta: u64) -> Clock {
    Clock { since_start, delta }
}

fn notice() -> AnimatedBox {
    // Slides at 630 units per second, from 1.25 s to 2.5 s after it is shown.
    let args = AnimatedArguments::for_swipe_animation(tick(0, 0), 630, 1_250_000, 2_500_000);
    AnimatedBox::new(100, 200, 30, 40, Animation::Swipe, args)
}

fn button(direction: Direction, y: i64) -> AnimatedBox {
    // Bounces at 40 units per second between 55 and 432, and is 100 high.
    let args = AnimatedArguments::for_roll_animation(40, direction, 55, 432);
    AnimatedBox::new(10, y, 120, 100, Animation::Roll, args)
}

#[test]
fn draw_stands_for_a_direction() {
    assert_eq!(Direction::from_draw(1), Direction::Left);
    assert_eq!(Direction::from_draw(2), Direction::Right);
    assert_eq!(Direction::from_draw(3), Direction::Up);
    assert_eq!(Direction::from_draw(4), Direction::Down);
    assert_eq!(Direction::from_draw(0), Direction::Unkwon);
    assert_eq!(Direction::from_draw(5), Direction::Unkwon);
    assert_eq!(Direction::from_draw(-1), Direction::Unkwon);
}

#[test]
fn generated_direction_is_one_of_four() {
    let mut seen = [false; 4];
    for _ in 0..400 {
        match Direction::generate_direction() {
            Direction::Left => seen[0] = true,
            Direction::Right => seen[1] = true,
            Direction::Up => seen[2] = true,
            Direction::Down => seen[3] = true,
            Direction::Unkwon => panic!("no direction was drawn"),
        }
    }
    assert_eq!(seen, [true; 4]);
}

#[test]
fn new_panel_is_hidden_at_rest() {
    let panel = notice();
    assert!(!panel.is_on_screen());
    assert_eq!(panel.get_box(), Rect { x: 100, y: 200, w: 30, h: 40 });
    assert_eq!(panel.get_animation(), Animation::Swipe);
    assert_eq!(panel.get_args().get_direction(), Direction::Unkwon);
    assert_eq!(AnimatedArguments::default().get_direction(), Direction::Unkwon);
}

#[test]
fn hidden_panel_does_not_move() {
    let mut panel = button(Direction::Up, 300);
    panel.update_animated_box(tick(1_000_000, 500_000));
    assert_eq!(panel.get_box().y, 300);
    let mut panel = notice();
    panel.update_animated_box(tick(9_000_000, 500_000));
    assert_eq!(panel.get_box(), Rect { x: 100, y: 200, w: 30, h: 40 });
    assert!(!panel.is_on_screen());
}

#[test]
fn still_panel_stays() {
    let mut panel =
        AnimatedBox::new(1, 2, 3, 4, Animation::Still, AnimatedArguments::default());
    panel.put_on_screen();
    panel.update_animated_box(tick(5_000_000, 1_000_000));
    no_animation(&mut panel, tick(6_000_000, 1_000_000));
    assert!(panel.is_on_screen());
    assert_eq!(panel.get_box(), Rect { x: 1, y: 2, w: 3, h: 4 });
}

#[test]
fn notice_waits_then_slides_then_hides() {
    let mut panel = notice();
    panel.put_on_screen();
    // Shown at 10 s: the delays count from here.
    swipe_animation_with(&mut panel, tick(10_000_000, 16_000), Direction::Right);
    assert_eq!(panel.get_args().get_direction(), Direction::Right);
    assert_eq!(panel.get_box().x, 100);
    swipe_animation_with(&mut panel, tick(11_249_999, 16_000), Direction::Left);
    assert_eq!(panel.get_box().x, 100);
    // 630 units per second for 100 ms are 63 units.
    swipe_animation_with(&mut panel, tick(11_250_000, 100_000), Direction::Left);
    assert_eq!(panel.get_box(), Rect { x: 163, y: 200, w: 30, h: 40 });
    swipe_animation_with(&mut panel, tick(11_350_000, 100_000), Direction::Left);
    assert_eq!(panel.get_box().x, 226);
    assert!(panel.is_on_screen());
    swipe_animation_with(&mut panel, tick(12_500_000, 100_000), Direction::Left);
    assert!(!panel.is_on_screen());
    assert_eq!(panel.get_box(), Rect { x: 100, y: 200, w: 30, h: 40 });
    assert_eq!(panel.get_args().get_direction(), Direction::Unkwon);
}

#[test]
fn notice_slides_each_way() {
    let ways = [
        (Direction::Left, 37, 200),
        (Direction::Right, 163, 200),
        (Direction::Up, 100, 137),
        (Direction::Down, 100, 263),
    ];
    for (direction, x, y) in ways {
        let mut panel = notice();
        panel.put_on_screen();
        swipe_animation_with(&mut panel, tick(0, 0), direction);
        swipe_animation_with(&mut panel, tick(2_000_000, 100_000), Direction::Unkwon);
        assert_eq!(panel.get_box(), Rect { x, y, w: 30, h: 40 });
    }
}

#[test]
fn notice_starts_over_when_shown_again() {
    let mut panel = notice();
    panel.put_on_screen();
    swipe_animation_with(&mut panel, tick(1_000_000, 0), Direction::Up);
    swipe_animation_with(&mut panel, tick(3_500_000, 0), Direction::Up);
    assert!(!panel.is_on_screen());
    panel.put_on_screen();
    swipe_animation_with(&mut panel, tick(4_000_000, 1_000_000), Direction::Down);
    assert!(panel.is_on_screen());
    assert_eq!(panel.get_args().get_direction(), Direction::Down);
    assert_eq!(panel.get_box().y, 200);
    swipe_animation_with(&mut panel, tick(5_250_000, 1_000_000), Direction::Up);
    assert_eq!(panel.get_box().y, 830);
}

#[test]
fn notice_with_a_random_direction_ends_at_rest() {
    for _ in 0..20 {
        let mut panel = notice();
        panel.put_on_screen();
        swipe_animation(&mut panel, tick(1_000_000, 16_000));
        assert!(panel.is_on_screen());
        assert_ne!(panel.get_args().get_direction(), Direction::Unkwon);
        assert_eq!(panel.get_box(), Rect { x: 100, y: 200, w: 30, h: 40 });
        panel.update_animated_box(tick(2_250_000, 100_000));
        let moved = panel.get_box();
        let shift = (moved.x - 100).abs() + (moved.y - 200).abs();
        assert_eq!(shift, 63);
        panel.update_animated_box(tick(3_500_000, 100_000));
        assert!(!panel.is_on_screen());
        assert_eq!(panel.get_box(), Rect { x: 100, y: 200, w: 30, h: 40 });
    }
}

#[test]
fn button_turns_down_at_the_lower_bound() {
    // Starts above the upper bound, moving up: 40 units per second.
    let mut panel = button(Direction::Up, 500);
    panel.put_on_screen();
    let mut last = 500;
    let mut now = 0;
    let mut turned = false;
    for _ in 0..40 {
        now += 500_000;
        panel.update_animated_box(tick(now, 500_000));
        let y = panel.get_box().y;
        if turned {
            assert_eq!(y, last + 20);
            break;
        }
        assert_eq!(y, last - 20);
        turned = y <= 55;
        assert_eq!(
            panel.get_args().get_direction(),
            if turned { Direction::Down } else { Direction::Up }
        );
        last = y;
    }
    assert!(turned);
    assert_eq!(last, 40);
}

#[test]
fn button_turns_up_at_the_upper_bound() {
    let mut panel = button(Direction::Down, 300);
    panel.put_on_screen();
    roll_animation(&mut panel, tick(0, 500_000));
    assert_eq!(panel.get_box().y, 320);
    assert_eq!(panel.get_args().get_direction(), Direction::Down);
    // The lower edge reaches 432 when the corner reaches 332.
    roll_animation(&mut panel, tick(0, 300_000));
    assert_eq!(panel.get_box().y, 332);
    assert_eq!(panel.get_args().get_direction(), Direction::Up);
    roll_animation(&mut panel, tick(0, 300_000));
    assert_eq!(panel.get_box().y, 320);
    assert_eq!(panel.get_args().get_direction(), Direction::Up);
}

#[test]
fn button_without_a_vertical_direction_stays() {
    let mut panel = button(Direction::Left, 300);
    panel.put_on_screen();
    roll_animation(&mut panel, tick(0, 1_000_000));
    assert_eq!(panel.get_box(), Rect { x: 10, y: 300, w: 120, h: 100 });
    assert_eq!(panel.get_args().get_direction(), Direction::Left);
}

#[test]
fn distance_is_rounded_down() {
    let mut panel = button(Direction::Down, 100);
    panel.put_on_screen();
    // 40 units per second for 24.999 ms are 0.99996 units.
    roll_animation(&mut panel, tick(0, 24_999));
    assert_eq!(panel.get_box().y, 100);
    roll_animation(&mut panel, tick(0, 25_000));
    assert_eq!(panel.get_box().y, 101);
}

#[test]
fn position_stops_at_the_end_of_the_range() {
    let args = AnimatedArguments::for_roll_animation(u64::MAX, Direction::Up, i64::MIN, i64::MAX);
    let mut panel = AnimatedBox::new(0, 0, 10, 10, Animation::Roll, args);
    panel.put_on_screen();
    roll_animation(&mut panel, tick(0, u64::MAX));
    assert_eq!(panel.get_box().y, i64::MIN);
    assert_eq!(panel.get_args().get_direction(), Direction::Down);
    roll_animation(&mut panel, tick(0, u64::MAX));
    assert_eq!(panel.get_box().y, i64::MAX);
    assert_eq!(panel.get_args().get_direction(), Direction::Up);
}

#[test]
fn restored_panel_is_as_new() {
    let mut panel = button(Direction::Up, 60);
    panel.put_on_screen();
    panel.update_animated_box(tick(0, 500_000));
    assert_eq!(panel.get_args().get_direction(), Direction::Down);
    panel.restore();
    assert!(!panel.is_on_screen());
    assert_eq!(panel.get_box(), Rect { x: 10, y: 60, w: 120, h: 100 });
    assert_eq!(panel.get_args().get_direction(), Direction::Up);
}

#[test]
fn rectangle_holds_its_edges() {
    let rect = Rect { x: 10, y: 20, w: 30, h: 40 };
    assert!(rect.contains(10, 20));
    assert!(rect.contains(40, 60));
    assert!(rect.contains(25, 35));
    assert!(!rect.contains(9, 20));
    assert!(!rect.contains(41, 20));
    assert!(!rect.contains(10, 19));
    assert!(!rect.contains(10, 61));
    let wide = Rect { x: i64::MAX - 1, y: 0, w: i64::MAX, h: 0 };
    assert!(wide.contains(i64::MAX, 0));
    assert!(!wide.contains(i64::MAX - 2, 0));
}

#[test]
fn point_is_in_the_panel_where_it_is() {
    let mut panel = button(Direction::Down, 300);
    assert!(panel.point_is_in(10, 300));
    assert!(panel.point_is_in(130, 400));
    assert!(!panel.point_is_in(130, 401));
    panel.put_on_screen();
    roll_animation(&mut panel, tick(0, 500_000));
    assert!(!panel.point_is_in(10, 300));
    assert!(panel.point_is_in(130, 420));
}

#[test]
fn arguments_fit_the_animation_they_are_made_for() {
    let swipe = AnimatedArguments::for_swipe_animation(tick(0, 0), 1, 2, 3);
    let roll = AnimatedArguments::for_roll_animation(1, Direction::Up, 2, 3);
    let none = AnimatedArguments::default();
    assert!(swipe.fits(Animation::Swipe) && swipe.fits(Animation::Still));
    assert!(!swipe.fits(Animation::Roll));
    assert!(roll.fits(Animation::Roll) && roll.fits(Animation::Still));
    assert!(!roll.fits(Animation::Swipe));
    assert!(none.fits(Animation::Still));
    assert!(!none.fits(Animation::Swipe) && !none.fits(Animation::Roll));
}

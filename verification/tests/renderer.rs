use pathtracer::primitives::{Rect, Vec2i, Vec3};
use pathtracer::renderer::{
    check_direction, enter, is_walkable, line_bounds, resume, tile_pixels, trace_window, Ending,
    Event, RenderError, RenderProperties, Step, T_MIN_BITS,
};
use pathtracer::scalar::Scalar;

fn s(x: f32) -> Scalar {
    Scalar::from_bits(x.to_bits())
}

fn pairs(coords: Vec<Vec2i>) -> Vec<(i32, i32)> {
    coords.iter().map(|c| (c.x, c.y)).collect()
}

#[test]
fn render_properties_hold_their_settings() {
    let props = RenderProperties { samples: 10, bounces: 50 };
    assert_eq!(props.samples, 10);
    assert_eq!(props.bounces, 50);
}

#[test]
fn tile_is_walked_row_by_row() {
    let coords = tile_pixels(Rect { x: 1, y: 2, w: 3, h: 2 });
    assert_eq!(pairs(coords), vec![(1, 2), (2, 2), (3, 2), (1, 3), (2, 3), (3, 3)]);
}

#[test]
fn tile_may_lie_below_zero() {
    let coords = tile_pixels(Rect { x: -1, y: -2, w: 2, h: 2 });
    assert_eq!(pairs(coords), vec![(-1, -2), (0, -2), (-1, -1), (0, -1)]);
}

#[test]
fn tile_of_one_pixel() {
    assert_eq!(pairs(tile_pixels(Rect { x: 7, y: 9, w: 1, h: 1 })), vec![(7, 9)]);
}

#[test]
fn tile_without_width_or_height_is_empty() {
    assert!(tile_pixels(Rect { x: 0, y: 0, w: 0, h: 5 }).is_empty());
    assert!(tile_pixels(Rect { x: 0, y: 0, w: 5, h: 0 }).is_empty());
    assert!(tile_pixels(Rect { x: 3, y: 3, w: -2, h: 4 }).is_empty());
    assert!(tile_pixels(Rect { x: 3, y: 3, w: 2, h: -4 }).is_empty());
}

#[test]
fn tile_holds_width_times_height_pixels() {
    let bounds = Rect { x: 10, y: 20, w: 17, h: 13 };
    let coords = tile_pixels(bounds);
    assert_eq!(coords.len(), 17 * 13);
    for r in 0..13 {
        for c in 0..17 {
            let at = coords[(r * 17 + c) as usize];
            assert_eq!((at.x, at.y), (10 + c, 20 + r));
        }
    }
}

#[test]
fn line_is_a_tile_one_row_high() {
    let bounds = line_bounds(5, Vec2i { x: 4, y: 3 });
    assert_eq!((bounds.x, bounds.y, bounds.w, bounds.h), (0, 5, 4, 1));
    assert_eq!(pairs(tile_pixels(bounds)), vec![(0, 5), (1, 5), (2, 5), (3, 5)]);
}

#[test]
fn walkable_tiles() {
    assert!(is_walkable(Rect { x: 0, y: 0, w: 240, h: 160 }));
    assert!(is_walkable(Rect { x: -5, y: -5, w: 0, h: -1 }));
    assert!(is_walkable(Rect { x: i32::MAX, y: 0, w: 0, h: 1 }));
    assert!(is_walkable(Rect { x: i32::MAX - 2, y: i32::MIN, w: 2, h: 3 }));
    assert!(!is_walkable(Rect { x: i32::MAX, y: 0, w: 1, h: 1 }));
    assert!(!is_walkable(Rect { x: 0, y: i32::MAX, w: 1, h: 1 }));
    assert!(!is_walkable(Rect { x: i32::MIN, y: 0, w: -1, h: 1 }));
    assert!(!is_walkable(Rect { x: 0, y: 0, w: i32::MAX, h: i32::MAX }));
}

#[test]
fn no_depth_ends_in_black_at_once() {
    assert_eq!(enter(0), Step::Finish(Ending::Black));
    assert_eq!(resume(0, Event::Miss), Step::Finish(Ending::Black));
    assert_eq!(resume(0, Event::Scattered), Step::Finish(Ending::Black));
}

#[test]
fn depth_opens_a_path() {
    assert_eq!(enter(1), Step::Trace { depth: 1 });
    assert_eq!(enter(50), Step::Trace { depth: 50 });
}

#[test]
fn a_miss_ends_in_the_sky() {
    assert_eq!(resume(3, Event::Miss), Step::Finish(Ending::Sky));
}

#[test]
fn an_absorbing_surface_ends_in_black() {
    assert_eq!(resume(3, Event::Absorbed), Step::Finish(Ending::Black));
}

#[test]
fn a_scattering_surface_goes_one_deeper() {
    assert_eq!(resume(3, Event::Scattered), Step::Trace { depth: 2 });
    assert_eq!(resume(1, Event::Scattered), Step::Finish(Ending::Black));
}

#[test]
fn a_path_traces_no_more_rays_than_its_depth() {
    for depth in [0u32, 1, 2, 50] {
        let mut traced: u32 = 0;
        let mut step = enter(depth);
        let ending = loop {
            match step {
                Step::Finish(e) => break e,
                Step::Trace { depth: d } => {
                    traced += 1;
                    step = resume(d, Event::Scattered);
                }
            }
        };
        assert_eq!(traced, depth);
        assert_eq!(ending, Ending::Black);
    }
}

#[test]
fn a_path_ends_where_the_scene_ends_it() {
    let events = [Event::Scattered, Event::Scattered, Event::Miss, Event::Scattered];
    let mut step = enter(50);
    let mut k = 0;
    let ending = loop {
        match step {
            Step::Finish(e) => break e,
            Step::Trace { depth } => {
                step = resume(depth, events[k]);
                k += 1;
            }
        }
    };
    assert_eq!(k, 3);
    assert_eq!(ending, Ending::Sky);
}

#[test]
fn direction_must_hold_numbers() {
    let dir = Vec3::new(s(0.1), s(-0.2), s(-1.0));
    assert_eq!(check_direction(dir), Ok(()));
    let inf = Vec3::new(s(f32::INFINITY), s(0.0), s(0.0));
    assert_eq!(check_direction(inf), Ok(()));
    for at in 0..3 {
        let mut c = [0.5f32, 0.5, 0.5];
        c[at] = f32::NAN;
        let dir = Vec3::new(s(c[0]), s(c[1]), s(c[2]));
        assert_eq!(check_direction(dir), Err(RenderError::NanDirection));
    }
}

#[test]
fn hits_are_sought_from_a_thousandth_to_infinity() {
    assert_eq!(T_MIN_BITS, 0.001f32.to_bits());
    let (t_min, t_max) = trace_window();
    assert_eq!(f32::from_bits(t_min.bits), 0.001);
    assert_eq!(f32::from_bits(t_max.bits), f32::INFINITY);
    assert!(s(0.0).lt(t_min));
}

use raytracer::collector::Collector;
use raytracer::collector::RenderMessage;
use raytracer::dispatch::plan_render_threads;
use raytracer::dispatch::render_message;
use raytracer::render::ray_color;
use raytracer::render::render_pixel;
use raytracer::render::Bounce;
use raytracer::render::RenderParams;
use raytracer::render::Scene;
use raytracer::vec2::Vec2;

/// What a ray of the toy scene meets: rays are numbers, and so are colors.
#[derive(Clone, Copy)]
enum Meets {
    Nothing,
    Soot,
    Mirror { next: usize, attenuation: u64 },
}

/// A scene whose answers are written down, and which counts its questions.
struct Toy {
    meets: Vec<Meets>,
    bounces: std::cell::Cell<usize>,
    samples: std::cell::Cell<usize>,
}

impl Toy {
    fn new(meets: Vec<Meets>) -> Toy {
        Toy { meets, bounces: std::cell::Cell::new(0), samples: std::cell::Cell::new(0) }
    }

    /// Ray 0 meets nothing, ray 1 meets soot, and every ray above is
    /// mirrored on to the ray below it, dimmed to a half, a third, ...
    fn ladder(rungs: usize) -> Toy {
        let mut meets = vec![Meets::Nothing, Meets::Soot];
        for rung in 2..rungs {
            meets.push(Meets::Mirror { next: rung - 2, attenuation: rung as u64 });
        }
        Toy::new(meets)
    }

    /// Every ray is mirrored on to itself, undimmed.
    fn hall_of_mirrors() -> Toy {
        Toy::new(vec![Meets::Mirror { next: 0, attenuation: 1 }])
    }
}

impl Scene for Toy {
    type Ray = usize;

    type Color = u64;

    fn black(&self) -> u64 {
        0
    }

    fn background(&self, ray: &usize, debug: bool) -> u64 {
        if debug {
            7
        } else {
            1000 + *ray as u64
        }
    }

    fn bounce(&self, ray: &usize) -> Bounce<usize, u64> {
        self.bounces.set(self.bounces.get() + 1);
        match self.meets[*ray] {
            Meets::Nothing => Bounce::Missed,
            Meets::Soot => Bounce::Absorbed,
            Meets::Mirror { next, attenuation } => Bounce::Scattered { ray: next, attenuation },
        }
    }

    fn attenuate(&self, attenuation: u64, color: u64) -> u64 {
        attenuation * color
    }

    fn sample(&self, pixel: Vec2<usize>, last_pixel: Vec2<usize>) -> usize {
        self.samples.set(self.samples.get() + 1);
        (pixel.x() + pixel.y() * (last_pixel.x() + 1)) % self.meets.len()
    }

    fn accumulate(&self, sum: u64, color: u64) -> u64 {
        sum + color
    }

    fn finish(&self, sum: u64, samples: usize) -> u64 {
        sum * 100 + samples as u64
    }
}

fn params(width: usize, height: usize, samples_per_pixel: usize, max_bounces: usize) -> RenderParams {
    RenderParams::for_image(width, height, samples_per_pixel, max_bounces)
}

#[test]
fn ray_color_without_a_bounce_left_is_black() {
    let toy = Toy::ladder(8);
    for ray in 0..8 {
        assert_eq!(ray_color(&toy, &ray, 0, false), 0);
        assert_eq!(ray_color(&toy, &ray, 0, true), 0);
    }
    assert_eq!(toy.bounces.get(), 0);
}

#[test]
fn ray_color_of_a_ray_that_strikes_nothing_is_the_background() {
    let toy = Toy::ladder(8);
    assert_eq!(ray_color(&toy, &0, 1, false), 1000);
    assert_eq!(ray_color(&toy, &0, 50, false), 1000);
    assert_eq!(toy.bounces.get(), 2);
}

#[test]
fn ray_color_in_an_empty_scene_is_the_background_of_the_ray() {
    let empty = Toy::new(vec![Meets::Nothing; 5]);
    for ray in 0..5 {
        assert_eq!(ray_color(&empty, &ray, 3, false), 1000 + ray as u64);
    }
}

#[test]
fn ray_color_with_debugging_shows_the_debug_background() {
    let toy = Toy::ladder(8);
    assert_eq!(ray_color(&toy, &0, 1, true), 7);
    assert_eq!(ray_color(&toy, &2, 2, true), 2 * 7);
}

#[test]
fn ray_color_of_an_absorbed_ray_is_black() {
    let toy = Toy::ladder(8);
    assert_eq!(ray_color(&toy, &1, 1, false), 0);
    assert_eq!(ray_color(&toy, &1, 50, false), 0);
}

#[test]
fn ray_color_of_a_scattered_ray_is_dimmed_by_every_surface() {
    let toy = Toy::ladder(8);
    assert_eq!(ray_color(&toy, &2, 2, false), 2 * 1000);
    assert_eq!(ray_color(&toy, &4, 3, false), 4 * 2 * 1000);
    assert_eq!(ray_color(&toy, &6, 50, false), 6 * 4 * 2 * 1000);
}

#[test]
fn ray_color_of_a_ray_scattered_into_soot_is_black() {
    let toy = Toy::ladder(8);
    assert_eq!(ray_color(&toy, &3, 2, false), 0);
    assert_eq!(ray_color(&toy, &7, 50, false), 0);
}

#[test]
fn ray_color_of_a_path_that_runs_out_of_bounces_is_black() {
    let toy = Toy::ladder(8);
    assert_eq!(ray_color(&toy, &2, 1, false), 0);
    assert_eq!(ray_color(&toy, &6, 3, false), 0);
    assert_eq!(ray_color(&toy, &6, 4, false), 6 * 4 * 2 * 1000);
}

#[test]
fn ray_color_asks_the_scene_no_more_often_than_it_has_bounces() {
    for depth in 0..60 {
        let hall = Toy::hall_of_mirrors();
        assert_eq!(ray_color(&hall, &0, depth, false), 0);
        assert_eq!(hall.bounces.get(), depth);
    }
}

#[test]
fn render_pixel_sums_the_samples_and_finishes_once() {
    let toy = Toy::ladder(8);
    let color = render_pixel(&params(8, 1, 3, 5), &toy, Vec2::new(2, 0));
    assert_eq!(color, 3 * 2000 * 100 + 3);
    assert_eq!(toy.samples.get(), 3);
}

#[test]
fn render_pixel_without_samples_finishes_black() {
    let toy = Toy::ladder(8);
    assert_eq!(render_pixel(&params(8, 1, 0, 5), &toy, Vec2::new(2, 0)), 0);
    assert_eq!(toy.samples.get(), 0);
    assert_eq!(toy.bounces.get(), 0);
}

#[test]
fn render_pixel_follows_each_ray_for_the_bounces_of_the_params() {
    let toy = Toy::ladder(8);
    assert_eq!(render_pixel(&params(8, 1, 1, 3), &toy, Vec2::new(6, 0)), 0 * 100 + 1);
    assert_eq!(render_pixel(&params(8, 1, 1, 4), &toy, Vec2::new(6, 0)), 48000 * 100 + 1);
    let hall = Toy::hall_of_mirrors();
    render_pixel(&params(1, 1, 4, 9), &hall, Vec2::new(0, 0));
    assert_eq!(hall.bounces.get(), 4 * 9);
}

#[test]
fn render_pixel_samples_the_pixel_it_is_asked_for() {
    let toy = Toy::ladder(12);
    let params = params(4, 3, 1, 9);
    assert_eq!(render_pixel(&params, &toy, Vec2::new(0, 0)), 1000 * 100 + 1);
    assert_eq!(render_pixel(&params, &toy, Vec2::new(2, 0)), 2000 * 100 + 1);
    assert_eq!(render_pixel(&params, &toy, Vec2::new(0, 1)), 8000 * 100 + 1);
    assert_eq!(render_pixel(&params, &toy, Vec2::new(2, 2)), 10 * 8 * 6 * 4 * 2 * 1000 * 100 + 1);
}

#[test]
fn render_pixel_with_debugging_shows_the_debug_background() {
    let toy = Toy::ladder(8);
    let mut params = params(8, 1, 2, 5);
    params.debug = true;
    assert_eq!(render_pixel(&params, &toy, Vec2::new(0, 0)), 2 * 7 * 100 + 2);
}

#[test]
fn render_message_names_the_slot_and_the_color() {
    let toy = Toy::ladder(12);
    let params = params(4, 3, 1, 9);
    let RenderMessage(slot, color) = render_message(&params, &toy, 0, 2);
    assert_eq!(slot, 2);
    assert_eq!(color, 2000 * 100 + 1);
    let RenderMessage(slot, color) = render_message(&params, &toy, 1, 0);
    assert_eq!(slot, 4);
    assert_eq!(color, 8000 * 100 + 1);
    let RenderMessage(slot, _) = render_message(&params, &toy, 2, 3);
    assert_eq!(slot, 11);
    let RenderMessage(slot, _) = render_message(&params, &toy, 0, 0);
    assert_eq!(slot, 0);
}

#[test]
fn render_message_of_the_reference_image() {
    let toy = Toy::new(vec![Meets::Nothing]);
    let params = params(400, 225, 1, 1);
    let RenderMessage(slot, _) = render_message(&params, &toy, 0, 0);
    assert_eq!(slot, 0);
    let RenderMessage(slot, _) = render_message(&params, &toy, 0, 399);
    assert_eq!(slot, 399);
    let RenderMessage(slot, _) = render_message(&params, &toy, 2, 5);
    assert_eq!(slot, 805);
    let RenderMessage(slot, _) = render_message(&params, &toy, 224, 399);
    assert_eq!(slot, 400 * 225 - 1);
}

#[test]
fn render_of_a_toy_scene_fills_the_image_and_comes_out_top_row_first() {
    let width = 4;
    let height = 3;
    let toy = Toy::new(vec![Meets::Nothing; width * height]);
    let params = params(width, height, 1, 1);
    let mut collector = Collector::new(width, height, 0u64);
    let mut closed = Vec::new();
    let mut received = 0;
    for context in plan_render_threads(5, height).into_iter().rev() {
        for (row, col) in context.pixels(width) {
            let message = render_message(&params, &toy, row, col);
            assert!(collector.accepts(&message));
            received += 1;
            if let Some(remaining) = collector.receive(message) {
                assert_eq!(col, width - 1);
                closed.push((received, remaining));
            }
        }
    }
    assert_eq!(closed, vec![(4, 2), (8, 1), (12, 0)]);
    let written: Vec<u64> = (0..height)
        .rev()
        .flat_map(|row| {
            (0..width).rev().map(move |col| (1000 + (col + row * width) as u64) * 100 + 1)
        })
        .collect();
    assert_eq!(collector.into_emission_order(), written);
}

#[test]
fn render_pixel_of_a_scene_that_answers_once_is_the_same_each_time() {
    let toy = Toy::ladder(12);
    let params = params(4, 3, 5, 9);
    for row in 0..3 {
        for col in 0..4 {
            let first = render_pixel(&params, &toy, Vec2::new(col, row));
            let second = render_pixel(&params, &toy, Vec2::new(col, row));
            assert_eq!(first, second);
        }
    }
}

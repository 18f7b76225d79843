//! The configuration of one render, the path integrator and the pixel
//! sampler, written once for every scene.
//!
//! A scene does the floating-point work: it finds what a ray strikes, lets
//! the material scatter it, and adds and multiplies colors. The integrator
//! and the sampler decide what is asked of the scene, in which order and how
//! often. What they promise is stated over whatever the scene answered.

use vstd::prelude::*;
use crate::vec2::Vec2;

verus! {

/// The configuration of one render. It does not change while the render
/// runs.
#[derive(Clone, Copy)]
pub struct RenderParams {
    /// Paint the background by the quadrant of the ray, to see where rays go.
    pub debug: bool,
    /// The coordinates of the last pixel: one less than the width and the
    /// height of the image.
    pub last_pixel: Vec2<usize>,
    /// How many jittered rays are averaged into one pixel.
    pub samples_per_pixel: usize,
    /// How many times the path of one ray may be scattered.
    pub max_bounces: usize,
}

impl RenderParams {
    /// The configuration of a render of `width` by `height` pixels, without
    /// debugging: the last pixel lies one short of the width and the height.
    pub fn for_image(
        width: usize,
        height: usize,
        samples_per_pixel: usize,
        max_bounces: usize,
    ) -> (params: RenderParams)
        requires
            width >= 1,
            height >= 1,
        ensures
            !params.debug,
            params.last_pixel@ == ((width - 1) as usize, (height - 1) as usize),
            params.samples_per_pixel == samples_per_pixel,
            params.max_bounces == max_bounces,
    {
        RenderParams {
            debug: false,
            last_pixel: Vec2::new(width - 1, height - 1),
            samples_per_pixel,
            max_bounces,
        }
    }
}

impl Default for RenderParams {
    /// No debugging, and zero for every number.
    fn default() -> (params: RenderParams)
        ensures
            !params.debug,
            params.last_pixel@ == (0usize, 0usize),
            params.samples_per_pixel == 0,
            params.max_bounces == 0,
    {
        RenderParams {
            debug: false,
            last_pixel: Vec2::new(0, 0),
            samples_per_pixel: 0,
            max_bounces: 0,
        }
    }
}

/// What became of a ray that was sent into the scene.
pub enum Bounce<R, C> {
    /// The ray struck nothing.
    Missed,
    /// The ray struck a surface whose material did not scatter it.
    Absorbed,
    /// The ray struck a surface whose material scattered it: the path goes
    /// on along `ray`, and what it brings back is dimmed by `attenuation`.
    Scattered { ray: R, attenuation: C },
}

/// What the integrator and the sampler ask of a scene. Nothing is assumed of
/// the answers: a scene may draw random numbers, and give another answer
/// each time it is asked.
pub trait Scene {
    /// A ray: an origin and a direction.
    type Ray;

    /// A color: what a ray brings back.
    type Color;

    /// Pure black: what a path brings back that was absorbed or ran out of
    /// bounces, and what the sum of a pixel's samples starts from.
    fn black(&self) -> Self::Color;

    /// The color of the background in the direction of `ray`; with `debug`,
    /// a color that tells the quadrant of the direction.
    fn background(&self, ray: &Self::Ray, debug: bool) -> Self::Color;

    /// Sends `ray` into the scene: finds the nearest surface that it
    /// strikes, beyond the one it has just left, and lets the material of
    /// that surface scatter it.
    fn bounce(&self, ray: &Self::Ray) -> Bounce<Self::Ray, Self::Color>;

    /// The product of `attenuation` and `color`, channel by channel.
    fn attenuate(&self, attenuation: Self::Color, color: Self::Color) -> Self::Color;

    /// A ray from the camera through `pixel`, jittered inside the pixel, in
    /// an image whose last pixel is `last_pixel`.
    fn sample(&self, pixel: Vec2<usize>, last_pixel: Vec2<usize>) -> Self::Ray;

    /// The sum of `sum` and `color`, channel by channel.
    fn accumulate(&self, sum: Self::Color, color: Self::Color) -> Self::Color;

    /// The color of a pixel from the sum of its `samples` samples: their
    /// average, tone mapped, on the scale of the image format.
    fn finish(&self, sum: Self::Color, samples: usize) -> Self::Color;
}

/// Whether `color` is a color that `ray` may bring back with `depth`
/// bounces left. Without a bounce left it is black. Else the ray is sent
/// into the scene: if it strikes nothing, the color is the background; if
/// it is absorbed, black; if it is scattered, the attenuation times a color
/// that the scattered ray may bring back with one bounce fewer.
pub open spec fn is_ray_color<S: Scene>(
    scene: &S,
    ray: &S::Ray,
    depth: nat,
    debug: bool,
    color: S::Color,
) -> bool
    decreases depth,
{
    if depth == 0 {
        call_ensures(S::black, (scene,), color)
    } else {
        exists|bounce: Bounce<S::Ray, S::Color>|
            #[trigger] call_ensures(S::bounce, (scene, ray), bounce) && match bounce {
                Bounce::Missed => call_ensures(S::background, (scene, ray, debug), color),
                Bounce::Absorbed => call_ensures(S::black, (scene,), color),
                Bounce::Scattered { ray: next, attenuation } => exists|rest: S::Color|
                    is_ray_color(scene, &next, (depth - 1) as nat, debug, rest)
                        && #[trigger] call_ensures(S::attenuate, (scene, attenuation, rest), color),
            }
    }
}

/// The color that `ray` brings back, with `bounce_depth` bounces left.
/// Without a bounce left it is pure black, whatever the ray and the scene.
pub fn ray_color<S: Scene>(
    scene: &S,
    ray: &S::Ray,
    bounce_depth: usize,
    debug_background: bool,
) -> (color: S::Color)
    ensures
        is_ray_color(scene, ray, bounce_depth as nat, debug_background, color),
        bounce_depth == 0 ==> call_ensures(S::black, (scene,), color),
    decreases bounce_depth,
{
    if bounce_depth == 0 {
        scene.black()
    } else {
        match scene.bounce(ray) {
            Bounce::Missed => scene.background(ray, debug_background),
            Bounce::Absorbed => scene.black(),
            Bounce::Scattered { ray: next, attenuation } => {
                let rest = ray_color(scene, &next, bounce_depth - 1, debug_background);
                scene.attenuate(attenuation, rest)
            },
        }
    }
}

/// Whether `sum` may be the sum of the first `samples` samples of `pixel`:
/// black before the first; then, with each sample, the sum so far and the
/// color that a fresh ray through the pixel brings back, added up.
pub open spec fn is_sample_sum<S: Scene>(
    scene: &S,
    params: RenderParams,
    pixel: Vec2<usize>,
    samples: nat,
    sum: S::Color,
) -> bool
    decreases samples,
{
    if samples == 0 {
        call_ensures(S::black, (scene,), sum)
    } else {
        exists|before: S::Color, ray: S::Ray, color: S::Color|
            #![trigger
                call_ensures(S::sample, (scene, pixel, params.last_pixel), ray),
                call_ensures(S::accumulate, (scene, before, color), sum),
            ]
            {
                &&& is_sample_sum(scene, params, pixel, (samples - 1) as nat, before)
                &&& call_ensures(S::sample, (scene, pixel, params.last_pixel), ray)
                &&& is_ray_color(scene, &ray, params.max_bounces as nat, params.debug, color)
                &&& call_ensures(S::accumulate, (scene, before, color), sum)
            }
    }
}

/// Whether `color` may be the color of `pixel`: what the scene makes of the
/// sum of as many samples as `params` asks for.
pub open spec fn is_pixel_color<S: Scene>(
    scene: &S,
    params: RenderParams,
    pixel: Vec2<usize>,
    color: S::Color,
) -> bool {
    exists|sum: S::Color|
        is_sample_sum(scene, params, pixel, params.samples_per_pixel as nat, sum)
            && #[trigger] call_ensures(S::finish, (scene, sum, params.samples_per_pixel), color)
}

/// The color of `pixel`: as many samples as `params` asks for, each a fresh
/// ray through the pixel followed for at most `params.max_bounces` bounces,
/// summed up and finished once.
pub fn render_pixel<S: Scene>(
    params: &RenderParams,
    scene: &S,
    pixel: Vec2<usize>,
) -> (color: S::Color)
    ensures
        is_pixel_color(scene, *params, pixel, color),
{
    let mut sum = scene.black();
    let mut taken: usize = 0;
    while taken < params.samples_per_pixel
        invariant
            taken <= params.samples_per_pixel,
            is_sample_sum(scene, *params, pixel, taken as nat, sum),
        decreases params.samples_per_pixel - taken,
    {
        let ray = scene.sample(pixel, params.last_pixel);
        let color = ray_color(scene, &ray, params.max_bounces, params.debug);
        sum = scene.accumulate(sum, color);
        taken = taken + 1;
    }
    scene.finish(sum, params.samples_per_pixel)
}

/// In a scene in which no ray strikes anything, a ray with a bounce left
/// brings back the background in its own direction.
pub proof fn lemma_empty_scene_shows_background<S: Scene>(
    scene: &S,
    ray: &S::Ray,
    depth: nat,
    debug: bool,
    color: S::Color,
)
    requires
        depth >= 1,
        forall|any: &S::Ray, bounce: Bounce<S::Ray, S::Color>|
            #[trigger] call_ensures(S::bounce, (scene, any), bounce) ==> bounce is Missed,
        is_ray_color(scene, ray, depth, debug, color),
    ensures
        call_ensures(S::background, (scene, ray, debug), color),
{
}

/// Whether the scene gives one answer to each question: asked the same
/// twice, it answers the same. A scene that draws random numbers is such a
/// scene once its draws are fixed.
pub open spec fn answers_once<S: Scene>(scene: &S) -> bool {
    &&& forall|a: S::Color, b: S::Color|
        #![trigger call_ensures(S::black, (scene,), a), call_ensures(S::black, (scene,), b)]
        call_ensures(S::black, (scene,), a) && call_ensures(S::black, (scene,), b) ==> a == b
    &&& forall|ray: &S::Ray, debug: bool, a: S::Color, b: S::Color|
        #![trigger
            call_ensures(S::background, (scene, ray, debug), a),
            call_ensures(S::background, (scene, ray, debug), b),
        ]
        call_ensures(S::background, (scene, ray, debug), a) && call_ensures(
            S::background,
            (scene, ray, debug),
            b,
        ) ==> a == b
    &&& forall|ray: &S::Ray, a: Bounce<S::Ray, S::Color>, b: Bounce<S::Ray, S::Color>|
        #![trigger
            call_ensures(S::bounce, (scene, ray), a),
            call_ensures(S::bounce, (scene, ray), b),
        ]
        call_ensures(S::bounce, (scene, ray), a) && call_ensures(S::bounce, (scene, ray), b) ==> a
            == b
    &&& forall|attenuation: S::Color, color: S::Color, a: S::Color, b: S::Color|
        #![trigger
            call_ensures(S::attenuate, (scene, attenuation, color), a),
            call_ensures(S::attenuate, (scene, attenuation, color), b),
        ]
        call_ensures(S::attenuate, (scene, attenuation, color), a) && call_ensures(
            S::attenuate,
            (scene, attenuation, color),
            b,
        ) ==> a == b
    &&& forall|pixel: Vec2<usize>, last_pixel: Vec2<usize>, a: S::Ray, b: S::Ray|
        #![trigger
            call_ensures(S::sample, (scene, pixel, last_pixel), a),
            call_ensures(S::sample, (scene, pixel, last_pixel), b),
        ]
        call_ensures(S::sample, (scene, pixel, last_pixel), a) && call_ensures(
            S::sample,
            (scene, pixel, last_pixel),
            b,
        ) ==> a == b
    &&& forall|sum: S::Color, color: S::Color, a: S::Color, b: S::Color|
        #![trigger
            call_ensures(S::accumulate, (scene, sum, color), a),
            call_ensures(S::accumulate, (scene, sum, color), b),
        ]
        call_ensures(S::accumulate, (scene, sum, color), a) && call_ensures(
            S::accumulate,
            (scene, sum, color),
            b,
        ) ==> a == b
    &&& forall|sum: S::Color, samples: usize, a: S::Color, b: S::Color|
        #![trigger
            call_ensures(S::finish, (scene, sum, samples), a),
            call_ensures(S::finish, (scene, sum, samples), b),
        ]
        call_ensures(S::finish, (scene, sum, samples), a) && call_ensures(
            S::finish,
            (scene, sum, samples),
            b,
        ) ==> a == b
}

/// In a scene that gives one answer to each question, a ray brings back one
/// color: the color is a function of the scene, the ray and the bounces
/// left.
pub proof fn lemma_one_ray_color<S: Scene>(
    scene: &S,
    ray: &S::Ray,
    depth: nat,
    debug: bool,
    first: S::Color,
    second: S::Color,
)
    requires
        answers_once(scene),
        is_ray_color(scene, ray, depth, debug, first),
        is_ray_color(scene, ray, depth, debug, second),
    ensures
        first == second,
    decreases depth,
{
    if depth > 0 {
        let one = choose|bounce: Bounce<S::Ray, S::Color>|
            #[trigger] call_ensures(S::bounce, (scene, ray), bounce) && match bounce {
                Bounce::Missed => call_ensures(S::background, (scene, ray, debug), first),
                Bounce::Absorbed => call_ensures(S::black, (scene,), first),
                Bounce::Scattered { ray: next, attenuation } => exists|rest: S::Color|
                    is_ray_color(scene, &next, (depth - 1) as nat, debug, rest)
                        && #[trigger] call_ensures(S::attenuate, (scene, attenuation, rest), first),
            };
        let other = choose|bounce: Bounce<S::Ray, S::Color>|
            #[trigger] call_ensures(S::bounce, (scene, ray), bounce) && match bounce {
                Bounce::Missed => call_ensures(S::background, (scene, ray, debug), second),
                Bounce::Absorbed => call_ensures(S::black, (scene,), second),
                Bounce::Scattered { ray: next, attenuation } => exists|rest: S::Color|
                    is_ray_color(scene, &next, (depth - 1) as nat, debug, rest)
                        && #[trigger] call_ensures(
                        S::attenuate,
                        (scene, attenuation, rest),
                        second,
                    ),
            };
        assert(one == other);
        match one {
            Bounce::Scattered { ray: next, attenuation } => {
                let rest_of_first = choose|rest: S::Color|
                    is_ray_color(scene, &next, (depth - 1) as nat, debug, rest)
                        && #[trigger] call_ensures(S::attenuate, (scene, attenuation, rest), first);
                let rest_of_second = choose|rest: S::Color|
                    is_ray_color(scene, &next, (depth - 1) as nat, debug, rest)
                        && #[trigger] call_ensures(
                        S::attenuate,
                        (scene, attenuation, rest),
                        second,
                    );
                lemma_one_ray_color(
                    scene,
                    &next,
                    (depth - 1) as nat,
                    debug,
                    rest_of_first,
                    rest_of_second,
                );
            },
            _ => {},
        }
    }
}

/// In a scene that gives one answer to each question, the samples of a
/// pixel add up to one sum.
pub proof fn lemma_one_sample_sum<S: Scene>(
    scene: &S,
    params: RenderParams,
    pixel: Vec2<usize>,
    samples: nat,
    first: S::Color,
    second: S::Color,
)
    requires
        answers_once(scene),
        is_sample_sum(scene, params, pixel, samples, first),
        is_sample_sum(scene, params, pixel, samples, second),
    ensures
        first == second,
    decreases samples,
{
    if samples > 0 {
        let (before_first, ray_first, color_first) = choose|
            before: S::Color,
            ray: S::Ray,
            color: S::Color,
        |
            #![trigger
                call_ensures(S::sample, (scene, pixel, params.last_pixel), ray),
                call_ensures(S::accumulate, (scene, before, color), first),
            ]
            {
                &&& is_sample_sum(scene, params, pixel, (samples - 1) as nat, before)
                &&& call_ensures(S::sample, (scene, pixel, params.last_pixel), ray)
                &&& is_ray_color(scene, &ray, params.max_bounces as nat, params.debug, color)
                &&& call_ensures(S::accumulate, (scene, before, color), first)
            };
        let (before_second, ray_second, color_second) = choose|
            before: S::Color,
            ray: S::Ray,
            color: S::Color,
        |
            #![trigger
                call_ensures(S::sample, (scene, pixel, params.last_pixel), ray),
                call_ensures(S::accumulate, (scene, before, color), second),
            ]
            {
                &&& is_sample_sum(scene, params, pixel, (samples - 1) as nat, before)
                &&& call_ensures(S::sample, (scene, pixel, params.last_pixel), ray)
                &&& is_ray_color(scene, &ray, params.max_bounces as nat, params.debug, color)
                &&& call_ensures(S::accumulate, (scene, before, color), second)
            };
        lemma_one_sample_sum(
            scene,
            params,
            pixel,
            (samples - 1) as nat,
            before_first,
            before_second,
        );
        assert(ray_first == ray_second);
        lemma_one_ray_color(
            scene,
            &ray_first,
            params.max_bounces as nat,
            params.debug,
            color_first,
            color_second,
        );
    }
}

/// In a scene that gives one answer to each question, a pixel has one
/// color: the color is a function of the scene, the configuration and the
/// pixel, and two renders of the pixel agree.
pub proof fn lemma_one_pixel_color<S: Scene>(
    scene: &S,
    params: RenderParams,
    pixel: Vec2<usize>,
    first: S::Color,
    second: S::Color,
)
    requires
        answers_once(scene),
        is_pixel_color(scene, params, pixel, first),
        is_pixel_color(scene, params, pixel, second),
    ensures
        first == second,
{
    let sum_of_first = choose|sum: S::Color|
        is_sample_sum(scene, params, pixel, params.samples_per_pixel as nat, sum)
            && #[trigger] call_ensures(S::finish, (scene, sum, params.samples_per_pixel), first);
    let sum_of_second = choose|sum: S::Color|
        is_sample_sum(scene, params, pixel, params.samples_per_pixel as nat, sum)
            && #[trigger] call_ensures(S::finish, (scene, sum, params.samples_per_pixel), second);
    lemma_one_sample_sum(
        scene,
        params,
        pixel,
        params.samples_per_pixel as nat,
        sum_of_first,
        sum_of_second,
    );
}

} // verus!

use vstd::prelude::*;
use crate::data_structures::color::{channel, lemma_channel_of_pack, pack_channels, unpack_channel, Color};
use crate::data_structures::image::Image;
use crate::data_structures::ray::Ray;
use crate::data_structures::scene::{no_light, Scene};
use crate::maths::scalar::Scalar;
use crate::traits::arithmetic::{adds, Arithmetic};
use crate::traits::camera::Camera;
use crate::traits::light::Light;
use crate::traits::material::Material;
use crate::traits::render_object::RenderObject;

verus! {

/// The number of samples that `render` takes of each pixel.
pub const SAMPLES: usize = 16;

/// The number of images, each with its share of the samples, that `render`
/// takes the mean of.
pub const WORKERS: usize = 4;

/// Renders a scene as a camera sees it.
pub struct Renderer<P: RenderObject<N>, L: Light<N>, M: Material<N>, N: Arithmetic, C: Camera<N>> {
    pub scene: Scene<P, L, M, N>,
    pub camera: C,
}

impl<P: RenderObject<N>, L: Light<N>, M: Material<N>, N: Arithmetic, C: Camera<N>> Renderer<P, L, M, N, C> {
    /// The camera may turn pixel `(x, y)`, moved by random offsets to
    /// `(jittered_x, jittered_y)`, into `ray`.
    pub open spec fn aims(
        &self,
        width: usize,
        height: usize,
        x: usize,
        y: usize,
        jittered_x: Scalar,
        jittered_y: Scalar,
        ray: Ray,
    ) -> bool {
        &&& jitters(&self.scene.arithmetic, x, jittered_x)
        &&& jitters(&self.scene.arithmetic, y, jittered_y)
        &&& call_ensures(
            C::generate_ray,
            (&self.camera, width, height, jittered_x, jittered_y, &self.scene.arithmetic),
            ray,
        )
    }

    /// One sample of pixel `(x, y)` may be `color`: the light against a ray
    /// through a random place of the pixel.
    pub open spec fn samples(&self, width: usize, height: usize, x: usize, y: usize, color: Color) -> bool {
        exists|jittered_x: Scalar, jittered_y: Scalar, ray: Ray| #[trigger]
            self.aims(width, height, x, y, jittered_x, jittered_y, ray) && self.scene.traces(ray, 0, color)
    }

    /// `count` samples of pixel `(x, y)` may add up to `sum`, starting from no light.
    pub open spec fn gathers(
        &self,
        width: usize,
        height: usize,
        x: usize,
        y: usize,
        count: nat,
        sum: Color,
    ) -> bool
        decreases count,
    {
        if count == 0 {
            sum == no_light()
        } else {
            exists|before: Color, sample: Color|
                self.gathers(width, height, x, y, (count - 1) as nat, before) && self.samples(
                    width,
                    height,
                    x,
                    y,
                    sample,
                ) && #[trigger] before.sums_to(sample, &self.scene.arithmetic, sum)
        }
    }

    /// Pixel `(x, y)` may come out as `word`: the packed average of `count` samples.
    pub open spec fn exposes(
        &self,
        width: usize,
        height: usize,
        x: usize,
        y: usize,
        count: usize,
        word: u32,
    ) -> bool {
        exists|sum: Color, mean: Color|
            self.gathers(width, height, x, y, count as nat, sum) && #[trigger] averages(
                &self.scene.arithmetic,
                sum,
                count,
                mean,
            ) && mean.packs_to(&self.scene.arithmetic, word)
    }

    /// `image` may be what one pass with `count` samples for each pixel gives.
    pub open spec fn develops(&self, width: usize, height: usize, count: usize, image: Image) -> bool {
        &&& image.well_formed()
        &&& image.width() == width
        &&& image.height() == height
        &&& forall|x: int, y: int|
            0 <= x < width && 0 <= y < height ==> self.exposes(
                width,
                height,
                x as usize,
                y as usize,
                count,
                #[trigger] image.at(x, y),
            )
    }

    /// `image` may be what `render` gives: the mean of as many passes as
    /// there are workers, each with its share of the samples.
    pub open spec fn renders(&self, width: usize, height: usize, image: Image) -> bool {
        exists|passes: Seq<Image>|
            {
                &&& passes.len() == WORKERS
                &&& forall|i: int|
                    0 <= i < passes.len() ==> self.develops(
                        width,
                        height,
                        (SAMPLES / WORKERS) as usize,
                        #[trigger] passes[i],
                    )
                &&& #[trigger] is_mean_of(image, passes)
            }
    }

    pub fn new(scene: Scene<P, L, M, N>, camera: C) -> (renderer: Renderer<P, L, M, N, C>)
        ensures
            renderer.scene == scene,
            renderer.camera == camera,
    {
        Renderer { scene, camera }
    }

    /// One image of the scene, with `count` samples for each pixel: the
    /// work of one worker.
    pub fn render_pass(&self, image_width: usize, image_height: usize, count: usize) -> (image: Image)
        requires
            self.scene.consistent(),
            image_width * image_height <= usize::MAX,
        ensures
            self.develops(image_width, image_height, count, image),
    {
        let mut image = Image::new(image_width, image_height);
        let mut y: usize = 0;
        while y < image_height
            invariant
                y <= image_height,
                self.scene.consistent(),
                image.well_formed(),
                image.width() == image_width,
                image.height() == image_height,
                forall|a: int, b: int|
                    0 <= a < image_width && 0 <= b < y ==> self.exposes(
                        image_width,
                        image_height,
                        a as usize,
                        b as usize,
                        count,
                        #[trigger] image.at(a, b),
                    ),
            decreases image_height - y,
        {
            let mut x: usize = 0;
            while x < image_width
                invariant
                    y < image_height,
                    x <= image_width,
                    self.scene.consistent(),
                    image.well_formed(),
                    image.width() == image_width,
                    image.height() == image_height,
                    forall|a: int, b: int|
                        0 <= a < image_width && 0 <= b < y ==> self.exposes(
                            image_width,
                            image_height,
                            a as usize,
                            b as usize,
                            count,
                            #[trigger] image.at(a, b),
                        ),
                    forall|a: int|
                        0 <= a < x ==> self.exposes(
                            image_width,
                            image_height,
                            a as usize,
                            y,
                            count,
                            #[trigger] image.at(a, y as int),
                        ),
                decreases image_width - x,
            {
                let mut color = Color(Scalar::zero(), Scalar::zero(), Scalar::zero(), Scalar::one());
                let mut taken: usize = 0;
                while taken < count
                    invariant
                        taken <= count,
                        self.scene.consistent(),
                        self.gathers(image_width, image_height, x, y, taken as nat, color),
                    decreases count - taken,
                {
                    let jittered_x = jitter(&self.scene.arithmetic, x);
                    let jittered_y = jitter(&self.scene.arithmetic, y);
                    let ray = self.camera.generate_ray(
                        image_width,
                        image_height,
                        jittered_x,
                        jittered_y,
                        &self.scene.arithmetic,
                    );
                    let sample = self.scene.get_color(ray);
                    let ghost before = color;
                    color = color.plus(&sample, &self.scene.arithmetic);
                    proof {
                        assert(self.aims(image_width, image_height, x, y, jittered_x, jittered_y, ray));
                        assert(self.samples(image_width, image_height, x, y, sample));
                        assert(self.gathers(image_width, image_height, x, y, taken as nat, before));
                    }
                    taken = taken + 1;
                }
                let mean = average(&self.scene.arithmetic, &color, count);
                let ghost before = image;
                proof {
                    crate::data_structures::image::lemma_place_in_range(
                        x as int,
                        y as int,
                        image_width as int,
                        image_height as int,
                    );
                }
                image.set_pixel(x, y, &mean, &self.scene.arithmetic);
                proof {
                    assert(self.exposes(image_width, image_height, x, y, count, image.at(x as int, y as int)));
                    assert forall|a: int, b: int|
                        0 <= a < image_width && 0 <= b < image_height && !(a == x && b == y) implies
                            #[trigger] image.at(
                        a,
                        b,
                    ) == before.at(a, b) by {
                        lemma_places_differ(a, b, x as int, y as int, image_width as int);
                        crate::data_structures::image::lemma_place_in_range(
                            a,
                            b,
                            image_width as int,
                            image_height as int,
                        );
                    }
                }
                x = x + 1;
            }
            y = y + 1;
        }
        image
    }

    /// The image of the scene: the mean of the workers' passes, each with
    /// its share of the samples.
    pub fn render(self, image_width: usize, image_height: usize) -> (image: Image)
        requires
            self.scene.consistent(),
            image_width * image_height <= usize::MAX,
        ensures
            self.renders(image_width, image_height, image),
    {
        let mut passes: Vec<Image> = Vec::new();
        let mut worker: usize = 0;
        while worker < WORKERS
            invariant
                worker <= WORKERS,
                passes.len() == worker,
                self.scene.consistent(),
                image_width * image_height <= usize::MAX,
                forall|i: int|
                    0 <= i < passes.len() ==> self.develops(
                        image_width,
                        image_height,
                        (SAMPLES / WORKERS) as usize,
                        #[trigger] passes[i],
                    ),
            decreases WORKERS - worker,
        {
            let pass = self.render_pass(image_width, image_height, SAMPLES / WORKERS);
            passes.push(pass);
            worker = worker + 1;
        }
        match merge(&passes) {
            Some(image) => image,
            None => {
                proof {
                    assert(congruent(passes@));
                }
                vstd::pervasive::unreached()
            },
        }
    }
}

/// `num` may compute `jittered` as `pixel` plus a random offset that is
/// at least 0 and less than 1.
pub open spec fn jitters<N: Arithmetic>(num: &N, pixel: usize, jittered: Scalar) -> bool {
    exists|place: Scalar, offset: Scalar|
        call_ensures(N::number, (num, pixel), place) && call_ensures(N::random, (num,), offset)
            && #[trigger] adds(num, place, offset, jittered)
}

/// A random place inside a pixel: `pixel` plus a random offset.
pub fn jitter<N: Arithmetic>(num: &N, pixel: usize) -> (jittered: Scalar)
    ensures
        jitters(num, pixel, jittered),
{
    let place = num.number(pixel);
    let offset = num.random();
    let jittered = num.sum(place, offset);
    assert(adds(num, place, offset, jittered));
    jittered
}

/// `num` may compute `mean` as `sum / count`.
pub open spec fn averages<N: Arithmetic>(num: &N, sum: Color, count: usize, mean: Color) -> bool {
    exists|divisor: Scalar| #[trigger]
        call_ensures(N::number, (num, count), divisor) && sum.divides_to(divisor, num, mean)
}

/// The average of `count` samples that add up to `sum`: `sum / count`.
pub fn average<N: Arithmetic>(num: &N, sum: &Color, count: usize) -> (mean: Color)
    ensures
        averages(num, *sum, count, mean),
{
    let divisor = num.number(count);
    sum.over(divisor, num)
}

/// Adding `color` to no light `count` times may give `sum`.
pub open spec fn sums_of<N: Arithmetic>(num: &N, color: Color, count: nat, sum: Color) -> bool
    decreases count,
{
    if count == 0 {
        sum == no_light()
    } else {
        exists|before: Color|
            sums_of(num, color, (count - 1) as nat, before) && #[trigger] before.sums_to(color, num, sum)
    }
}

proof fn lemma_gathers_background<
    P: RenderObject<N>,
    L: Light<N>,
    M: Material<N>,
    N: Arithmetic,
    C: Camera<N>,
>(
    renderer: Renderer<P, L, M, N, C>,
    width: usize,
    height: usize,
    x: usize,
    y: usize,
    count: nat,
    sum: Color,
)
    requires
        renderer.scene.bounding_volume_hierarchy is None,
        renderer.gathers(width, height, x, y, count, sum),
    ensures
        sums_of(&renderer.scene.arithmetic, renderer.scene.background_color, count, sum),
    decreases count,
{
    if count > 0 {
        let (before, sample) = choose|before: Color, sample: Color|
            renderer.gathers(width, height, x, y, (count - 1) as nat, before) && renderer.samples(
                width,
                height,
                x,
                y,
                sample,
            ) && #[trigger] before.sums_to(sample, &renderer.scene.arithmetic, sum);
        lemma_gathers_background(renderer, width, height, x, y, (count - 1) as nat, before);
        let (jittered_x, jittered_y, ray) = choose|jittered_x: Scalar, jittered_y: Scalar, ray: Ray| #[trigger]
            renderer.aims(width, height, x, y, jittered_x, jittered_y, ray) && renderer.scene.traces(
                ray,
                0,
                sample,
            );
        crate::data_structures::scene::lemma_empty_scene_shows_background(renderer.scene, ray, 0, sample);
    }
}

/// In a pass over a scene without objects every pixel is the packed
/// average of as many backgrounds as there are samples, whatever the
/// camera does.
pub proof fn lemma_empty_scene_develops_background<
    P: RenderObject<N>,
    L: Light<N>,
    M: Material<N>,
    N: Arithmetic,
    C: Camera<N>,
>(
    renderer: Renderer<P, L, M, N, C>,
    width: usize,
    height: usize,
    count: usize,
    image: Image,
    x: int,
    y: int,
)
    requires
        renderer.scene.bounding_volume_hierarchy is None,
        renderer.develops(width, height, count, image),
        0 <= x < width,
        0 <= y < height,
    ensures
        exists|sum: Color, mean: Color|
            sums_of(&renderer.scene.arithmetic, renderer.scene.background_color, count as nat, sum)
                && #[trigger] averages(&renderer.scene.arithmetic, sum, count, mean) && mean.packs_to(
                &renderer.scene.arithmetic,
                image.at(x, y),
            ),
{
    let word = image.at(x, y);
    assert(renderer.exposes(width, height, x as usize, y as usize, count, word));
    let (sum, mean) = choose|sum: Color, mean: Color|
        renderer.gathers(width, height, x as usize, y as usize, count as nat, sum) && #[trigger] averages(
            &renderer.scene.arithmetic,
            sum,
            count,
            mean,
        ) && mean.packs_to(&renderer.scene.arithmetic, word);
    lemma_gathers_background(renderer, width, height, x as usize, y as usize, count as nat, sum);
}

/// A law that an arithmetic may obey of a colour: the average of `count`
/// samples that all are that colour is that colour.
pub open spec fn averages_back<N: Arithmetic>(num: &N, color: Color, count: usize) -> bool {
    forall|sum: Color, mean: Color|
        sums_of(num, color, count as nat, sum) && #[trigger] averages(num, sum, count, mean) ==> mean == color
}

/// A law that an arithmetic may obey of a colour: it packs the colour in
/// one way only.
pub open spec fn packs_in_one_way<N: Arithmetic>(num: &N, color: Color) -> bool {
    forall|first: u32, second: u32| #[trigger]
        color.packs_to(num, first) && #[trigger] color.packs_to(num, second) ==> first == second
}

/// In a pass over a scene without objects every pixel is the packed
/// background, whatever the camera does, where the average of as many
/// backgrounds as there are samples is the background.
pub proof fn lemma_empty_scene_pass_is_background<
    P: RenderObject<N>,
    L: Light<N>,
    M: Material<N>,
    N: Arithmetic,
    C: Camera<N>,
>(renderer: Renderer<P, L, M, N, C>, width: usize, height: usize, count: usize, image: Image, x: int, y: int)
    requires
        renderer.scene.bounding_volume_hierarchy is None,
        renderer.develops(width, height, count, image),
        0 <= x < width,
        0 <= y < height,
        averages_back(&renderer.scene.arithmetic, renderer.scene.background_color, count),
    ensures
        renderer.scene.background_color.packs_to(&renderer.scene.arithmetic, image.at(x, y)),
{
    lemma_empty_scene_develops_background(renderer, width, height, count, image, x, y);
}

/// Two images of one size that agree in every column of every row are the
/// same sequence of pixels.
proof fn lemma_same_pixels(first: Image, second: Image)
    requires
        first.well_formed(),
        second.well_formed(),
        first.width() == second.width(),
        first.height() == second.height(),
        forall|x: int, y: int|
            0 <= x < first.width() && 0 <= y < first.height() ==> #[trigger] first.at(x, y) == second.at(x, y),
    ensures
        first@ == second@,
{
    assert forall|k: int| 0 <= k < first@.len() implies first@[k] == second@[k] by {
        let w = first.width() as int;
        let h = first.height() as int;
        let y = k / w;
        let x = k % w;
        assert(w > 0) by (nonlinear_arith)
            requires
                0 <= k < w * h,
                w >= 0,
        ;
        assert(0 <= y < h && 0 <= x < w && k == y * w + x) by (nonlinear_arith)
            requires
                0 <= k < w * h,
                w > 0,
                y == k / w,
                x == k % w,
        ;
        assert(first.at(x, y) == second.at(x, y));
    }
    assert(first@ =~= second@);
}

/// The image of a scene without objects shows the packed background in
/// every pixel, whatever the camera does, where the arithmetic packs the
/// background in one way only and the average of as many backgrounds as
/// a pass has samples is the background.
pub proof fn lemma_empty_scene_render_is_background<
    P: RenderObject<N>,
    L: Light<N>,
    M: Material<N>,
    N: Arithmetic,
    C: Camera<N>,
>(renderer: Renderer<P, L, M, N, C>, width: usize, height: usize, image: Image, x: int, y: int)
    requires
        renderer.scene.bounding_volume_hierarchy is None,
        renderer.renders(width, height, image),
        0 <= x < width,
        0 <= y < height,
        averages_back(
            &renderer.scene.arithmetic,
            renderer.scene.background_color,
            (SAMPLES / WORKERS) as usize,
        ),
        packs_in_one_way(&renderer.scene.arithmetic, renderer.scene.background_color),
    ensures
        image.width() == width,
        image.height() == height,
        renderer.scene.background_color.packs_to(&renderer.scene.arithmetic, image.at(x, y)),
{
    let num = &renderer.scene.arithmetic;
    let background = renderer.scene.background_color;
    let count = (SAMPLES / WORKERS) as usize;
    let passes = choose|passes: Seq<Image>|
        {
            &&& passes.len() == WORKERS
            &&& forall|i: int|
                0 <= i < passes.len() ==> renderer.develops(width, height, count, #[trigger] passes[i])
            &&& #[trigger] is_mean_of(image, passes)
        };
    let first = passes[0];
    assert(renderer.develops(width, height, count, first));
    assert forall|i: int| 0 <= i < passes.len() implies (#[trigger] passes[i])@ == first@ by {
        let pass = passes[i];
        assert(renderer.develops(width, height, count, pass));
        assert forall|a: int, b: int| 0 <= a < pass.width() && 0 <= b < pass.height() implies #[trigger] pass.at(
            a,
            b,
        ) == first.at(a, b) by {
            lemma_empty_scene_pass_is_background(renderer, width, height, count, pass, a, b);
            lemma_empty_scene_pass_is_background(renderer, width, height, count, first, a, b);
            assert(background.packs_to(num, pass.at(a, b)) && background.packs_to(num, first.at(a, b)));
        }
        lemma_same_pixels(pass, first);
    }
    assert(congruent(passes)) by {
        assert forall|i: int| 0 <= i < passes.len() implies (#[trigger] passes[i]).well_formed() && passes[i].width()
            == passes[0].width() && passes[i].height() == passes[0].height() by {
            assert(renderer.develops(width, height, count, passes[i]));
        }
    }
    lemma_merge_of_equal(image, passes);
    lemma_empty_scene_pass_is_background(renderer, width, height, count, first, x, y);
}

/// The sum of the bytes.
pub open spec fn total(values: Seq<u8>) -> nat
    decreases values.len(),
{
    if values.len() == 0 {
        0
    } else {
        total(values.drop_last()) + values.last() as nat
    }
}

/// The arithmetic mean of the bytes, rounded to the nearest byte, a half upwards.
pub open spec fn mean_byte(values: Seq<u8>) -> nat {
    (total(values) + values.len() / 2) / values.len()
}

/// One channel of one pixel in each of the images.
pub open spec fn column(images: Seq<Image>, x: int, y: int, place: int) -> Seq<u8> {
    Seq::new(images.len(), |i: int| channel(images[i].at(x, y), place))
}

/// All images are well formed and of one size.
pub open spec fn congruent(images: Seq<Image>) -> bool {
    forall|i: int|
        0 <= i < images.len() ==> (#[trigger] images[i]).well_formed() && images[i].width() == images[0].width()
            && images[i].height() == images[0].height()
}

/// `merged` is the mean of the images: of their size, and in each channel
/// of each pixel the rounded mean of that channel in that pixel of all images.
pub open spec fn is_mean_of(merged: Image, images: Seq<Image>) -> bool {
    &&& images.len() > 0
    &&& merged.well_formed()
    &&& merged.width() == images[0].width()
    &&& merged.height() == images[0].height()
    &&& forall|x: int, y: int, place: int|
        0 <= x < merged.width() && 0 <= y < merged.height() && 0 <= place < 4 ==> #[trigger] channel(
            merged.at(x, y),
            place,
        ) == mean_byte(column(images, x, y, place))
}

proof fn lemma_total_bound(values: Seq<u8>)
    ensures
        total(values) <= 255 * values.len(),
    decreases values.len(),
{
    if values.len() > 0 {
        lemma_total_bound(values.drop_last());
    }
}

proof fn lemma_mean_is_byte(values: Seq<u8>)
    requires
        values.len() > 0,
    ensures
        mean_byte(values) <= 255,
{
    lemma_total_bound(values);
    let n = values.len() as int;
    let t = total(values) as int;
    assert((t + n / 2) / n <= 255) by (nonlinear_arith)
        requires
            n > 0,
            0 <= t <= 255 * n,
    ;
}

proof fn lemma_total_of_equal(values: Seq<u8>, value: u8)
    requires
        forall|i: int| 0 <= i < values.len() ==> values[i] == value,
    ensures
        total(values) == values.len() * value,
    decreases values.len(),
{
    if values.len() > 0 {
        lemma_total_of_equal(values.drop_last(), value);
        assert((values.len() - 1) * value + value == values.len() * value) by (nonlinear_arith);
    }
}

/// The mean of equal bytes is that byte.
pub proof fn lemma_mean_of_equal(values: Seq<u8>, value: u8)
    requires
        values.len() > 0,
        forall|i: int| 0 <= i < values.len() ==> values[i] == value,
    ensures
        mean_byte(values) == value,
{
    lemma_total_of_equal(values, value);
    let n = values.len() as int;
    let v = value as int;
    assert((n * v + n / 2) / n == v) by (nonlinear_arith)
        requires
            n > 0,
            v >= 0,
    ;
}

/// The mean of images that all show the same is an image that shows the same.
pub proof fn lemma_merge_of_equal(merged: Image, images: Seq<Image>)
    requires
        is_mean_of(merged, images),
        congruent(images),
        forall|i: int| 0 <= i < images.len() ==> (#[trigger] images[i])@ == images[0]@,
    ensures
        merged@ == images[0]@,
{
    let first = images[0];
    assert forall|k: int| 0 <= k < merged@.len() implies merged@[k] == first@[k] by {
        let w = merged.width() as int;
        let h = merged.height() as int;
        let y = k / w;
        let x = k % w;
        assert(w > 0) by (nonlinear_arith)
            requires
                0 <= k < w * h,
                w >= 0,
        ;
        assert(0 <= y < h && 0 <= x < w && k == y * w + x) by (nonlinear_arith)
            requires
                0 <= k < w * h,
                w > 0,
                y == k / w,
                x == k % w,
        ;
        assert forall|place: int| 0 <= place < 4 implies channel(merged@[k], place) == channel(first@[k], place) by {
            let values = column(images, x, y, place);
            assert(channel(merged.at(x, y), place) == mean_byte(values));
            assert forall|i: int| 0 <= i < values.len() implies values[i] == channel(first@[k], place) by {
                assert(images[i]@ == first@);
            }
            lemma_mean_of_equal(values, channel(first@[k], place));
        }
        crate::data_structures::color::lemma_pack_of_channels(merged@[k]);
        crate::data_structures::color::lemma_pack_of_channels(first@[k]);
    }
    assert(merged@ =~= first@);
}

/// The rounded mean over all images of one channel of one pixel.
fn mean_channel(images: &Vec<Image>, x: usize, y: usize, place: usize) -> (mean: u8)
    requires
        images.len() > 0,
        congruent(images@),
        x < images[0].width(),
        y < images[0].height(),
        place < 4,
    ensures
        mean == mean_byte(column(images@, x as int, y as int, place as int)),
{
    let ghost values = column(images@, x as int, y as int, place as int);
    let mut sum: u128 = 0;
    let mut i: usize = 0;
    while i < images.len()
        invariant
            i <= images.len(),
            congruent(images@),
            x < images[0].width(),
            y < images[0].height(),
            place < 4,
            values == column(images@, x as int, y as int, place as int),
            sum == total(values.take(i as int)),
            sum <= 255 * i,
        decreases images.len() - i,
    {
        proof {
            crate::data_structures::image::lemma_place_in_range(
                x as int,
                y as int,
                images[i as int].width() as int,
                images[i as int].height() as int,
            );
        }
        let word = images[i].get_bytes(x, y);
        let byte = unpack_channel(word, place);
        proof {
            assert(values.take(i + 1).drop_last() =~= values.take(i as int));
            assert(values.take(i + 1).last() == byte);
        }
        sum = sum + byte as u128;
        i = i + 1;
    }
    proof {
        assert(values.take(i as int) =~= values);
        lemma_mean_is_byte(values);
    }
    let count: u128 = images.len() as u128;
    ((sum + count / 2) / count) as u8
}

/// The mean of the images, where there is one: `None` where there is no
/// image, or where the images are not all of one size.
pub fn merge(images: &Vec<Image>) -> (merged: Option<Image>)
    ensures
        merged is Some <==> images.len() > 0 && congruent(images@),
        merged matches Some(image) ==> is_mean_of(image, images@),
{
    if images.len() == 0 {
        return None;
    }
    let width = images[0].width();
    let height = images[0].height();
    let mut i: usize = 0;
    while i < images.len()
        invariant
            i <= images.len(),
            images.len() > 0,
            width == images[0].width(),
            height == images[0].height(),
            forall|k: int|
                0 <= k < i ==> (#[trigger] images[k]).well_formed() && images[k].width() == width
                    && images[k].height() == height,
        decreases images.len() - i,
    {
        if images[i].width() != width || images[i].height() != height {
            return None;
        }
        i = i + 1;
    }
    proof {
        assert(images[0].well_formed());
    }
    let total_pixels: usize = images[0].pixels().len();
    let mut merged = Image::new(width, height);
    let mut y: usize = 0;
    while y < height
        invariant
            y <= height,
            images.len() > 0,
            congruent(images@),
            width == images[0].width(),
            height == images[0].height(),
            merged.well_formed(),
            merged.width() == width,
            merged.height() == height,
            forall|a: int, b: int, place: int|
                0 <= a < width && 0 <= b < y && 0 <= place < 4 ==> #[trigger] channel(merged.at(a, b), place)
                    == mean_byte(column(images@, a, b, place)),
        decreases height - y,
    {
        let mut x: usize = 0;
        while x < width
            invariant
                y < height,
                x <= width,
                images.len() > 0,
                congruent(images@),
                width == images[0].width(),
                height == images[0].height(),
                merged.well_formed(),
                merged.width() == width,
                merged.height() == height,
                forall|a: int, b: int, place: int|
                    0 <= a < width && 0 <= b < y && 0 <= place < 4 ==> #[trigger] channel(merged.at(a, b), place)
                        == mean_byte(column(images@, a, b, place)),
                forall|a: int, place: int|
                    0 <= a < x && 0 <= place < 4 ==> #[trigger] channel(merged.at(a, y as int), place)
                        == mean_byte(column(images@, a, y as int, place)),
            decreases width - x,
        {
            let red = mean_channel(images, x, y, 0);
            let green = mean_channel(images, x, y, 1);
            let blue = mean_channel(images, x, y, 2);
            let alpha = mean_channel(images, x, y, 3);
            let word = pack_channels(red, green, blue, alpha);
            let ghost before = merged;
            proof {
                crate::data_structures::image::lemma_place_in_range(x as int, y as int, width as int, height as int);
            }
            merged.set_bytes(x, y, word);
            proof {
                lemma_channel_of_pack(red, green, blue, alpha);
                assert(merged.at(x as int, y as int) == word);
                assert forall|a: int, b: int| 0 <= a < width && 0 <= b < height && !(a == x && b
                    == y) implies #[trigger] merged.at(a, b)
                    == before.at(a, b) by {
                    lemma_places_differ(a, b, x as int, y as int, width as int);
                    crate::data_structures::image::lemma_place_in_range(a, b, width as int, height as int);
                }
            }
            x = x + 1;
        }
        y = y + 1;
    }
    Some(merged)
}

/// Two places of a raster that differ stand at different places of the
/// row-by-row sequence.
proof fn lemma_places_differ(a: int, b: int, x: int, y: int, width: int)
    requires
        0 <= a < width,
        0 <= x < width,
        0 <= b,
        0 <= y,
        !(a == x && b == y),
    ensures
        b * width + a != y * width + x,
{
    if b < y {
        assert(b * width + a < y * width + x) by (nonlinear_arith)
            requires
                b < y,
                0 <= a < width,
                0 <= x,
        ;
    } else if y < b {
        assert(y * width + x < b * width + a) by (nonlinear_arith)
            requires
                y < b,
                0 <= x < width,
                0 <= a,
        ;
    }
}

} // verus!

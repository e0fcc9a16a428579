use vstd::prelude::*;

use crate::config::{Initializer, KMeansAlgorithm, KMeansConfig};
use crate::engine::spec_kmeans_run;
use crate::kmeans::{run_matches, KMeans};
use crate::remap::{
    palette_wf, remap_pixels, sample_colors, spec_remap, spec_sampled,
};
use crate::types::{all_in_range, Color3, Color4, CHANNEL_MAX, COORD_MAX, SCALE};
use crate::utils::{num_distinct_colors, spec_distinct_colors};

verus! {

/// The palette remapper: samples the image at a stride, runs the
/// clustering engine over the sampled colors, and substitutes every
/// pixel's color channels with its nearest palette entry.
#[derive(Debug)]
pub struct ColorCruncher {
    pub kmeans: KMeans,
    pub max_colors: usize,
    pub sample_rate: usize,
    pub channels: usize,
}

/// Builder for `ColorCruncher`: unset fields fall back to the documented
/// defaults, and the last write of a field wins.
#[derive(Clone, Debug)]
pub struct ColorCruncherBuilder {
    pub max_colors: Option<usize>,
    pub channels: Option<usize>,
    pub sample_rate: Option<usize>,
    pub tolerance: Option<u32>,
    pub max_iterations: Option<usize>,
    pub initializer: Option<Initializer>,
    pub algorithm: Option<KMeansAlgorithm>,
    pub seed: Option<u64>,
}

impl Default for ColorCruncherBuilder {
    fn default() -> (b: ColorCruncherBuilder)
        ensures
            b.max_colors is None,
            b.channels is None,
            b.sample_rate is None,
            b.tolerance is None,
            b.max_iterations is None,
            b.initializer is None,
            b.algorithm is None,
            b.seed is None,
    {
        ColorCruncherBuilder {
            max_colors: None,
            channels: None,
            sample_rate: None,
            tolerance: None,
            max_iterations: None,
            initializer: None,
            algorithm: None,
            seed: None,
        }
    }
}

impl ColorCruncherBuilder {
    pub fn new() -> (b: ColorCruncherBuilder)
        ensures
            b.max_colors is None,
            b.channels is None,
            b.sample_rate is None,
            b.tolerance is None,
            b.max_iterations is None,
            b.initializer is None,
            b.algorithm is None,
            b.seed is None,
    {
        ColorCruncherBuilder {
            max_colors: None,
            channels: None,
            sample_rate: None,
            tolerance: None,
            max_iterations: None,
            initializer: None,
            algorithm: None,
            seed: None,
        }
    }

    pub fn with_max_colors(self, max_colors: usize) -> (b: ColorCruncherBuilder)
        ensures
            b == (ColorCruncherBuilder { max_colors: Some(max_colors), ..self }),
    {
        ColorCruncherBuilder { max_colors: Some(max_colors), ..self }
    }

    pub fn with_channels(self, channels: usize) -> (b: ColorCruncherBuilder)
        ensures
            b == (ColorCruncherBuilder { channels: Some(channels), ..self }),
    {
        ColorCruncherBuilder { channels: Some(channels), ..self }
    }

    pub fn with_sample_rate(self, sample_rate: usize) -> (b: ColorCruncherBuilder)
        ensures
            b == (ColorCruncherBuilder { sample_rate: Some(sample_rate), ..self }),
    {
        ColorCruncherBuilder { sample_rate: Some(sample_rate), ..self }
    }

    /// Tolerance in `1 / SCALE` raw channel units.
    pub fn with_tolerance(self, tolerance: u32) -> (b: ColorCruncherBuilder)
        ensures
            b == (ColorCruncherBuilder { tolerance: Some(tolerance), ..self }),
    {
        ColorCruncherBuilder { tolerance: Some(tolerance), ..self }
    }

    pub fn with_max_iterations(self, max_iterations: usize) -> (b: ColorCruncherBuilder)
        ensures
            b == (ColorCruncherBuilder { max_iterations: Some(max_iterations), ..self }),
    {
        ColorCruncherBuilder { max_iterations: Some(max_iterations), ..self }
    }

    pub fn with_initializer(self, initializer: Initializer) -> (b: ColorCruncherBuilder)
        ensures
            b == (ColorCruncherBuilder { initializer: Some(initializer), ..self }),
    {
        ColorCruncherBuilder { initializer: Some(initializer), ..self }
    }

    pub fn with_algorithm(self, algorithm: KMeansAlgorithm) -> (b: ColorCruncherBuilder)
        ensures
            b == (ColorCruncherBuilder { algorithm: Some(algorithm), ..self }),
    {
        ColorCruncherBuilder { algorithm: Some(algorithm), ..self }
    }

    pub fn with_seed(self, seed: u64) -> (b: ColorCruncherBuilder)
        ensures
            b == (ColorCruncherBuilder { seed: Some(seed), ..self }),
    {
        ColorCruncherBuilder { seed: Some(seed), ..self }
    }

    /// The configuration the builder stands for: set fields as given,
    /// unset fields at their defaults.
    pub open spec fn spec_config(self) -> KMeansConfig {
        KMeansConfig {
            k: if self.max_colors is Some {
                self.max_colors->0
            } else {
                3
            },
            max_iterations: if self.max_iterations is Some {
                self.max_iterations->0
            } else {
                100
            },
            tolerance: if self.tolerance is Some {
                self.tolerance->0
            } else {
                1
            },
            algorithm: if self.algorithm is Some {
                self.algorithm->0
            } else {
                KMeansAlgorithm::Lloyd
            },
            initializer: if self.initializer is Some {
                self.initializer->0
            } else {
                Initializer::KMeansPlusPlus
            },
            seed: self.seed,
        }
    }

    fn build_config(&self) -> (c: KMeansConfig)
        ensures
            c == self.spec_config(),
    {
        let default_config = KMeansConfig::default();
        let k = match self.max_colors {
            Some(k) => k,
            None => default_config.k,
        };
        let max_iterations = match self.max_iterations {
            Some(m) => m,
            None => default_config.max_iterations,
        };
        let tolerance = match self.tolerance {
            Some(t) => t,
            None => default_config.tolerance,
        };
        let algorithm = match self.algorithm {
            Some(a) => a,
            None => default_config.algorithm,
        };
        let initializer = match self.initializer {
            Some(i) => i,
            None => default_config.initializer,
        };
        KMeansConfig { k, max_iterations, tolerance, algorithm, initializer, seed: self.seed }
    }

    /// Builds the remapper over the sequential engine, with the sampling
    /// stride and channel count defaulting to every pixel and three
    /// channels.
    pub fn build(&self) -> (c: ColorCruncher)
        ensures
            c.kmeans matches KMeans::Cpu(cpu) && cpu.0 == self.spec_config(),
            c.max_colors == self.spec_config().k,
            c.sample_rate == if self.sample_rate is Some {
                self.sample_rate->0
            } else {
                1
            },
            c.channels == if self.channels is Some {
                self.channels->0
            } else {
                3
            },
    {
        let kmeans_config = self.build_config();
        let max_colors = kmeans_config.k;
        let kmeans = KMeans::new(kmeans_config);
        let sample_rate = match self.sample_rate {
            Some(r) => r,
            None => 1,
        };
        let channels = match self.channels {
            Some(c) => c,
            None => 3,
        };
        ColorCruncher { kmeans, max_colors, sample_rate, channels }
    }
}

/// The byte-valued palette read off the final centroids: each fixed-point
/// channel rounded down to a whole raw unit, with a zero fourth channel
/// (remapping compares color channels only).
pub open spec fn spec_palette_of(cents: Seq<Color4>) -> Seq<Color4> {
    Seq::new(
        cents.len(),
        |j: int|
            Color4 { r: cents[j].r / SCALE, g: cents[j].g / SCALE, b: cents[j].b / SCALE, a: 0 },
    )
}

/// The distinct colors of `s`, in order of first appearance, over the
/// first `n` entries.
pub open spec fn spec_first_distinct(s: Seq<Color4>, n: int) -> Seq<Color4>
    decreases n,
{
    if n <= 0 {
        Seq::empty()
    } else {
        let prev = spec_first_distinct(s, n - 1);
        if s.take(n - 1).contains(s[n - 1]) {
            prev
        } else {
            prev.push(s[n - 1])
        }
    }
}

impl ColorCruncher {
    /// The configuration of the engine the remapper carries.
    pub open spec fn spec_cfg(self) -> KMeansConfig {
        match self.kmeans {
            KMeans::Cpu(c) => c.0,
            KMeans::Gpu(g) => g.config,
        }
    }

    /// A usable remapper: three or four channels, a positive sampling
    /// stride, a positive color budget that matches the engine's cluster
    /// count, and an algorithm its backend carries.
    pub open spec fn wf(self) -> bool {
        &&& self.channels == 3 || self.channels == 4
        &&& 1 <= self.sample_rate <= 0x100_0000
        &&& self.max_colors >= 1
        &&& self.spec_cfg().k == self.max_colors
        &&& (self.kmeans matches KMeans::Cpu(c) ==> c.0.algorithm.is_cpu())
    }

    /// The color budget the remapper was built with.
    pub fn max_colors(&self) -> (m: usize)
        ensures
            m == self.max_colors,
    {
        self.max_colors
    }

    /// The sampled clustering input: every `sample_rate`-th pixel chunk,
    /// with the fourth channel carried along on four-channel data.
    pub fn chunk_pixels_vec4u(&self, pixels: &Vec<u8>) -> (out: Vec<Color4>)
        requires
            self.channels == 3 || self.channels == 4,
            1 <= self.sample_rate <= 0x100_0000,
            pixels.len() <= 0x300_0000,
        ensures
            out@ == spec_sampled(pixels@, self.channels as int, self.sample_rate as int, true),
            all_in_range(out@, CHANNEL_MAX as int),
            3 * out.len() <= pixels.len(),
    {
        sample_colors(pixels, self.channels, self.sample_rate, true)
    }

    /// What quantization returns when the engine ran with seed `s`.
    pub open spec fn spec_quantized(self, pixels: Seq<u8>, seed: u64) -> Seq<u8> {
        let sampled = spec_sampled(pixels, self.channels as int, self.sample_rate as int, true);
        let cfg = self.spec_cfg();
        let cents = spec_kmeans_run(
            sampled,
            cfg.k as nat,
            cfg.tolerance,
            cfg.max_iterations as nat,
            cfg.initializer,
            seed,
        ).1;
        spec_remap(pixels, self.channels as int, spec_palette_of(cents))
    }

    /// Quantizes the image. If the sampled colors already fit the color
    /// budget the input is returned unchanged, byte for byte; otherwise
    /// every pixel's color channels are replaced by its nearest palette
    /// entry's, with the fourth channel copied through, and the output
    /// has exactly the input's length and layout.
    pub fn quantize_image(&self, pixels: &Vec<u8>) -> (r: Vec<u8>)
        requires
            self.wf(),
            pixels.len() <= 0x300_0000,
        ensures
            spec_distinct_colors(
                spec_sampled(pixels@, self.channels as int, self.sample_rate as int, true),
            ) <= self.max_colors ==> r@ == pixels@,
            spec_distinct_colors(
                spec_sampled(pixels@, self.channels as int, self.sample_rate as int, true),
            ) > self.max_colors ==> {
                &&& r@.len() == pixels@.len()
                &&& (self.spec_cfg().seed matches Some(s) ==> r@ == self.spec_quantized(pixels@, s))
                &&& exists|s: u64| r@ == self.spec_quantized(pixels@, s)
            },
    {
        let image_data = self.chunk_pixels_vec4u(pixels);
        let distinct = num_distinct_colors(&image_data);
        if distinct <= self.max_colors {
            return copy_bytes(pixels);
        }
        proof {
            image_data@.lemma_cardinality_of_set();
        }
        let run = match self.kmeans {
            KMeans::Cpu(ref c) => c.run(&image_data),
            KMeans::Gpu(ref g) => crate::kmeans::run_validated(&image_data, &g.config, false),
        };
        match run {
            Ok(p) => {
                let cents = p.1;
                let palette = palette_bytes(&cents);
                let ghost cfg = self.spec_cfg();
                proof {
                    assert(palette_wf(palette@));
                }
                let out = remap_pixels(pixels, self.channels, &palette);
                proof {
                    let sampled = image_data@;
                    let s0 = choose|s: u64| run_matches(sampled, cfg, s, p.0@, p.1@);
                    assert(out@ == self.spec_quantized(pixels@, s0));
                    assert(exists|s: u64| out@ == self.spec_quantized(pixels@, s)) by {
                        assert(out@ == self.spec_quantized(pixels@, s0));
                    }
                }
                out
            },
            Err(_) => {
                proof {
                    assert(false);
                }
                copy_bytes(pixels)
            },
        }
    }

    /// The reduced palette for the image: when the sampled colors stay
    /// under the color budget, they are returned themselves, in order of
    /// first appearance; otherwise the engine's centroids are returned,
    /// rounded down to whole channel units.
    pub fn create_palette(&self, pixels: &Vec<u8>) -> (r: Vec<Color3>)
        requires
            self.wf(),
            pixels.len() <= 0x300_0000,
        ensures
            spec_distinct_colors(
                spec_sampled(pixels@, self.channels as int, self.sample_rate as int, true),
            ) < self.max_colors ==> r@ == project_palette3(
                spec_first_distinct(
                    spec_sampled(pixels@, self.channels as int, self.sample_rate as int, true),
                    spec_sampled(
                        pixels@,
                        self.channels as int,
                        self.sample_rate as int,
                        true,
                    ).len() as int,
                ),
            ),
            spec_distinct_colors(
                spec_sampled(pixels@, self.channels as int, self.sample_rate as int, true),
            ) >= self.max_colors ==> {
                &&& r@.len() == self.max_colors
                &&& exists|s: u64| r@ == self.spec_palette_for(pixels@, s)
                &&& (self.spec_cfg().seed matches Some(s) ==> r@ == self.spec_palette_for(
                    pixels@,
                    s,
                ))
            },
    {
        let image_data = self.chunk_pixels_vec4u(pixels);
        let distinct = num_distinct_colors(&image_data);
        if distinct < self.max_colors {
            let firsts = first_distinct_colors(&image_data);
            let mut out: Vec<Color3> = Vec::new();
            let mut i: usize = 0;
            while i < firsts.len()
                invariant
                    0 <= i <= firsts.len(),
                    out.len() == i,
                    forall|l: int|
                        0 <= l < i ==> out@[l] == project_palette3(firsts@)[l],
                decreases firsts.len() - i,
            {
                out.push(firsts[i].to3());
                i = i + 1;
            }
            proof {
                assert(out@ =~= project_palette3(firsts@));
            }
            return out;
        }
        proof {
            image_data@.lemma_cardinality_of_set();
        }
        let run = match self.kmeans {
            KMeans::Cpu(ref c) => c.run(&image_data),
            KMeans::Gpu(ref g) => crate::kmeans::run_validated(&image_data, &g.config, false),
        };
        match run {
            Ok(p) => {
                let cents = p.1;
                let mut out: Vec<Color3> = Vec::new();
                let mut j: usize = 0;
                while j < cents.len()
                    invariant
                        0 <= j <= cents.len(),
                        out.len() == j,
                        forall|l: int| 0 <= l < j ==> out@[l] == cents@[l].spec_floor3(),
                    decreases cents.len() - j,
                {
                    out.push(cents[j].floor3());
                    j = j + 1;
                }
                let ghost cfg = self.spec_cfg();
                proof {
                    let sampled = image_data@;
                    let s0 = choose|s: u64| run_matches(sampled, cfg, s, p.0@, p.1@);
                    assert(out@ =~= self.spec_palette_for(pixels@, s0));
                    assert(exists|s: u64| out@ == self.spec_palette_for(pixels@, s)) by {
                        assert(out@ == self.spec_palette_for(pixels@, s0));
                    }
                }
                out
            },
            Err(_) => {
                proof {
                    assert(false);
                }
                Vec::new()
            },
        }
    }

    /// What the palette is when the engine ran with seed `s`: the final
    /// centroids rounded down to whole channel units.
    pub open spec fn spec_palette_for(self, pixels: Seq<u8>, seed: u64) -> Seq<Color3> {
        let sampled = spec_sampled(pixels, self.channels as int, self.sample_rate as int, true);
        let cfg = self.spec_cfg();
        let cents = spec_kmeans_run(
            sampled,
            cfg.k as nat,
            cfg.tolerance,
            cfg.max_iterations as nat,
            cfg.initializer,
            seed,
        ).1;
        Seq::new(cents.len(), |j: int| cents[j].spec_floor3())
    }
}

/// The color channels of each palette entry, as a three-channel color.
pub open spec fn project_palette3(palette: Seq<Color4>) -> Seq<Color3> {
    Seq::new(palette.len(), |j: int| Color3 { r: palette[j].r, g: palette[j].g, b: palette[j].b })
}

/// A byte-for-byte copy of the buffer.
pub(crate) fn copy_bytes(pixels: &Vec<u8>) -> (out: Vec<u8>)
    ensures
        out@ == pixels@,
{
    let mut out: Vec<u8> = Vec::new();
    let mut i: usize = 0;
    while i < pixels.len()
        invariant
            0 <= i <= pixels.len(),
            out.len() == i,
            forall|l: int| 0 <= l < i ==> out@[l] == pixels@[l],
        decreases pixels.len() - i,
    {
        out.push(pixels[i]);
        i = i + 1;
    }
    proof {
        assert(out@ =~= pixels@);
    }
    out
}

/// Turns fixed-point centroids into the byte palette used for remapping.
pub(crate) fn palette_bytes(cents: &Vec<Color4>) -> (palette: Vec<Color4>)
    requires
        all_in_range(cents@, COORD_MAX as int),
    ensures
        palette@ == spec_palette_of(cents@),
        palette.len() == cents.len(),
        forall|j: int|
            0 <= j < palette.len() ==> (#[trigger] palette@[j]).in_range(CHANNEL_MAX as int),
        forall|j: int| 0 <= j < palette.len() ==> (#[trigger] palette@[j]).a == 0,
{
    let mut palette: Vec<Color4> = Vec::new();
    let mut j: usize = 0;
    while j < cents.len()
        invariant
            0 <= j <= cents.len(),
            all_in_range(cents@, COORD_MAX as int),
            palette.len() == j,
            forall|l: int| 0 <= l < j ==> palette@[l] == spec_palette_of(cents@)[l],
            forall|l: int|
                0 <= l < j ==> (#[trigger] palette@[l]).in_range(CHANNEL_MAX as int),
            forall|l: int| 0 <= l < j ==> (#[trigger] palette@[l]).a == 0,
        decreases cents.len() - j,
    {
        let c = cents[j];
        proof {
            assert(cents@[j as int].in_range(COORD_MAX as int));
        }
        let e = Color4 { r: c.r / SCALE, g: c.g / SCALE, b: c.b / SCALE, a: 0 };
        palette.push(e);
        j = j + 1;
    }
    proof {
        assert(palette@ =~= spec_palette_of(cents@));
    }
    palette
}

/// The distinct colors of `s` in order of first appearance.
fn first_distinct_colors(s: &Vec<Color4>) -> (out: Vec<Color4>)
    ensures
        out@ == spec_first_distinct(s@, s.len() as int),
{
    let mut out: Vec<Color4> = Vec::new();
    let mut i: usize = 0;
    while i < s.len()
        invariant
            0 <= i <= s.len(),
            out@ == spec_first_distinct(s@, i as int),
        decreases s.len() - i,
    {
        let x = s[i];
        let mut seen = false;
        let mut j: usize = 0;
        while j < i
            invariant
                0 <= j <= i,
                i < s.len(),
                x == s@[i as int],
                seen == exists|l: int| 0 <= l < j && s@[l] == x,
            decreases i - j,
        {
            if s[j] == x {
                seen = true;
            }
            j = j + 1;
        }
        proof {
            let prefix = s@.take(i as int);
            assert(seen == prefix.contains(x)) by {
                if seen {
                    let l = choose|l: int| 0 <= l < i && s@[l] == x;
                    assert(prefix[l] == x);
                    assert(prefix.contains(x));
                }
                if prefix.contains(x) {
                    let l = choose|l: int| 0 <= l < prefix.len() && prefix[l] == x;
                    assert(s@[l] == x);
                }
            }
        }
        if !seen {
            out.push(x);
        }
        i = i + 1;
    }
    out
}

} // verus!

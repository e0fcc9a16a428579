use vstd::prelude::*;

use crate::distance::{
    dist_sq, find_closest_centroid, lemma_dist_sq_zero, lemma_spec_closest, spec_closest,
};
use crate::types::{all_in_range, Color4, CHANNEL_MAX, COORD_MAX};

verus! {

/// The color vector read from one pixel chunk. The fourth channel is
/// taken from the buffer only when `with_alpha` holds on four-channel
/// data; otherwise it is zero.
pub open spec fn spec_chunk_color(
    pixels: Seq<u8>,
    base: int,
    channels: int,
    with_alpha: bool,
) -> Color4 {
    Color4 {
        r: pixels[base] as u32,
        g: pixels[base + 1] as u32,
        b: pixels[base + 2] as u32,
        a: if with_alpha && channels == 4 {
            pixels[base + 3] as u32
        } else {
            0
        },
    }
}

/// The colors sampled from the buffer starting at `base`: one chunk of
/// `channels` bytes every `rate` chunks, until fewer than `channels`
/// bytes remain.
pub open spec fn spec_sampled_from(
    pixels: Seq<u8>,
    channels: int,
    rate: int,
    with_alpha: bool,
    base: int,
) -> Seq<Color4>
    decreases pixels.len() - base,
    when channels >= 1 && rate >= 1 && base >= 0
    via spec_sampled_from_dec
{
    if base + channels > pixels.len() {
        Seq::empty()
    } else {
        seq![spec_chunk_color(pixels, base, channels, with_alpha)] + spec_sampled_from(
            pixels,
            channels,
            rate,
            with_alpha,
            sample_step(pixels, channels, rate, base),
        )
    }
}

/// The next sampling offset, clamped to the buffer length so that the
/// remaining-length measure never turns negative.
pub open spec fn sample_step(pixels: Seq<u8>, channels: int, rate: int, base: int) -> int {
    if base + rate * channels > pixels.len() {
        pixels.len() as int
    } else {
        base + rate * channels
    }
}

#[via_fn]
proof fn spec_sampled_from_dec(
    pixels: Seq<u8>,
    channels: int,
    rate: int,
    with_alpha: bool,
    base: int,
) {
    assert(rate * channels >= 1) by (nonlinear_arith)
        requires
            rate >= 1,
            channels >= 1;
}

/// The sampled clustering input: every `rate`-th chunk of the buffer.
pub open spec fn spec_sampled(
    pixels: Seq<u8>,
    channels: int,
    rate: int,
    with_alpha: bool,
) -> Seq<Color4> {
    spec_sampled_from(pixels, channels, rate, with_alpha, 0)
}

/// At least three bytes are consumed per sample, so three times the
/// sample count never exceeds the buffer length.
pub proof fn lemma_sampled_len(pixels: Seq<u8>, channels: int, rate: int, with_alpha: bool, base: int)
    requires
        channels >= 3,
        rate >= 1,
        0 <= base,
    ensures
        3 * spec_sampled_from(pixels, channels, rate, with_alpha, base).len() <= if pixels.len()
            - base >= 0 {
            pixels.len() - base
        } else {
            0
        },
    decreases pixels.len() - base,
{
    if base + channels <= pixels.len() {
        assert(rate * channels >= 3) by (nonlinear_arith)
            requires
                rate >= 1,
                channels >= 3;
        lemma_sampled_len(pixels, channels, rate, with_alpha, sample_step(pixels, channels, rate, base));
    }
}

/// Every sampled color has byte-valued channels.
pub proof fn lemma_sampled_in_range(
    pixels: Seq<u8>,
    channels: int,
    rate: int,
    with_alpha: bool,
    base: int,
)
    requires
        channels >= 1,
        rate >= 1,
        0 <= base,
    ensures
        all_in_range(spec_sampled_from(pixels, channels, rate, with_alpha, base), CHANNEL_MAX as int),
    decreases pixels.len() - base,
{
    if base + channels <= pixels.len() {
        assert(rate * channels >= 1) by (nonlinear_arith)
            requires
                rate >= 1,
                channels >= 1;
        lemma_sampled_in_range(pixels, channels, rate, with_alpha, sample_step(pixels, channels, rate, base));
        let s = spec_sampled_from(pixels, channels, rate, with_alpha, base);
        let rest = spec_sampled_from(
            pixels,
            channels,
            rate,
            with_alpha,
            sample_step(pixels, channels, rate, base),
        );
        assert forall|i: int| 0 <= i < s.len() implies (#[trigger] s[i]).in_range(
            CHANNEL_MAX as int,
        ) by {
            if i > 0 {
                assert(s[i] == rest[i - 1]);
                assert(rest[i - 1].in_range(CHANNEL_MAX as int));
            }
        }
    }
}

/// Samples the buffer into color vectors, every `rate`-th chunk.
pub fn sample_colors(pixels: &Vec<u8>, channels: usize, rate: usize, with_alpha: bool) -> (out: Vec<
    Color4,
>)
    requires
        3 <= channels <= 4,
        1 <= rate <= 0x100_0000,
        pixels.len() <= 0x300_0000,
    ensures
        out@ == spec_sampled(pixels@, channels as int, rate as int, with_alpha),
        all_in_range(out@, CHANNEL_MAX as int),
        3 * out.len() <= pixels.len(),
{
    proof {
        lemma_sampled_in_range(pixels@, channels as int, rate as int, with_alpha, 0);
        lemma_sampled_len(pixels@, channels as int, rate as int, with_alpha, 0);
        assert(1 <= rate * channels <= 0x400_0000) by (nonlinear_arith)
            requires
                1 <= rate <= 0x100_0000,
                3 <= channels <= 4;
    }
    let ghost whole = spec_sampled(pixels@, channels as int, rate as int, with_alpha);
    let mut out: Vec<Color4> = Vec::new();
    let step = rate * channels;
    let mut base: usize = 0;
    while base + channels <= pixels.len()
        invariant
            3 <= channels <= 4,
            1 <= rate <= 0x100_0000,
            pixels.len() <= 0x300_0000,
            step == rate * channels,
            1 <= step <= 0x400_0000,
            base <= pixels.len() + step,
            whole == spec_sampled(pixels@, channels as int, rate as int, with_alpha),
            out@ + spec_sampled_from(pixels@, channels as int, rate as int, with_alpha, base as int)
                =~= whole,
        decreases pixels.len() + step - base,
    {
        let a: u32 = if with_alpha && channels == 4 {
            pixels[base + 3] as u32
        } else {
            0
        };
        let c = Color4 {
            r: pixels[base] as u32,
            g: pixels[base + 1] as u32,
            b: pixels[base + 2] as u32,
            a,
        };
        let ghost out_old = out@;
        out.push(c);
        proof {
            assert(c == spec_chunk_color(pixels@, base as int, channels as int, with_alpha));
            assert(out@ =~= out_old + seq![c]);
            let b2 = sample_step(pixels@, channels as int, rate as int, base as int);
            assert(out@ + spec_sampled_from(pixels@, channels as int, rate as int, with_alpha, b2)
                =~= whole);
            if b2 != base as int + step {
                assert(spec_sampled_from(
                    pixels@,
                    channels as int,
                    rate as int,
                    with_alpha,
                    base as int + step,
                ) =~= Seq::<Color4>::empty());
                assert(spec_sampled_from(pixels@, channels as int, rate as int, with_alpha, b2)
                    =~= Seq::<Color4>::empty());
            }
        }
        base = base + step;
    }
    proof {
        assert(spec_sampled_from(
            pixels@,
            channels as int,
            rate as int,
            with_alpha,
            base as int,
        ) =~= Seq::<Color4>::empty());
        assert(out@ =~= whole);
    }
    out
}

/// One remapped chunk: the pixel's color channels are replaced by those
/// of the nearest palette entry (compared over the color channels alone),
/// and the fourth channel, if present, is copied through unchanged.
pub open spec fn spec_remap_chunk(
    pixels: Seq<u8>,
    base: int,
    channels: int,
    palette: Seq<Color4>,
) -> Seq<u8> {
    let px = spec_chunk_color(pixels, base, channels, false);
    let c = palette[spec_closest(px, palette)];
    if channels == 4 {
        seq![c.r as u8, c.g as u8, c.b as u8, pixels[base + 3]]
    } else {
        seq![c.r as u8, c.g as u8, c.b as u8]
    }
}

/// The remapped buffer from `base` on: whole chunks are remapped one by
/// one; the trailing bytes that do not fill a chunk pass through
/// unchanged, so the output length always equals the input length.
pub open spec fn spec_remap_from(
    pixels: Seq<u8>,
    channels: int,
    palette: Seq<Color4>,
    base: int,
) -> Seq<u8>
    decreases pixels.len() - base,
    when channels >= 1 && 0 <= base
{
    if base + channels > pixels.len() {
        pixels.subrange(if base <= pixels.len() {
            base
        } else {
            pixels.len() as int
        }, pixels.len() as int)
    } else {
        spec_remap_chunk(pixels, base, channels, palette) + spec_remap_from(
            pixels,
            channels,
            palette,
            base + channels,
        )
    }
}

/// The whole buffer remapped onto the palette.
pub open spec fn spec_remap(pixels: Seq<u8>, channels: int, palette: Seq<Color4>) -> Seq<u8> {
    spec_remap_from(pixels, channels, palette, 0)
}

/// A palette for remapping: at least one entry, byte-valued color
/// channels, zero fourth channel.
pub open spec fn palette_wf(palette: Seq<Color4>) -> bool {
    &&& palette.len() >= 1
    &&& forall|j: int|
        0 <= j < palette.len() ==> (#[trigger] palette[j]).in_range(CHANNEL_MAX as int)
    &&& forall|j: int| 0 <= j < palette.len() ==> (#[trigger] palette[j]).a == 0
}

/// Remapping preserves the buffer length.
pub proof fn lemma_remap_len(pixels: Seq<u8>, channels: int, palette: Seq<Color4>, base: int)
    requires
        channels == 3 || channels == 4,
        0 <= base,
    ensures
        spec_remap_from(pixels, channels, palette, base).len() == if pixels.len() - base >= 0 {
            pixels.len() - base
        } else {
            0
        },
    decreases pixels.len() - base,
{
    if base + channels <= pixels.len() {
        lemma_remap_len(pixels, channels, palette, base + channels);
    }
}

/// Remapping reads the buffer only from `base` on: prefixing the buffer
/// while shifting the start leaves the result unchanged.
proof fn lemma_remap_shift(u: Seq<u8>, v: Seq<u8>, channels: int, palette: Seq<Color4>, base: int)
    requires
        channels == 3 || channels == 4,
        0 <= base,
        palette.len() >= 1,
    ensures
        spec_remap_from(u + v, channels, palette, u.len() + base) == spec_remap_from(
            v,
            channels,
            palette,
            base,
        ),
    decreases v.len() - base,
{
    let w = u + v;
    let d = u.len() as int;
    if base + channels > v.len() {
        assert(spec_remap_from(w, channels, palette, d + base) =~= spec_remap_from(
            v,
            channels,
            palette,
            base,
        ));
    } else {
        lemma_remap_shift(u, v, channels, palette, base + channels);
        assert(spec_chunk_color(w, d + base, channels, false) == spec_chunk_color(
            v,
            base,
            channels,
            false,
        ));
        assert(spec_remap_chunk(w, d + base, channels, palette) =~= spec_remap_chunk(
            v,
            base,
            channels,
            palette,
        ));
        assert(spec_remap_from(w, channels, palette, d + base) =~= spec_remap_from(
            v,
            channels,
            palette,
            base,
        ));
    }
}

/// A chunk whose color channels already equal a palette entry's remaps
/// to itself: its distance to that entry is zero, so the nearest entry
/// found has distance zero too, and equal channels.
proof fn lemma_chunk_stable(pixels: Seq<u8>, base: int, channels: int, palette: Seq<Color4>, j: int)
    requires
        channels == 3 || channels == 4,
        palette_wf(palette),
        0 <= base,
        base + channels <= pixels.len(),
        0 <= j < palette.len(),
        pixels[base] as u32 == palette[j].r,
        pixels[base + 1] as u32 == palette[j].g,
        pixels[base + 2] as u32 == palette[j].b,
    ensures
        spec_remap_chunk(pixels, base, channels, palette) == Seq::new(
            channels as nat,
            |i: int| pixels[base + i],
        ),
{
    let px = spec_chunk_color(pixels, base, channels, false);
    assert(px == palette[j]);
    assert(dist_sq(px, palette[j]) == 0);
    lemma_spec_closest(px, palette);
    let c = spec_closest(px, palette);
    assert(dist_sq(px, palette[c]) <= 0);
    assert(dist_sq(px, palette[c]) >= 0) by {
        crate::distance::lemma_dist_sq_range(px, palette[c]);
    }
    lemma_dist_sq_zero(px, palette[c]);
    assert(palette[c] == px);
    assert((palette[c].r as u8) == pixels[base]);
    assert((palette[c].g as u8) == pixels[base + 1]);
    assert((palette[c].b as u8) == pixels[base + 2]);
    assert(spec_remap_chunk(pixels, base, channels, palette) =~= Seq::new(
        channels as nat,
        |i: int| pixels[base + i],
    ));
}

/// Remap idempotence: remapping an already-remapped buffer with the same
/// palette reproduces it byte for byte — remapped output is a fixed
/// point of nearest-palette-entry assignment.
pub proof fn lemma_remap_idempotent(pixels: Seq<u8>, channels: int, palette: Seq<Color4>)
    requires
        channels == 3 || channels == 4,
        palette_wf(palette),
    ensures
        spec_remap(spec_remap(pixels, channels, palette), channels, palette) == spec_remap(
            pixels,
            channels,
            palette,
        ),
{
    lemma_remap_idempotent_from(pixels, channels, palette, 0);
}

proof fn lemma_remap_idempotent_from(
    pixels: Seq<u8>,
    channels: int,
    palette: Seq<Color4>,
    base: int,
)
    requires
        channels == 3 || channels == 4,
        palette_wf(palette),
        0 <= base,
    ensures
        spec_remap(spec_remap_from(pixels, channels, palette, base), channels, palette)
            == spec_remap_from(pixels, channels, palette, base),
    decreases pixels.len() - base,
{
    let w = spec_remap_from(pixels, channels, palette, base);
    if base + channels > pixels.len() {
        assert(w.len() < channels) by {
            lemma_remap_len(pixels, channels, palette, base);
        }
        assert(spec_remap(w, channels, palette) =~= w);
    } else {
        lemma_remap_idempotent_from(pixels, channels, palette, base + channels);
        let head = spec_remap_chunk(pixels, base, channels, palette);
        let tail = spec_remap_from(pixels, channels, palette, base + channels);
        assert(w == head + tail);
        assert(head.len() == channels);
        let px = spec_chunk_color(pixels, base, channels, false);
        let j = spec_closest(px, palette);
        assert(0 <= j < palette.len()) by {
            lemma_spec_closest(px, palette);
        }
        assert(w[0] == (palette[j].r as u8));
        assert(w[1] == (palette[j].g as u8));
        assert(w[2] == (palette[j].b as u8));
        assert(w[0] as u32 == palette[j].r);
        assert(w[1] as u32 == palette[j].g);
        assert(w[2] as u32 == palette[j].b);
        lemma_chunk_stable(w, 0, channels, palette, j);
        assert(spec_remap_chunk(w, 0, channels, palette) =~= head);
        lemma_remap_shift(head, tail, channels, palette, 0);
        assert(spec_remap_from(w, channels, palette, channels) == spec_remap(tail, channels, palette));
        assert(spec_remap(tail, channels, palette) == tail);
        assert(spec_remap(w, channels, palette) == spec_remap_chunk(w, 0, channels, palette)
            + spec_remap_from(w, channels, palette, channels));
        assert(spec_remap(w, channels, palette) =~= w);
    }
}

/// Remaps every pixel chunk of the buffer onto the nearest palette
/// entry, copying the fourth channel and any trailing bytes through.
pub fn remap_pixels(pixels: &Vec<u8>, channels: usize, palette: &Vec<Color4>) -> (out: Vec<u8>)
    requires
        channels == 3 || channels == 4,
        palette_wf(palette@),
        pixels.len() <= 0x300_0000,
    ensures
        out@ == spec_remap(pixels@, channels as int, palette@),
        out.len() == pixels.len(),
{
    proof {
        lemma_remap_len(pixels@, channels as int, palette@, 0);
    }
    let ghost whole = spec_remap(pixels@, channels as int, palette@);
    let mut out: Vec<u8> = Vec::new();
    let mut base: usize = 0;
    while base + channels <= pixels.len()
        invariant
            channels == 3 || channels == 4,
            palette_wf(palette@),
            pixels.len() <= 0x300_0000,
            base <= pixels.len(),
            whole == spec_remap(pixels@, channels as int, palette@),
            out@ + spec_remap_from(pixels@, channels as int, palette@, base as int) =~= whole,
        decreases pixels.len() + channels - base,
    {
        let px = Color4 {
            r: pixels[base] as u32,
            g: pixels[base + 1] as u32,
            b: pixels[base + 2] as u32,
            a: 0,
        };
        proof {
            assert(px == spec_chunk_color(pixels@, base as int, channels as int, false));
            assert(px.in_range(COORD_MAX as int));
            assert forall|l: int| 0 <= l < palette@.len() implies (#[trigger] palette@[l]).in_range(
                COORD_MAX as int,
            ) by {
                assert(palette@[l].in_range(CHANNEL_MAX as int));
            }
        }
        let c = find_closest_centroid(&px, palette);
        let entry = palette[c];
        let ghost out_old = out@;
        out.push(entry.r as u8);
        out.push(entry.g as u8);
        out.push(entry.b as u8);
        if channels == 4 {
            out.push(pixels[base + 3]);
        }
        proof {
            assert(out@ =~= out_old + spec_remap_chunk(
                pixels@,
                base as int,
                channels as int,
                palette@,
            ));
            assert(out@ + spec_remap_from(
                pixels@,
                channels as int,
                palette@,
                base as int + channels as int,
            ) =~= whole);
        }
        base = base + channels;
    }
    let mut rest: usize = base;
    proof {
        assert(spec_remap_from(pixels@, channels as int, palette@, base as int)
            =~= pixels@.subrange(base as int, pixels@.len() as int));
    }
    while rest < pixels.len()
        invariant
            rest <= pixels.len(),
            whole == spec_remap(pixels@, channels as int, palette@),
            out@ + pixels@.subrange(rest as int, pixels@.len() as int) =~= whole,
        decreases pixels.len() - rest,
    {
        let ghost out_old = out@;
        out.push(pixels[rest]);
        proof {
            assert(out@ + pixels@.subrange(rest as int + 1, pixels@.len() as int) =~= whole);
        }
        rest = rest + 1;
    }
    proof {
        assert(out@ =~= whole);
        lemma_remap_len(pixels@, channels as int, palette@, 0);
    }
    out
}

} // verus!

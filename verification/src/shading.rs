//! Shading a pixel, one step at a time.
//!
//! A [`Shader`] decides what is to be worked out next and what follows from
//! each answer; its driver traces the rays and blends the channels. The
//! pixel starts black. If the primary ray hits nothing it stays black.
//! Otherwise every light is taken in order: a shadow ray tells whether the
//! light is blocked, and the light's blend with the surface colour replaces
//! the pixel's colour, so the last light decides. Then one reflection ray is
//! traced along the surface normal; if it hits, the lights are taken once
//! more, blended with the colour of what the reflection hit.

use crate::color::Color;
use crate::scalar::{Scalar, ONE};
use vstd::prelude::*;

verus! {

/// The pattern of 1.0, the coefficient of a light that reaches the surface.
pub const LIT: u64 = ONE;

/// The pattern of 0.22, the coefficient of a light that is blocked.
pub const SHADOWED: u64 = 0x3FCC_28F5_C28F_5C29;

/// What the driver is to work out next.
#[derive(Clone, Copy, Debug)]
pub enum Request {
    /// Trace the primary ray through pixel `(x, y)`; answer with
    /// `Reply::Hit`.
    Primary { x: i32, y: i32 },
    /// Trace the shadow ray from the primary hit towards light number
    /// `light`; answer with `Reply::Shadow`.
    Shadow { light: usize },
    /// Blend light number `light` with `base`: with `luminosity =
    /// coefficient / d²`, where `d` is the distance from the primary hit to
    /// the light, each channel is `light colour * luminosity + base *
    /// luminosity`; answer with `Reply::Channels`.
    Blend { light: usize, coefficient: Scalar, base: Color },
    /// Trace the reflection ray, from the primary hit along its surface
    /// normal; answer with `Reply::Hit`.
    Reflection,
    /// Nothing more: the pixel has this colour.
    Done(Color),
}

/// What the driver found.
#[derive(Clone, Copy, Debug)]
pub enum Reply {
    /// The material colour of what the ray hit, or `None` where it hit
    /// nothing.
    Hit(Option<Color>),
    /// Whether the shadow ray hit anything.
    Shadow(bool),
    /// The three blended channels, red, green and blue.
    Channels(Scalar, Scalar, Scalar),
}

/// Where the shading of a pixel stands.
#[derive(Clone, Copy, Debug)]
pub enum Stage {
    /// The primary ray is being traced.
    Primary,
    /// A shadow ray is being traced.
    Shadow,
    /// A light is being blended.
    Blend,
    /// The reflection ray is being traced.
    Reflection,
    /// The colour is final.
    Finished,
}

/// The state of the shading of one pixel.
#[derive(Clone, Copy, Debug)]
pub struct Shader {
    /// The pixel's column.
    pub x: i32,
    /// The pixel's row.
    pub y: i32,
    /// How many lights the scene has.
    pub lights: usize,
    pub stage: Stage,
    /// The lights are being taken for the second time, for the reflection.
    pub reflected: bool,
    /// The light that is being taken.
    pub light: usize,
    /// Whether that light is blocked.
    pub occluded: bool,
    /// The colour that the lights are blended with.
    pub base: Color,
    /// The pixel's colour so far.
    pub color: Color,
}

/// The colour that three blended channels give.
pub open spec fn channels_color(r: Scalar, g: Scalar, b: Scalar) -> Color {
    Color { r: r.byte() as u8, g: g.byte() as u8, b: b.byte() as u8 }
}

/// The 32-bit signed number that the low bits of `index` make: the index
/// itself where it is below 2^31.
pub open spec fn signed_index(index: u64) -> int {
    let low = index % 0x1_0000_0000;
    if low >= 0x8000_0000 {
        low - 0x1_0000_0000
    } else {
        low as int
    }
}

/// The column of pixel number `index` in rows of `width` pixels: the
/// remainder of the signed index by the width, with the sign of the index.
pub open spec fn pixel_column(index: u64, width: i32) -> int {
    let i = signed_index(index);
    if i >= 0 {
        i % (width as int)
    } else {
        -((-i) % (width as int))
    }
}

/// The row of pixel number `index` in rows of `width` pixels: the quotient
/// of the signed index by the width, rounded towards zero.
pub open spec fn pixel_row(index: u64, width: i32) -> int {
    let i = signed_index(index);
    if i >= 0 {
        i / (width as int)
    } else {
        -((-i) / (width as int))
    }
}

/// Finds the column and the row of pixel number `index`.
pub fn pixel_position(index: u64, width: i32) -> (p: (i32, i32))
    requires
        width > 0,
    ensures
        p.0 == pixel_column(index, width),
        p.1 == pixel_row(index, width),
        index < 0x8000_0000 ==> p.0 == index % (width as u64) && p.1 == index / (width as u64),
{
    let i: i32 = #[verifier::truncate] (index as i32);
    assert(if index % 0x1_0000_0000 >= 0x8000_0000 {
        i < 0 && i + 0x1_0000_0000 == index % 0x1_0000_0000
    } else {
        i == index % 0x1_0000_0000
    }) by (bit_vector)
        requires
            i == (index as i32),
    ;
    (i % width, i / width)
}

impl Shader {
    /// The state before anything is known of pixel `(x, y)`.
    pub open spec fn initial(x: i32, y: i32, lights: usize) -> Shader {
        Shader {
            x,
            y,
            lights,
            stage: Stage::Primary,
            reflected: false,
            light: 0,
            occluded: false,
            base: Color { r: 0, g: 0, b: 0 },
            color: Color { r: 0, g: 0, b: 0 },
        }
    }

    /// What the driver is to work out in this state.
    pub open spec fn request(self) -> Request {
        match self.stage {
            Stage::Primary => Request::Primary { x: self.x, y: self.y },
            Stage::Shadow => Request::Shadow { light: self.light },
            Stage::Blend => Request::Blend {
                light: self.light,
                coefficient: Scalar { bits: if self.occluded { SHADOWED } else { LIT } },
                base: self.base,
            },
            Stage::Reflection => Request::Reflection,
            Stage::Finished => Request::Done(self.color),
        }
    }

    /// The state in which the lights are taken from the first on, blended
    /// with `base`. Without lights the pass is over at once.
    pub open spec fn begin_pass(self, base: Color, reflected: bool) -> Shader {
        Shader {
            stage: if self.lights > 0 {
                Stage::Shadow
            } else if reflected {
                Stage::Finished
            } else {
                Stage::Reflection
            },
            reflected,
            light: 0,
            base,
            ..self
        }
    }

    /// The state after a light has been blended: the next light, or the end
    /// of the pass.
    pub open spec fn end_light(self) -> Shader {
        if self.light + 1 < self.lights {
            Shader { stage: Stage::Shadow, light: (self.light + 1) as usize, ..self }
        } else if self.reflected {
            Shader { stage: Stage::Finished, ..self }
        } else {
            Shader { stage: Stage::Reflection, ..self }
        }
    }

    /// The state that follows on `reply`. A reply that does not answer the
    /// state's request changes nothing.
    pub open spec fn next(self, reply: Reply) -> Shader {
        match (self.stage, reply) {
            (Stage::Primary, Reply::Hit(None)) => Shader { stage: Stage::Finished, ..self },
            (Stage::Primary, Reply::Hit(Some(surface))) => self.begin_pass(surface, false),
            (Stage::Shadow, Reply::Shadow(occluded)) => Shader { stage: Stage::Blend, occluded, ..self },
            (Stage::Blend, Reply::Channels(r, g, b)) => (Shader {
                color: channels_color(r, g, b),
                ..self
            }).end_light(),
            (Stage::Reflection, Reply::Hit(None)) => Shader { stage: Stage::Finished, ..self },
            (Stage::Reflection, Reply::Hit(Some(mirrored))) => self.begin_pass(mirrored, true),
            _ => self,
        }
    }

    /// The state after a row of replies.
    pub open spec fn run(self, replies: Seq<Reply>) -> Shader
        decreases replies.len(),
    {
        if replies.len() == 0 {
            self
        } else {
            self.run(replies.drop_last()).next(replies.last())
        }
    }

    /// The light that is being taken is one of the scene's.
    pub open spec fn well_formed(self) -> bool {
        (self.stage is Shadow || self.stage is Blend) ==> self.light < self.lights
    }

    /// `reply` answers the state's request.
    pub open spec fn answered_by(self, reply: Reply) -> bool {
        match (self.stage, reply) {
            (Stage::Primary, Reply::Hit(_)) => true,
            (Stage::Shadow, Reply::Shadow(_)) => true,
            (Stage::Blend, Reply::Channels(_, _, _)) => true,
            (Stage::Reflection, Reply::Hit(_)) => true,
            _ => false,
        }
    }

    /// How many answers the shading can still take before it is finished:
    /// two for each light that is left in this pass, and, in the first pass,
    /// one for the reflection ray and two for each light of a second pass.
    pub open spec fn remaining(self) -> int {
        let second_pass = if self.reflected {
            0
        } else {
            1 + 2 * self.lights
        };
        match self.stage {
            Stage::Primary => 2 + 4 * self.lights,
            Stage::Shadow => 2 * (self.lights - self.light) + second_pass,
            Stage::Blend => 2 * (self.lights - self.light) - 1 + second_pass,
            Stage::Reflection => 1 + 2 * self.lights,
            Stage::Finished => 0,
        }
    }

    /// Begins the shading of pixel number `index` of an image with rows of
    /// `width` pixels, in a scene of `lights` lights.
    pub fn start(index: u64, width: i32, lights: usize) -> (shader: Shader)
        requires
            width > 0,
        ensures
            shader == Shader::initial(
                pixel_column(index, width) as i32,
                pixel_row(index, width) as i32,
                lights,
            ),
            shader.well_formed(),
    {
        let (x, y) = pixel_position(index, width);
        Shader {
            x,
            y,
            lights,
            stage: Stage::Primary,
            reflected: false,
            light: 0,
            occluded: false,
            base: Color::black(),
            color: Color::black(),
        }
    }

    /// Tells what the driver is to work out next.
    pub fn pending(&self) -> (request: Request)
        ensures
            request == self.request(),
    {
        match self.stage {
            Stage::Primary => Request::Primary { x: self.x, y: self.y },
            Stage::Shadow => Request::Shadow { light: self.light },
            Stage::Blend => Request::Blend {
                light: self.light,
                coefficient: Scalar { bits: if self.occluded { SHADOWED } else { LIT } },
                base: self.base,
            },
            Stage::Reflection => Request::Reflection,
            Stage::Finished => Request::Done(self.color),
        }
    }

    /// Takes the driver's answer and moves to the state that follows.
    pub fn advance(&mut self, reply: Reply)
        ensures
            *final(self) == old(self).next(reply),
            old(self).well_formed() ==> final(self).well_formed(),
    {
        match (self.stage, reply) {
            (Stage::Primary, Reply::Hit(None)) => {
                self.stage = Stage::Finished;
            },
            (Stage::Primary, Reply::Hit(Some(surface))) => {
                self.enter_pass(surface, false);
            },
            (Stage::Shadow, Reply::Shadow(occluded)) => {
                self.occluded = occluded;
                self.stage = Stage::Blend;
            },
            (Stage::Blend, Reply::Channels(r, g, b)) => {
                self.color = Color::from_channels(r, g, b);
                if self.lights > 0 && self.light < self.lights - 1 {
                    self.light = self.light + 1;
                    self.stage = Stage::Shadow;
                } else if self.reflected {
                    self.stage = Stage::Finished;
                } else {
                    self.stage = Stage::Reflection;
                }
            },
            (Stage::Reflection, Reply::Hit(None)) => {
                self.stage = Stage::Finished;
            },
            (Stage::Reflection, Reply::Hit(Some(mirrored))) => {
                self.enter_pass(mirrored, true);
            },
            _ => {},
        }
    }

    /// Begins a pass over the lights.
    fn enter_pass(&mut self, base: Color, reflected: bool)
        ensures
            *final(self) == old(self).begin_pass(base, reflected),
    {
        self.base = base;
        self.reflected = reflected;
        self.light = 0;
        self.stage = if self.lights > 0 {
            Stage::Shadow
        } else if reflected {
            Stage::Finished
        } else {
            Stage::Reflection
        };
    }
}

/// What the driver finds for one light: whether the light is blocked, and the
/// channels of its blend.
pub struct LightSample {
    pub occluded: bool,
    pub r: Scalar,
    pub g: Scalar,
    pub b: Scalar,
}

/// The replies of one pass over the lights, from light number `from` on: for
/// each light the answer of its shadow ray, then its blend.
pub open spec fn pass_replies(samples: Seq<LightSample>, from: int) -> Seq<Reply>
    decreases samples.len() - from,
{
    if from < 0 || from >= samples.len() {
        Seq::empty()
    } else {
        seq![
            Reply::Shadow(samples[from].occluded),
            Reply::Channels(samples[from].r, samples[from].g, samples[from].b),
        ] + pass_replies(samples, from + 1)
    }
}

/// The replies of the whole shading of a pixel: what the primary ray hit,
/// the lights blended with it, what the reflection ray hit, and the lights
/// blended with that.
pub open spec fn script(
    primary: Option<Color>,
    first: Seq<LightSample>,
    reflection: Option<Color>,
    second: Seq<LightSample>,
) -> Seq<Reply> {
    if primary is None {
        seq![Reply::Hit(None)]
    } else if reflection is None {
        seq![Reply::Hit(primary)] + pass_replies(first, 0) + seq![Reply::Hit(None)]
    } else {
        seq![Reply::Hit(primary)] + pass_replies(first, 0) + seq![Reply::Hit(reflection)]
            + pass_replies(second, 0)
    }
}

/// The colour of a pixel: black where the primary ray hits nothing or the
/// scene has no light; else the blend of the last light, with what the
/// reflection hit if it hit anything, with the surface if not.
pub open spec fn shaded(
    primary: Option<Color>,
    first: Seq<LightSample>,
    reflection: Option<Color>,
    second: Seq<LightSample>,
) -> Color {
    if primary is None || first.len() == 0 {
        Color { r: 0, g: 0, b: 0 }
    } else if reflection is None {
        channels_color(first.last().r, first.last().g, first.last().b)
    } else {
        channels_color(second.last().r, second.last().g, second.last().b)
    }
}

/// Replies taken in two rows give what they give in one.
pub proof fn lemma_run_add(shader: Shader, a: Seq<Reply>, b: Seq<Reply>)
    ensures
        shader.run(a + b) == shader.run(a).run(b),
    decreases b.len(),
{
    if b.len() == 0 {
    } else {
        assert((a + b).drop_last() =~= a + b.drop_last());
        lemma_run_add(shader, a, b.drop_last());
    }
}

/// One reply moves the state one step.
pub proof fn lemma_run_one(shader: Shader, reply: Reply)
    ensures
        shader.run(seq![reply]) == shader.next(reply),
{
    assert(seq![reply].drop_last() =~= Seq::<Reply>::empty());
    assert(shader.run(Seq::<Reply>::empty()) == shader);
}

/// A pass over the lights, from the shadow ray of light `from` on, ends with
/// the blend of the last light as the pixel's colour.
pub proof fn lemma_pass(shader: Shader, samples: Seq<LightSample>, from: int)
    requires
        shader.stage is Shadow,
        shader.light == from,
        0 <= from < shader.lights,
        samples.len() == shader.lights,
    ensures
        shader.run(pass_replies(samples, from)) == (Shader {
            stage: if shader.reflected {
                Stage::Finished
            } else {
                Stage::Reflection
            },
            light: (shader.lights - 1) as usize,
            occluded: samples.last().occluded,
            color: channels_color(samples.last().r, samples.last().g, samples.last().b),
            ..shader
        }),
    decreases shader.lights - from,
{
    let shadow = Reply::Shadow(samples[from].occluded);
    let blend = Reply::Channels(samples[from].r, samples[from].g, samples[from].b);
    let rest = pass_replies(samples, from + 1);
    let after = shader.next(shadow).next(blend);
    assert(pass_replies(samples, from) =~= seq![shadow] + (seq![blend] + rest));
    lemma_run_add(shader, seq![shadow], seq![blend] + rest);
    lemma_run_one(shader, shadow);
    lemma_run_add(shader.next(shadow), seq![blend], rest);
    lemma_run_one(shader.next(shadow), blend);
    if from + 1 < shader.lights {
        lemma_pass(after, samples, from + 1);
    }
}

/// The shading starts well-formed and stays so.
pub proof fn lemma_stays_well_formed(shader: Shader, reply: Reply)
    requires
        shader.well_formed(),
    ensures
        shader.next(reply).well_formed(),
        Shader::initial(shader.x, shader.y, shader.lights).well_formed(),
{
}

/// The shading ends: every answer brings it nearer to its end, which it
/// reaches after at most `2 + 4 * lights` answers, and a reply that answers
/// nothing leaves it where it is.
pub proof fn lemma_shading_ends(shader: Shader, reply: Reply)
    requires
        shader.well_formed(),
    ensures
        shader.remaining() >= 0,
        shader.remaining() == 0 <==> shader.stage is Finished,
        shader.answered_by(reply) ==> shader.next(reply).remaining() < shader.remaining(),
        !shader.answered_by(reply) ==> shader.next(reply) == shader,
        Shader::initial(shader.x, shader.y, shader.lights).remaining() == 2 + 4 * shader.lights,
{
}

/// A pixel whose primary ray hits nothing is black.
pub proof fn lemma_miss_is_black(x: i32, y: i32, lights: usize)
    ensures
        Shader::initial(x, y, lights).next(Reply::Hit(None)).request() == Request::Done(
            Color { r: 0, g: 0, b: 0 },
        ),
{
}

/// In a scene without lights every pixel is black, whatever the rays hit:
/// whichever replies come, the colour stays black.
pub proof fn lemma_no_light_is_black(x: i32, y: i32, replies: Seq<Reply>)
    ensures
        Shader::initial(x, y, 0).run(replies).lights == 0,
        !(Shader::initial(x, y, 0).run(replies).stage is Shadow),
        !(Shader::initial(x, y, 0).run(replies).stage is Blend),
        Shader::initial(x, y, 0).run(replies).color == (Color { r: 0, g: 0, b: 0 }),
        Shader::initial(x, y, 0).run(replies).request() matches Request::Done(c) ==> c == (Color {
            r: 0,
            g: 0,
            b: 0,
        }),
    decreases replies.len(),
{
    if replies.len() > 0 {
        lemma_no_light_is_black(x, y, replies.drop_last());
    }
}

/// The whole shading of a pixel ends with the colour that `shaded` names:
/// each light's blend replaces the one before it, so the last light decides,
/// and a reflection that hits replaces the surface colour in the blend.
pub proof fn lemma_shading_result(
    x: i32,
    y: i32,
    primary: Option<Color>,
    first: Seq<LightSample>,
    reflection: Option<Color>,
    second: Seq<LightSample>,
)
    requires
        first.len() <= usize::MAX,
        second.len() == first.len(),
    ensures
        Shader::initial(x, y, first.len() as usize).run(
            script(primary, first, reflection, second),
        ).request() == Request::Done(shaded(primary, first, reflection, second)),
{
    let lights = first.len() as usize;
    let start = Shader::initial(x, y, lights);
    match primary {
        None => {
            lemma_run_one(start, Reply::Hit(None));
        },
        Some(surface) => {
            let lit = start.next(Reply::Hit(primary));
            let mirror = Reply::Hit(reflection);
            lemma_run_one(start, Reply::Hit(primary));
            lemma_run_add(start, seq![Reply::Hit(primary)], pass_replies(first, 0));
            let one = start.run(seq![Reply::Hit(primary)] + pass_replies(first, 0));
            if lights > 0 {
                lemma_pass(lit, first, 0);
            }
            lemma_run_add(start, seq![Reply::Hit(primary)] + pass_replies(first, 0), seq![mirror]);
            lemma_run_one(one, mirror);
            let two = one.next(mirror);
            if reflection is Some {
                lemma_run_add(
                    start,
                    seq![Reply::Hit(primary)] + pass_replies(first, 0) + seq![mirror],
                    pass_replies(second, 0),
                );
                if lights > 0 {
                    lemma_pass(two, second, 0);
                }
            }
        },
    }
}

} // verus!

//! The drawing system.
//!
//! Its shape is an alternation: the left alternative matches drawable
//! entities (render record and position required; crop and scale optional),
//! the right one matches the camera (position and camera marker). On a
//! render event the pass issues one full-viewport clear, then one draw call
//! per drawable in ascending depth order, every destination shifted by the
//! camera offset — the first camera-matching entity centered in the
//! viewport, or the origin when there is none. The pass never produces
//! update patches, so it leaves the world untouched.

use vstd::prelude::*;

use crate::arith::{sat64, sat_sub};
use crate::components::{
    ClipComponent, ComponentKind, PositionComponent, RenderComponent, ScaleComponent,
};
use crate::shape::{ConjView, Conjunction, MatchItem, MatchedBundle, Shape, ShapeView};
use crate::tick::{TickContext, TickEvent};

verus! {

/// The drawing system. It holds no state of its own; its whole behaviour is
/// `RenderSystem::update` over the entities matching its shape.
pub struct RenderSystem;

/// The render shape: drawables on the left (priority), the camera on the
/// right.
pub open spec fn render_shape_view() -> ShapeView {
    ShapeView::AltV(
        ConjView {
            required: seq![ComponentKind::Render, ComponentKind::Position],
            optional: seq![ComponentKind::Clip, ComponentKind::Scale],
        },
        ConjView {
            required: seq![ComponentKind::Position, ComponentKind::Camera],
            optional: seq![],
        },
    )
}

impl RenderSystem {
    /// The data the system needs, as a shape value.
    pub fn shape() -> (s: Shape)
        ensures
            s@ == render_shape_view(),
    {
        let mut l_required: Vec<ComponentKind> = Vec::new();
        l_required.push(ComponentKind::Render);
        l_required.push(ComponentKind::Position);
        let mut l_optional: Vec<ComponentKind> = Vec::new();
        l_optional.push(ComponentKind::Clip);
        l_optional.push(ComponentKind::Scale);
        let r_required: Vec<ComponentKind> = {
            let mut v: Vec<ComponentKind> = Vec::new();
            v.push(ComponentKind::Position);
            v.push(ComponentKind::Camera);
            v
        };
        let r_optional: Vec<ComponentKind> = Vec::new();
        let s = Shape::Alt(
            Conjunction { required: l_required, optional: l_optional },
            Conjunction { required: r_required, optional: r_optional },
        );
        proof {
            assert(s@->AltV_0.required =~= render_shape_view()->AltV_0.required);
            assert(s@->AltV_0.optional =~= render_shape_view()->AltV_0.optional);
            assert(s@->AltV_1.required =~= render_shape_view()->AltV_1.required);
            assert(s@->AltV_1.optional =~= render_shape_view()->AltV_1.optional);
        }
        s
    }
}

/// One drawable matched entity: its render record and position, with the
/// optional crop and scale.
#[derive(Clone, Copy, PartialEq, Eq, Structural, Debug)]
pub struct Renderable {
    pub render: RenderComponent,
    pub position: PositionComponent,
    pub clip: Option<ClipComponent>,
    pub scale: Option<ScaleComponent>,
}

/// One drawing-backend call, in issue order.
#[derive(Clone, Copy, PartialEq, Eq, Structural, Debug)]
pub enum DrawCommand {
    /// Clear the whole viewport.
    Clear,
    /// Draw the source-cropped texture into the destination rectangle
    /// (viewport coordinates; the source crop in texture pixels).
    Image {
        tex_id: u64,
        src_x: u32,
        src_y: u32,
        src_w: u32,
        src_h: u32,
        dest_x: i64,
        dest_y: i64,
        dest_w: i64,
        dest_h: i64,
    },
}

/// The drawables among the matched items: the payloads of the Left-tagged
/// bundles, in traversal order.
pub open spec fn spec_renderables(batch: Seq<MatchItem>) -> Seq<Renderable>
    decreases batch.len(),
{
    if batch.len() == 0 {
        Seq::empty()
    } else {
        spec_renderables(batch.drop_last()) + (match batch.last().bundle {
            MatchedBundle::Left(b) => if b.render is Some && b.position is Some {
                seq![
                    Renderable {
                        render: b.render->Some_0,
                        position: b.position->Some_0,
                        clip: b.clip,
                        scale: b.scale,
                    },
                ]
            } else {
                Seq::empty()
            },
            _ => Seq::empty(),
        })
    }
}

/// The camera position: that of the first Right-tagged matched entity with
/// a position, or the origin when no entity matches the camera alternative.
pub open spec fn spec_camera(batch: Seq<MatchItem>) -> PositionComponent
    decreases batch.len(),
{
    if batch.len() == 0 {
        PositionComponent { x: 0, y: 0 }
    } else {
        match batch.first().bundle {
            MatchedBundle::Right(b) => match b.position {
                Some(p) => p,
                None => spec_camera(batch.drop_first()),
            },
            _ => spec_camera(batch.drop_first()),
        }
    }
}

/// The viewport offset for a camera position: the camera sits at the
/// viewport's center, so everything is shifted by camera minus half the
/// viewport.
pub open spec fn spec_offset(cam: PositionComponent, width: u32, height: u32) -> (i64, i64) {
    (sat64(cam.x - width / 2), sat64(cam.y - height / 2))
}

/// The draw call for one drawable: the crop defaults to the whole texture,
/// the scale to natural size; the destination is the position shifted by
/// the viewport offset, its size the crop scaled by the percentage.
pub open spec fn spec_draw(it: Renderable, ox: i64, oy: i64) -> DrawCommand {
    let clip = match it.clip {
        Some(c) => c,
        None => ClipComponent { x: 0, y: 0, w: it.render.tex_w, h: it.render.tex_h },
    };
    let pct = match it.scale {
        Some(s) => s.percent,
        None => 100,
    };
    DrawCommand::Image {
        tex_id: it.render.tex_id,
        src_x: clip.x,
        src_y: clip.y,
        src_w: clip.w,
        src_h: clip.h,
        dest_x: sat64(it.position.x - ox),
        dest_y: sat64(it.position.y - oy),
        dest_w: (clip.w * pct / 100) as i64,
        dest_h: (clip.h * pct / 100) as i64,
    }
}

/// The draw calls of a drawable sequence, in order.
pub open spec fn spec_draws(s: Seq<Renderable>, ox: i64, oy: i64) -> Seq<DrawCommand> {
    s.map_values(|it: Renderable| spec_draw(it, ox, oy))
}

/// Ascending draw depth.
pub open spec fn sorted_by_depth(s: Seq<Renderable>) -> bool {
    forall|i: int, j: int| 0 <= i < j < s.len() ==> s[i].render.depth <= s[j].render.depth
}

/// Collects the drawables of a matched batch, in traversal order.
pub fn collect_renderables(batch: &Vec<MatchItem>) -> (out: Vec<Renderable>)
    ensures
        out@ == spec_renderables(batch@),
{
    let mut out: Vec<Renderable> = Vec::new();
    let n = batch.len();
    for j in 0..n
        invariant
            n == batch.len(),
            out@ == spec_renderables(batch@.take(j as int)),
    {
        proof {
            assert(batch@.take(j + 1).drop_last() =~= batch@.take(j as int));
            assert(batch@.take(j + 1).last() == batch@[j as int]);
        }
        match &batch[j].bundle {
            MatchedBundle::Left(b) => {
                match (b.render, b.position) {
                    (Some(render), Some(position)) => {
                        out.push(
                            Renderable { render, position, clip: b.clip, scale: b.scale },
                        );
                        proof {
                            assert(out@ =~= spec_renderables(batch@.take(j + 1)));
                        }
                    },
                    _ => {
                        proof {
                            assert(out@ =~= spec_renderables(batch@.take(j + 1)));
                        }
                    },
                }
            },
            _ => {
                proof {
                    assert(out@ =~= spec_renderables(batch@.take(j + 1)));
                }
            },
        }
    }
    proof {
        assert(batch@.take(n as int) =~= batch@);
    }
    out
}

/// Finds the camera position: the first Right-tagged item with a position,
/// defaulting to the origin.
pub fn find_camera(batch: &Vec<MatchItem>) -> (cam: PositionComponent)
    ensures
        cam == spec_camera(batch@),
{
    let n = batch.len();
    proof {
        assert(batch@.skip(0) =~= batch@);
    }
    for i in 0..n
        invariant
            n == batch.len(),
            spec_camera(batch@) == spec_camera(batch@.skip(i as int)),
    {
        proof {
            assert(batch@.skip(i as int).first() == batch@[i as int]);
            assert(batch@.skip(i as int).drop_first() =~= batch@.skip(i + 1));
        }
        match &batch[i].bundle {
            MatchedBundle::Right(b) => {
                match b.position {
                    Some(p) => {
                        return p;
                    },
                    None => {},
                }
            },
            _ => {},
        }
    }
    proof {
        assert(batch@.skip(n as int) =~= Seq::<MatchItem>::empty());
    }
    PositionComponent { x: 0, y: 0 }
}

/// Sorts drawables by ascending depth; the result is a permutation of the
/// input (drawables of equal depth may appear in any order).
pub fn sort_by_depth(items: Vec<Renderable>) -> (out: Vec<Renderable>)
    ensures
        sorted_by_depth(out@),
        out@.to_multiset() == items@.to_multiset(),
{
    broadcast use vstd::seq_lib::group_to_multiset_ensures;
    broadcast use vstd::multiset::group_multiset_axioms;

    let mut rest = items;
    let mut out: Vec<Renderable> = Vec::new();
    proof {
        assert(out@.to_multiset().add(rest@.to_multiset()) =~= items@.to_multiset());
    }
    while rest.len() > 0
        invariant
            out@.to_multiset().add(rest@.to_multiset()) == items@.to_multiset(),
            sorted_by_depth(out@),
            forall|a: int, b: int|
                0 <= a < out@.len() && 0 <= b < rest@.len() ==> out@[a].render.depth
                    <= rest@[b].render.depth,
        decreases rest@.len(),
    {
        let rn = rest.len();
        let mut m: usize = 0;
        for j in 1..rn
            invariant
                rn == rest.len(),
                m < rn,
                forall|t: int| 0 <= t < j ==> rest@[m as int].render.depth <= rest@[t].render.depth,
        {
            if rest[j].render.depth < rest[m].render.depth {
                m = j;
            }
        }
        let ghost old_out = out@;
        let ghost old_rest = rest@;
        let x = rest.remove(m);
        out.push(x);
        proof {
            old_out.to_multiset_ensures();
            old_rest.to_multiset_ensures();
            assert(old_rest.contains(x)) by {
                assert(old_rest[m as int] == x);
            }
            assert(old_rest.to_multiset().count(x) > 0);
            assert(out@ == old_out.push(x));
            assert(rest@ == old_rest.remove(m as int));
            assert(out@.to_multiset() =~= old_out.to_multiset().insert(x));
            assert(rest@.to_multiset() =~= old_rest.to_multiset().remove(x));
            assert(out@.to_multiset().add(rest@.to_multiset()) =~= old_out.to_multiset().add(
                old_rest.to_multiset(),
            ));
            assert forall|a: int, b: int|
                0 <= a < out@.len() && 0 <= b < rest@.len() implies out@[a].render.depth
                <= rest@[b].render.depth by {
                if a < old_out.len() {
                    assert(out@[a] == old_out[a]);
                } else {
                    assert(out@[a] == x);
                }
                if b < m {
                    assert(rest@[b] == old_rest[b]);
                } else {
                    assert(rest@[b] == old_rest[b + 1]);
                }
            }
            assert(sorted_by_depth(out@)) by {
                assert(forall|i: int| 0 <= i < old_out.len() ==> out@[i] == old_out[i]);
            }
        }
    }
    out
}

/// The exec draw call for one drawable.
pub fn draw_command(it: &Renderable, ox: i64, oy: i64) -> (c: DrawCommand)
    ensures
        c == spec_draw(*it, ox, oy),
{
    let clip = match it.clip {
        Some(c) => c,
        None => ClipComponent { x: 0, y: 0, w: it.render.tex_w, h: it.render.tex_h },
    };
    let pct: u32 = match it.scale {
        Some(s) => s.percent,
        None => 100,
    };
    DrawCommand::Image {
        tex_id: it.render.tex_id,
        src_x: clip.x,
        src_y: clip.y,
        src_w: clip.w,
        src_h: clip.h,
        dest_x: sat_sub(it.position.x, ox),
        dest_y: sat_sub(it.position.y, oy),
        dest_w: scaled_len(clip.w, pct),
        dest_h: scaled_len(clip.h, pct),
    }
}

/// One side of a destination rectangle: the crop length scaled by the
/// percentage. The product of two 32-bit values divided by 100 always fits
/// a 64-bit signed result.
fn scaled_len(len_px: u32, pct: u32) -> (r: i64)
    ensures
        r == (len_px * pct / 100) as i64,
{
    proof {
        assert((len_px as int) * (pct as int) <= 0xffff_ffff * 0xffff_ffff) by (nonlinear_arith)
            requires
                0 <= len_px as int <= 0xffff_ffff && 0 <= pct as int <= 0xffff_ffff,
        ;
    }
    let prod: u64 = (len_px as u64) * (pct as u64);
    proof {
        vstd::arithmetic::div_mod::lemma_div_is_ordered(
            prod as int,
            0xffff_ffffi64 as int * 0xffff_ffffi64 as int,
            100,
        );
        assert(0xffff_ffffi64 * 0xffff_ffff / 100 < i64::MAX);
    }
    (prod / 100) as i64
}

impl RenderSystem {
    /// One render pass over a matched batch. On a render event the issued
    /// commands are one clear, then the draw calls of the drawables in some
    /// depth-ascending arrangement, shifted by the camera offset; on every
    /// other event variant the pass recognizes nothing and issues no
    /// commands. A render pass never produces update patches.
    pub fn update(batch: &Vec<MatchItem>, ctx: &TickContext) -> (cmds: Vec<DrawCommand>)
    ensures
        ctx.event matches TickEvent::Render { width, height } ==> exists|s: Seq<Renderable>|
            {
                &&& #[trigger] sorted_by_depth(s)
                &&& s.to_multiset() == spec_renderables(batch@).to_multiset()
                &&& cmds@ == seq![DrawCommand::Clear] + spec_draws(
                    s,
                    spec_offset(spec_camera(batch@), width, height).0,
                    spec_offset(spec_camera(batch@), width, height).1,
                )
            },
        !(ctx.event is Render) ==> cmds@.len() == 0,
{
    match ctx.event {
        TickEvent::Render { width, height } => {
            let cam = find_camera(batch);
            let half_w: i64 = (width / 2) as i64;
            let half_h: i64 = (height / 2) as i64;
            let ox = sat_sub(cam.x, half_w);
            let oy = sat_sub(cam.y, half_h);
            let drawables = collect_renderables(batch);
            let sorted = sort_by_depth(drawables);
            let mut cmds: Vec<DrawCommand> = Vec::new();
            cmds.push(DrawCommand::Clear);
            let n = sorted.len();
            for j in 0..n
                invariant
                    n == sorted.len(),
                    cmds@.len() == j + 1,
                    cmds@[0] == DrawCommand::Clear,
                    forall|t: int| 0 <= t < j ==> cmds@[t + 1] == spec_draw(sorted@[t], ox, oy),
            {
                let c = draw_command(&sorted[j], ox, oy);
                cmds.push(c);
            }
            proof {
                let s = sorted@;
                assert(cmds@ =~= seq![DrawCommand::Clear] + spec_draws(s, ox, oy));
                assert(sorted_by_depth(s));
            }
            cmds
        },
        _ => Vec::new(),
    }
}

}

} // verus!

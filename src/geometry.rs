//! Placement of the ground, the walls and one body per measured word, and the
//! projection of a simulated pose back onto the screen.
//!
//! Lengths are fixed-point numbers: `FIXED_ONE` units make one screen unit.
//! The screen's vertical axis points down and the physics world's points up;
//! both share the container's bottom edge as their meeting line, so that a
//! point at screen height `top` sits at physics height `height - top`.
use vstd::prelude::*;
use vstd::string::*;

use crate::decimal::{FIXED_ONE, fixed_text, write_fixed};

verus! {

/// Margin kept between a collider and the measured box, so that resting
/// contacts are not taken for overlaps: a thousandth of a screen unit.
pub const COLLIDER_MARGIN: i64 = 1000;

/// Half the thickness of the ground: half a screen unit.
pub const GROUND_HALF_HEIGHT: i64 = 500000;

/// Half the thickness of each side wall: half a screen unit.
pub const WALL_HALF_WIDTH: i64 = 500000;

/// Largest magnitude of a measured coordinate or size.
pub const COORD_LIMIT: i64 = 1125899906842624;

/// Largest magnitude of a simulated position.
pub const POSE_LIMIT: i64 = 4503599627370496;

/// The size of the container that holds the text.
#[derive(Clone, Copy, Debug, PartialEq, Eq, Structural)]
pub struct Extent {
    pub width: i64,
    pub height: i64,
}

/// A measured box on the screen: distance of its top edge from the
/// container's top, of its left edge from the container's left, and its size.
#[derive(Clone, Copy, Debug, PartialEq, Eq, Structural)]
pub struct ScreenBox {
    pub top: i64,
    pub left: i64,
    pub width: i64,
    pub height: i64,
}

/// Whether an object moves freely or stays where it was measured.
#[derive(Clone, Copy, Debug, PartialEq, Eq, Structural)]
pub enum ObjectKind {
    Dynamic,
    Fixed,
}

/// A fragment of the page, with its id, its kind and its measured box.
#[derive(Clone, Copy, Debug, PartialEq, Eq, Structural)]
pub struct Fragment {
    pub id: u32,
    pub kind: ObjectKind,
    pub bounds: ScreenBox,
}

/// A box-shaped collider: its center in physics coordinates and its half
/// extents.
#[derive(Clone, Copy, Debug, PartialEq, Eq, Structural)]
pub struct Cuboid {
    pub x: i64,
    pub y: i64,
    pub half_width: i64,
    pub half_height: i64,
}

/// One simulated object, tied to one element of the page: its id, its kind,
/// the half extents of its measured box and its initial center in physics
/// coordinates.
#[derive(Clone, Copy, Debug, PartialEq, Eq, Structural)]
pub struct PhysNode {
    pub id: u32,
    pub kind: ObjectKind,
    pub half_width: i64,
    pub half_height: i64,
    pub x: i64,
    pub y: i64,
}

/// A 2x2 matrix, row by row.
#[derive(Clone, Copy, Debug, PartialEq, Eq, Structural)]
pub struct Matrix2 {
    pub m00: i64,
    pub m01: i64,
    pub m10: i64,
    pub m11: i64,
}

/// A simulated pose: the center in physics coordinates and the rotation
/// matrix, counter-clockwise positive.
#[derive(Clone, Copy, Debug, PartialEq, Eq, Structural)]
pub struct Pose {
    pub x: i64,
    pub y: i64,
    pub rotation: Matrix2,
}

/// A 2D affine transform in the six-value form `matrix(a, b, c, d, e, f)`
/// of the screen, clockwise positive.
#[derive(Clone, Copy, Debug, PartialEq, Eq, Structural)]
pub struct Affine {
    pub a: i64,
    pub b: i64,
    pub c: i64,
    pub d: i64,
    pub e: i64,
    pub f: i64,
}

/// Where and how an element is drawn: its left and top edges on the screen
/// and its transform.
#[derive(Clone, Copy, Debug, PartialEq, Eq, Structural)]
pub struct RenderPose {
    pub left: i64,
    pub top: i64,
    pub transform: Affine,
}

/// A size from which a collider can be cut: half of it exceeds the margin.
/// A box of zero area never is.
pub open spec fn usable(size: int) -> bool {
    size > 2 * COLLIDER_MARGIN + 1
}

pub open spec fn within(v: int, limit: int) -> bool {
    -limit <= v <= limit
}

impl ScreenBox {
    /// Every coordinate and size is within `COORD_LIMIT`.
    pub open spec fn valid(self) -> bool {
        &&& within(self.top as int, COORD_LIMIT as int)
        &&& within(self.left as int, COORD_LIMIT as int)
        &&& within(self.width as int, COORD_LIMIT as int)
        &&& within(self.height as int, COORD_LIMIT as int)
    }

    /// The box can carry a collider.
    pub open spec fn usable(self) -> bool {
        usable(self.width as int) && usable(self.height as int)
    }
}

impl Extent {
    pub open spec fn valid(self) -> bool {
        within(self.width as int, COORD_LIMIT as int) && within(self.height as int, COORD_LIMIT as int)
    }

    /// The container can carry the ground and the walls.
    pub open spec fn measurable(self) -> bool {
        usable(self.width as int) && usable(self.height as int)
    }
}

/// Physics height of a center whose box has its top edge at screen height
/// `top` and half height `half_height`, in a container of height `height`.
pub open spec fn physics_y(height: int, top: int, half_height: int) -> int {
    height - top - half_height
}

/// Screen height of the top edge of a box of half height `half_height`
/// centered at physics height `y`: the inverse of `physics_y`.
pub open spec fn screen_top(height: int, y: int, half_height: int) -> int {
    height - (y + half_height)
}

/// Physics abscissa of the center of a box with left edge `left`.
pub open spec fn physics_x(left: int, half_width: int) -> int {
    left + half_width
}

/// Screen abscissa of the left edge of a box centered at `x`.
pub open spec fn screen_left(x: int, half_width: int) -> int {
    x - half_width
}

/// The object that a usable fragment becomes in a container of height `height`.
pub open spec fn place(height: int, f: Fragment) -> PhysNode {
    let hw = f.bounds.width / 2;
    let hh = f.bounds.height / 2;
    PhysNode {
        id: f.id,
        kind: f.kind,
        half_width: hw as i64,
        half_height: hh as i64,
        x: physics_x(f.bounds.left as int, hw as int) as i64,
        y: physics_y(height, f.bounds.top as int, hh as int) as i64,
    }
}

/// The objects of the fragments, in order, with the unusable ones left out.
pub open spec fn placed(height: int, fs: Seq<Fragment>) -> Seq<PhysNode>
    decreases fs.len(),
{
    if fs.len() == 0 {
        Seq::empty()
    } else if fs.last().bounds.usable() {
        placed(height, fs.drop_last()).push(place(height, fs.last()))
    } else {
        placed(height, fs.drop_last())
    }
}

/// The ground: a flat box as wide as the container whose top surface lies
/// `2 * GROUND_HALF_HEIGHT` above the container's bottom edge.
pub open spec fn ground_of(e: Extent) -> Cuboid {
    Cuboid {
        x: (e.width / 2) as i64,
        y: GROUND_HALF_HEIGHT,
        half_width: (e.width / 2 - COLLIDER_MARGIN) as i64,
        half_height: (GROUND_HALF_HEIGHT - COLLIDER_MARGIN) as i64,
    }
}

/// The two side walls: tall thin boxes just outside the container's left and
/// right edges, as tall as the container.
pub open spec fn walls_of(e: Extent) -> Seq<Cuboid> {
    let hh = e.height / 2;
    seq![
        Cuboid {
            x: -WALL_HALF_WIDTH as i64,
            y: hh as i64,
            half_width: (WALL_HALF_WIDTH - COLLIDER_MARGIN) as i64,
            half_height: (hh - COLLIDER_MARGIN) as i64,
        },
        Cuboid {
            x: (e.width + WALL_HALF_WIDTH) as i64,
            y: hh as i64,
            half_width: (WALL_HALF_WIDTH - COLLIDER_MARGIN) as i64,
            half_height: (hh - COLLIDER_MARGIN) as i64,
        },
    ]
}

impl PhysNode {
    /// An object with the given id, kind, half extents and initial center.
    pub fn new(
        in_id: u32,
        in_kind: ObjectKind,
        in_half_width: i64,
        in_half_height: i64,
        in_x: i64,
        in_y: i64,
    ) -> (r: PhysNode)
        ensures
            r == (PhysNode {
                id: in_id,
                kind: in_kind,
                half_width: in_half_width,
                half_height: in_half_height,
                x: in_x,
                y: in_y,
            }),
    {
        PhysNode {
            id: in_id,
            kind: in_kind,
            half_width: in_half_width,
            half_height: in_half_height,
            x: in_x,
            y: in_y,
        }
    }

    /// The object's collider: its measured box less the margin on every side,
    /// at its initial center.
    pub open spec fn collider_spec(self) -> Cuboid {
        Cuboid {
            x: self.x,
            y: self.y,
            half_width: (self.half_width - COLLIDER_MARGIN) as i64,
            half_height: (self.half_height - COLLIDER_MARGIN) as i64,
        }
    }

    /// The object's collider.
    pub fn collider(&self) -> (r: Cuboid)
        requires
            self.half_width > COLLIDER_MARGIN,
            self.half_height > COLLIDER_MARGIN,
        ensures
            r == self.collider_spec(),
    {
        Cuboid {
            x: self.x,
            y: self.y,
            half_width: self.half_width - COLLIDER_MARGIN,
            half_height: self.half_height - COLLIDER_MARGIN,
        }
    }
}

/// Places a usable fragment in a container of height `height`.
pub fn place_fragment(height: i64, f: &Fragment) -> (r: PhysNode)
    requires
        within(height as int, COORD_LIMIT as int),
        f.bounds.valid(),
        f.bounds.usable(),
    ensures
        r == place(height as int, *f),
{
    let hw = f.bounds.width / 2;
    let hh = f.bounds.height / 2;
    PhysNode::new(f.id, f.kind, hw, hh, f.bounds.left + hw, height - f.bounds.top - hh)
}

/// A rotation by the angle whose cosine and sine are `cos` and `sin`, in the
/// physics world's convention (counter-clockwise positive).
pub open spec fn rotation_matrix(cos: int, sin: int) -> Matrix2 {
    Matrix2 { m00: cos as i64, m01: -sin as i64, m10: sin as i64, m11: cos as i64 }
}

/// The screen's `rotate` transform for the angle whose cosine and sine are
/// `cos` and `sin` (clockwise positive on the screen).
pub open spec fn css_rotation(cos: int, sin: int) -> Affine {
    Affine { a: cos as i64, b: sin as i64, c: -sin as i64, d: cos as i64, e: 0, f: 0 }
}

/// The screen transform of a physics rotation matrix: the off-diagonal
/// entries swapped, which turns the handedness around, then written in the
/// column order of `matrix(a, b, c, d, e, f)`.
pub open spec fn screen_transform(m: Matrix2) -> Affine {
    Affine { a: m.m00, b: m.m01, c: m.m10, d: m.m11, e: 0, f: 0 }
}

/// The transform that leaves an element as it is.
pub open spec fn identity_affine() -> Affine {
    Affine { a: FIXED_ONE, b: 0, c: 0, d: FIXED_ONE, e: 0, f: 0 }
}

/// The rotation matrix of the angle zero.
pub open spec fn identity_matrix() -> Matrix2 {
    Matrix2 { m00: FIXED_ONE, m01: 0, m10: 0, m11: FIXED_ONE }
}

impl Pose {
    /// The position lies within `POSE_LIMIT`.
    pub open spec fn valid(self) -> bool {
        within(self.x as int, POSE_LIMIT as int) && within(self.y as int, POSE_LIMIT as int)
    }
}

/// A pose, if there is one, lies within `POSE_LIMIT`.
pub open spec fn pose_ok(pose: Option<Pose>) -> bool {
    match pose {
        Some(p) => p.valid(),
        None => true,
    }
}

impl PhysNode {
    /// The half extents lie within `COORD_LIMIT`.
    pub open spec fn valid(self) -> bool {
        within(self.half_width as int, COORD_LIMIT as int) && within(
            self.half_height as int,
            COORD_LIMIT as int,
        )
    }

    /// The pose of the object before any step: its initial center, unrotated.
    pub open spec fn initial_pose_spec(self) -> Pose {
        Pose { x: self.x, y: self.y, rotation: identity_matrix() }
    }

    /// The pose of the object before any step.
    pub fn initial_pose(&self) -> (r: Pose)
        ensures
            r == self.initial_pose_spec(),
    {
        Pose {
            x: self.x,
            y: self.y,
            rotation: Matrix2 { m00: FIXED_ONE, m01: 0, m10: 0, m11: FIXED_ONE },
        }
    }
}

impl PhysNode {
    /// Where the element of the object is drawn before any step, and for a
    /// fixed object always: its measured box, unrotated.
    pub open spec fn initial_render_spec(self, height: int) -> RenderPose {
        RenderPose {
            left: screen_left(self.x as int, self.half_width as int) as i64,
            top: screen_top(height, self.y as int, self.half_height as int) as i64,
            transform: identity_affine(),
        }
    }

    /// Where the element of the object is drawn before any step, and for a
    /// fixed object always.
    pub fn initial_render(&self, height: i64) -> (r: RenderPose)
        requires
            self.valid(),
            within(height as int, COORD_LIMIT as int),
            within(self.x as int, POSE_LIMIT as int),
            within(self.y as int, POSE_LIMIT as int),
        ensures
            r == self.initial_render_spec(height as int),
    {
        RenderPose {
            left: self.x - self.half_width,
            top: height - (self.y + self.half_height),
            transform: Affine { a: FIXED_ONE, b: 0, c: 0, d: FIXED_ONE, e: 0, f: 0 },
        }
    }
}

/// Where the element of `node` is drawn when its body has the pose `pose`,
/// in a container of height `height`; nothing for a fixed object or one
/// without a live body.
pub open spec fn project_spec(node: PhysNode, pose: Option<Pose>, height: int) -> Option<RenderPose> {
    match pose {
        Some(p) => if node.kind == ObjectKind::Dynamic {
            Some(
                RenderPose {
                    left: screen_left(p.x as int, node.half_width as int) as i64,
                    top: screen_top(height, p.y as int, node.half_height as int) as i64,
                    transform: screen_transform(p.rotation),
                },
            )
        } else {
            None
        },
        None => None,
    }
}

/// Projects the pose of the body of `node` onto the screen: its left and top
/// edges and its transform. `None` where the object is fixed or `pose` says
/// that it has no live body.
pub fn project(node: &PhysNode, pose: Option<Pose>, height: i64) -> (r: Option<RenderPose>)
    requires
        node.valid(),
        within(height as int, COORD_LIMIT as int),
        pose_ok(pose),
    ensures
        r == project_spec(*node, pose, height as int),
{
    match pose {
        Some(p) => match node.kind {
            ObjectKind::Dynamic => Some(
                RenderPose {
                    left: p.x - node.half_width,
                    top: height - (p.y + node.half_height),
                    transform: Affine {
                        a: p.rotation.m00,
                        b: p.rotation.m01,
                        c: p.rotation.m10,
                        d: p.rotation.m11,
                        e: 0,
                        f: 0,
                    },
                },
            ),
            ObjectKind::Fixed => None,
        },
        None => None,
    }
}

/// Building and then projecting with no step in between gives back the
/// measured box: a usable fragment's object is first drawn with its left and
/// top edges where they were measured, unrotated; for a dynamic one, so is
/// the projection of its body's initial pose.
pub proof fn lemma_round_trip_placement(height: int, f: Fragment)
    requires
        within(height, COORD_LIMIT as int),
        f.bounds.valid(),
        f.bounds.usable(),
    ensures
        f.kind == ObjectKind::Dynamic ==> project_spec(place(height, f), Some(place(height, f).initial_pose_spec()), height) == Some(
            RenderPose { left: f.bounds.left, top: f.bounds.top, transform: identity_affine() },
        ),
        place(height, f).initial_render_spec(height) == (RenderPose {
            left: f.bounds.left,
            top: f.bounds.top,
            transform: identity_affine(),
        }),
{
}

/// The ground and the screen agree: the ground's surface (its collider plus
/// the margin) lies `2 * GROUND_HALF_HEIGHT` above the container's bottom
/// edge, and an unrotated body whose box stands on that surface is drawn with
/// its bottom edge there, its top at `height - 2 * GROUND_HALF_HEIGHT` less
/// twice its half height.
pub proof fn lemma_rest_on_ground(e: Extent, node: PhysNode, x: i64)
    requires
        e.valid(),
        e.measurable(),
        node.valid(),
        node.kind == ObjectKind::Dynamic,
        within(x as int, POSE_LIMIT as int),
    ensures
        ground_of(e).y + ground_of(e).half_height + COLLIDER_MARGIN == 2 * GROUND_HALF_HEIGHT,
        within(2 * GROUND_HALF_HEIGHT + node.half_height, POSE_LIMIT as int),
        project_spec(
            node,
            Some(
                Pose {
                    x,
                    y: (2 * GROUND_HALF_HEIGHT + node.half_height) as i64,
                    rotation: identity_matrix(),
                },
            ),
            e.height as int,
        ) == Some(
            RenderPose {
                left: (x - node.half_width) as i64,
                top: (e.height - 2 * GROUND_HALF_HEIGHT - 2 * node.half_height) as i64,
                transform: identity_affine(),
            },
        ),
{
}

/// The projected transform of a body turned by an angle in the physics
/// world's convention is the screen's rotation by the opposite angle: the
/// swap of the off-diagonal entries flips the handedness.
pub proof fn lemma_rotation_convention(node: PhysNode, x: i64, y: i64, cos: int, sin: int, height: int)
    requires
        node.kind == ObjectKind::Dynamic,
        within(cos, FIXED_ONE as int),
        within(sin, FIXED_ONE as int),
    ensures
        project_spec(node, Some(Pose { x, y, rotation: rotation_matrix(cos, sin) }), height) is Some,
        project_spec(
            node,
            Some(Pose { x, y, rotation: rotation_matrix(cos, sin) }),
            height,
        ).unwrap().transform == css_rotation(cos, -sin),
        project_spec(
            node,
            Some(Pose { x, y, rotation: rotation_matrix(cos, sin) }),
            height,
        ).unwrap().transform.b == rotation_matrix(cos, sin).m01,
        project_spec(
            node,
            Some(Pose { x, y, rotation: rotation_matrix(cos, sin) }),
            height,
        ).unwrap().transform.c == rotation_matrix(cos, sin).m10,
{
}

/// The style that puts an element at `left`, `top`.
pub open spec fn position_style(left: int, top: int) -> Seq<char> {
    "position: absolute; left: "@ + fixed_text(left) + "px; top: "@ + fixed_text(top) + "px;"@
}

/// The style that puts an element at `left`, `top` and applies the
/// transform `t`.
pub open spec fn transform_style(left: int, top: int, t: Affine) -> Seq<char> {
    position_style(left, top) + " transform: matrix("@ + fixed_text(t.a as int) + ", "@
        + fixed_text(t.b as int) + ", "@ + fixed_text(t.c as int) + ", "@ + fixed_text(t.d as int)
        + ", "@ + fixed_text(t.e as int) + ", "@ + fixed_text(t.f as int) + ");"@
}

impl RenderPose {
    /// The style that places the element, without its rotation.
    pub fn style(&self) -> (r: String)
        ensures
            r@ == position_style(self.left as int, self.top as int),
    {
        let mut out = String::new();
        out.append("position: absolute; left: ");
        write_fixed(&mut out, self.left);
        out.append("px; top: ");
        write_fixed(&mut out, self.top);
        out.append("px;");
        assert(out@ =~= position_style(self.left as int, self.top as int));
        out
    }

    /// The style that places the element and rotates it.
    pub fn transform_style(&self) -> (r: String)
        ensures
            r@ == transform_style(self.left as int, self.top as int, self.transform),
    {
        let mut out = self.style();
        let t = self.transform;
        out.append(" transform: matrix(");
        write_fixed(&mut out, t.a);
        out.append(", ");
        write_fixed(&mut out, t.b);
        out.append(", ");
        write_fixed(&mut out, t.c);
        out.append(", ");
        write_fixed(&mut out, t.d);
        out.append(", ");
        write_fixed(&mut out, t.e);
        out.append(", ");
        write_fixed(&mut out, t.f);
        out.append(");");
        assert(out@ =~= transform_style(self.left as int, self.top as int, self.transform));
        out
    }
}

} // verus!

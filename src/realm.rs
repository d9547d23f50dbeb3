//! The simulated scene: the ground, the walls and the objects built from the
//! measured page, and the per-frame updates of their elements.
use vstd::prelude::*;

use crate::geometry::{
    COLLIDER_MARGIN, POSE_LIMIT, Cuboid, Extent, Fragment, GROUND_HALF_HEIGHT, ObjectKind,
    PhysNode, Pose, RenderPose, WALL_HALF_WIDTH, ground_of, place, place_fragment, placed, pose_ok, project,
    project_spec, walls_of, within,
};

verus! {

/// Why a scene cannot be built.
#[derive(Clone, Copy, Debug, PartialEq, Eq, Structural)]
pub enum ConstructionError {
    /// The page has no root container of usable size to stand the ground on.
    MissingContainer,
}

/// A new screen pose for the element with id `id`.
#[derive(Clone, Copy, Debug, PartialEq, Eq, Structural)]
pub struct Update {
    pub id: u32,
    pub pose: RenderPose,
}

/// The updates of one frame: one for each object, in order, whose
/// projection is defined.
pub open spec fn updates(nodes: Seq<PhysNode>, poses: Seq<Option<Pose>>, height: int) -> Seq<Update>
    decreases nodes.len(),
{
    if nodes.len() == 0 || poses.len() == 0 {
        Seq::empty()
    } else {
        let rest = updates(nodes.drop_last(), poses.drop_last(), height);
        match project_spec(nodes.last(), poses.last(), height) {
            Some(rp) => rest.push(Update { id: nodes.last().id, pose: rp }),
            None => rest,
        }
    }
}

/// The pose of each object before any step: its initial pose where it is
/// dynamic, none where it is fixed.
pub open spec fn initial_poses_spec(nodes: Seq<PhysNode>) -> Seq<Option<Pose>> {
    nodes.map_values(
        |n: PhysNode|
            if n.kind == ObjectKind::Dynamic {
                Some(n.initial_pose_spec())
            } else {
                None
            },
    )
}

/// No two fragments share an id.
pub open spec fn fragment_ids_distinct(fs: Seq<Fragment>) -> bool {
    forall|i: int, j: int| 0 <= i < j < fs.len() ==> (#[trigger] fs[i]).id != (#[trigger] fs[j]).id
}

/// No two objects share an id.
pub open spec fn node_ids_distinct(ns: Seq<PhysNode>) -> bool {
    forall|i: int, j: int| 0 <= i < j < ns.len() ==> (#[trigger] ns[i]).id != (#[trigger] ns[j]).id
}

/// No two updates of a frame share an id.
pub open spec fn update_ids_distinct(us: Seq<Update>) -> bool {
    forall|i: int, j: int| 0 <= i < j < us.len() ==> (#[trigger] us[i]).id != (#[trigger] us[j]).id
}

proof fn lemma_placed_sound(height: int, fs: Seq<Fragment>)
    ensures
        forall|k: int|
            0 <= k < placed(height, fs).len() ==> exists|j: int|
                0 <= j < fs.len() && (#[trigger] fs[j]).bounds.usable() && (#[trigger] placed(
                    height,
                    fs,
                )[k]) == place(height, fs[j]),
    decreases fs.len(),
{
    if fs.len() > 0 {
        let pre = fs.drop_last();
        lemma_placed_sound(height, pre);
        let pp = placed(height, pre);
        let p = placed(height, fs);
        if fs.last().bounds.usable() {
            assert(p == pp.push(place(height, fs.last())));
        } else {
            assert(p == pp);
        }
        assert forall|k: int| 0 <= k < p.len() implies exists|j: int|
            0 <= j < fs.len() && (#[trigger] fs[j]).bounds.usable() && #[trigger] p[k] == place(
                height,
                fs[j],
            ) by {
            if k < pp.len() {
                assert(p[k] == pp[k]);
                let j = choose|j: int|
                    0 <= j < pre.len() && (#[trigger] pre[j]).bounds.usable() && #[trigger] pp[k]
                        == place(height, pre[j]);
                assert(fs[j] == pre[j]);
            } else {
                assert(fs[fs.len() - 1] == fs.last());
            }
        }
    }
}

proof fn lemma_placed_complete(height: int, fs: Seq<Fragment>)
    ensures
        forall|j: int|
            0 <= j < fs.len() && (#[trigger] fs[j]).bounds.usable() ==> exists|k: int|
                0 <= k < placed(height, fs).len() && #[trigger] placed(height, fs)[k] == place(
                    height,
                    fs[j],
                ),
    decreases fs.len(),
{
    if fs.len() > 0 {
        let pre = fs.drop_last();
        lemma_placed_complete(height, pre);
        let pp = placed(height, pre);
        let p = placed(height, fs);
        if fs.last().bounds.usable() {
            assert(p == pp.push(place(height, fs.last())));
        } else {
            assert(p == pp);
        }
        assert forall|j: int| 0 <= j < fs.len() && (#[trigger] fs[j]).bounds.usable() implies exists|
            k: int,
        | 0 <= k < p.len() && #[trigger] p[k] == place(height, fs[j]) by {
            if j < pre.len() {
                assert(pre[j] == fs[j]);
                let k = choose|k: int| 0 <= k < pp.len() && #[trigger] pp[k] == place(height, pre[j]);
                assert(p[k] == pp[k]);
            } else {
                assert(p[pp.len() as int] == place(height, fs[j]));
            }
        }
    }
}

proof fn lemma_placed_distinct(height: int, fs: Seq<Fragment>)
    requires
        fragment_ids_distinct(fs),
    ensures
        node_ids_distinct(placed(height, fs)),
    decreases fs.len(),
{
    if fs.len() > 0 {
        let pre = fs.drop_last();
        assert(fragment_ids_distinct(pre)) by {
            assert forall|i: int, j: int| 0 <= i < j < pre.len() implies (#[trigger] pre[i]).id
                != (#[trigger] pre[j]).id by {
                assert(pre[i] == fs[i] && pre[j] == fs[j]);
            }
        }
        lemma_placed_distinct(height, pre);
        lemma_placed_sound(height, pre);
        let pp = placed(height, pre);
        let p = placed(height, fs);
        if fs.last().bounds.usable() {
            assert(p == pp.push(place(height, fs.last())));
            assert forall|i: int, j: int| 0 <= i < j < p.len() implies (#[trigger] p[i]).id != (
            #[trigger] p[j]).id by {
                assert(p[i] == pp[i]);
                if j < pp.len() {
                    assert(p[j] == pp[j]);
                } else {
                    let m = choose|m: int|
                        0 <= m < pre.len() && (#[trigger] pre[m]).bounds.usable() && #[trigger] pp[i]
                            == place(height, pre[m]);
                    assert(pre[m] == fs[m]);
                    assert(fs[fs.len() - 1] == fs.last());
                }
            }
        } else {
            assert(p == pp);
        }
    }
}

proof fn lemma_updates_step(nodes: Seq<PhysNode>, poses: Seq<Option<Pose>>, height: int)
    requires
        nodes.len() == poses.len(),
        nodes.len() > 0,
    ensures
        ({
            let uu = updates(nodes.drop_last(), poses.drop_last(), height);
            let u = updates(nodes, poses, height);
            let n = nodes[nodes.len() - 1];
            let p = poses[nodes.len() - 1];
            if n.kind == ObjectKind::Dynamic && p is Some {
                u == uu.push(Update { id: n.id, pose: project_spec(n, p, height).unwrap() })
            } else {
                u == uu
            }
        }),
{
}

proof fn lemma_updates_sound(nodes: Seq<PhysNode>, poses: Seq<Option<Pose>>, height: int)
    requires
        nodes.len() == poses.len(),
    ensures
        forall|k: int|
            0 <= k < updates(nodes, poses, height).len() ==> exists|i: int|
                0 <= i < nodes.len() && (#[trigger] nodes[i]).kind == ObjectKind::Dynamic
                    && poses[i] is Some && (#[trigger] updates(nodes, poses, height)[k]).id
                    == nodes[i].id && updates(nodes, poses, height)[k].pose == project_spec(
                    nodes[i],
                    poses[i],
                    height,
                ).unwrap(),
    decreases nodes.len(),
{
    if nodes.len() > 0 {
        let ns = nodes.drop_last();
        let ps = poses.drop_last();
        lemma_updates_sound(ns, ps, height);
        lemma_updates_step(nodes, poses, height);
        let uu = updates(ns, ps, height);
        let u = updates(nodes, poses, height);
        let last = nodes.len() - 1;
        assert forall|k: int| 0 <= k < u.len() implies exists|i: int|
            0 <= i < nodes.len() && (#[trigger] nodes[i]).kind == ObjectKind::Dynamic
                && poses[i] is Some && (#[trigger] u[k]).id == nodes[i].id && u[k].pose
                == project_spec(nodes[i], poses[i], height).unwrap() by {
            if k < uu.len() {
                assert(u[k] == uu[k]);
                let i = choose|i: int|
                    0 <= i < ns.len() && (#[trigger] ns[i]).kind == ObjectKind::Dynamic
                        && ps[i] is Some && (#[trigger] uu[k]).id == ns[i].id && uu[k].pose
                        == project_spec(ns[i], ps[i], height).unwrap();
                assert(ns[i] == nodes[i] && ps[i] == poses[i]);
            } else {
                assert(nodes[last].kind == ObjectKind::Dynamic);
            }
        }
    }
}

proof fn lemma_updates_complete(nodes: Seq<PhysNode>, poses: Seq<Option<Pose>>, height: int)
    requires
        nodes.len() == poses.len(),
    ensures
        forall|i: int|
            0 <= i < nodes.len() && (#[trigger] nodes[i]).kind == ObjectKind::Dynamic
                && poses[i] is Some ==> exists|k: int|
                0 <= k < updates(nodes, poses, height).len() && (#[trigger] updates(
                    nodes,
                    poses,
                    height,
                )[k]).id == nodes[i].id,
    decreases nodes.len(),
{
    if nodes.len() > 0 {
        let ns = nodes.drop_last();
        let ps = poses.drop_last();
        lemma_updates_complete(ns, ps, height);
        lemma_updates_step(nodes, poses, height);
        let uu = updates(ns, ps, height);
        let u = updates(nodes, poses, height);
        assert forall|i: int|
            0 <= i < nodes.len() && (#[trigger] nodes[i]).kind == ObjectKind::Dynamic
                && poses[i] is Some implies exists|k: int|
            0 <= k < u.len() && (#[trigger] u[k]).id == nodes[i].id by {
            if i < ns.len() {
                assert(ns[i] == nodes[i] && ps[i] == poses[i]);
                let k = choose|k: int| 0 <= k < uu.len() && (#[trigger] uu[k]).id == ns[i].id;
                assert(u[k] == uu[k]);
            } else {
                assert(u[uu.len() as int].id == nodes[i].id);
            }
        }
    }
}

proof fn lemma_updates_distinct(nodes: Seq<PhysNode>, poses: Seq<Option<Pose>>, height: int)
    requires
        nodes.len() == poses.len(),
        node_ids_distinct(nodes),
    ensures
        update_ids_distinct(updates(nodes, poses, height)),
    decreases nodes.len(),
{
    if nodes.len() > 0 {
        let ns = nodes.drop_last();
        let ps = poses.drop_last();
        assert(node_ids_distinct(ns)) by {
            assert forall|i: int, j: int| 0 <= i < j < ns.len() implies (#[trigger] ns[i]).id
                != (#[trigger] ns[j]).id by {
                assert(ns[i] == nodes[i] && ns[j] == nodes[j]);
            }
        }
        lemma_updates_distinct(ns, ps, height);
        lemma_updates_sound(ns, ps, height);
        lemma_updates_step(nodes, poses, height);
        let uu = updates(ns, ps, height);
        let u = updates(nodes, poses, height);
        let last = nodes.len() - 1;
        assert forall|a: int, b: int| 0 <= a < b < u.len() implies (#[trigger] u[a]).id != (
        #[trigger] u[b]).id by {
            assert(u[a] == uu[a]);
            if b < uu.len() {
                assert(u[b] == uu[b]);
            } else {
                let m = choose|m: int|
                    0 <= m < ns.len() && (#[trigger] ns[m]).kind == ObjectKind::Dynamic
                        && ps[m] is Some && (#[trigger] uu[a]).id == ns[m].id && uu[a].pose
                        == project_spec(ns[m], ps[m], height).unwrap();
                assert(ns[m] == nodes[m]);
                assert(u[b].id == nodes[last].id);
            }
        }
    }
}

proof fn lemma_frame_id(ns: Seq<PhysNode>, poses: Seq<Option<Pose>>, h: int, id: u32)
    requires
        ns.len() == poses.len(),
    ensures
        (exists|k: int|
            0 <= k < updates(ns, poses, h).len() && (#[trigger] updates(ns, poses, h)[k]).id == id)
            <==> (exists|i: int|
            0 <= i < ns.len() && (#[trigger] ns[i]).id == id && ns[i].kind == ObjectKind::Dynamic
                && poses[i] is Some),
{
    let u = updates(ns, poses, h);
    lemma_updates_complete(ns, poses, h);
    if exists|k: int| 0 <= k < u.len() && (#[trigger] u[k]).id == id {
        lemma_updates_sound(ns, poses, h);
        let k = choose|k: int| 0 <= k < u.len() && (#[trigger] u[k]).id == id;
        let i = choose|i: int|
            0 <= i < ns.len() && (#[trigger] ns[i]).kind == ObjectKind::Dynamic && poses[i] is Some
                && (#[trigger] u[k]).id == ns[i].id && u[k].pose == project_spec(
                ns[i],
                poses[i],
                h,
            ).unwrap();
        assert(ns[i].id == id);
    }
}

proof fn lemma_placed_id(h: int, fs: Seq<Fragment>, id: u32)
    ensures
        (exists|i: int|
            0 <= i < placed(h, fs).len() && (#[trigger] placed(h, fs)[i]).id == id) <==> (exists|
            j: int,
        | 0 <= j < fs.len() && (#[trigger] fs[j]).id == id && fs[j].bounds.usable()),
{
    let ns = placed(h, fs);
    if exists|i: int| 0 <= i < ns.len() && (#[trigger] ns[i]).id == id {
        lemma_placed_sound(h, fs);
        let i = choose|i: int| 0 <= i < ns.len() && (#[trigger] ns[i]).id == id;
        let j = choose|j: int|
            0 <= j < fs.len() && (#[trigger] fs[j]).bounds.usable() && #[trigger] ns[i] == place(
                h,
                fs[j],
            );
        assert(fs[j].id == id);
    }
    if exists|j: int| 0 <= j < fs.len() && (#[trigger] fs[j]).id == id && fs[j].bounds.usable() {
        lemma_placed_complete(h, fs);
        let j = choose|j: int| 0 <= j < fs.len() && (#[trigger] fs[j]).id == id && fs[j].bounds.usable();
        let i = choose|i: int| 0 <= i < ns.len() && #[trigger] ns[i] == place(h, fs[j]);
        assert(ns[i].id == id);
    }
}

/// The ids seen in every frame are those of the fragments that became
/// dynamic objects and have a live body, each once: for fragments with
/// distinct ids, an id is updated in a frame exactly when a usable dynamic
/// fragment carries it and its object has a pose, and no id is updated twice.
pub proof fn lemma_id_stability(e: Extent, fs: Seq<Fragment>, poses: Seq<Option<Pose>>, id: u32)
    requires
        fragment_ids_distinct(fs),
        poses.len() == placed(e.height as int, fs).len(),
    ensures
        update_ids_distinct(updates(placed(e.height as int, fs), poses, e.height as int)),
        (exists|k: int|
            0 <= k < updates(placed(e.height as int, fs), poses, e.height as int).len()
                && (#[trigger] updates(placed(e.height as int, fs), poses, e.height as int)[k]).id
                == id) <==> (exists|i: int|
            0 <= i < placed(e.height as int, fs).len() && (#[trigger] placed(
                e.height as int,
                fs,
            )[i]).id == id && placed(e.height as int, fs)[i].kind == ObjectKind::Dynamic
                && poses[i] is Some),
        (exists|i: int|
            0 <= i < placed(e.height as int, fs).len() && (#[trigger] placed(
                e.height as int,
                fs,
            )[i]).id == id) <==> (exists|j: int|
            0 <= j < fs.len() && (#[trigger] fs[j]).id == id && fs[j].bounds.usable()),
{
    let h = e.height as int;
    lemma_placed_distinct(h, fs);
    lemma_updates_distinct(placed(h, fs), poses, h);
    lemma_frame_id(placed(h, fs), poses, h, id);
    lemma_placed_id(h, fs, id);
}

/// A fixed object is never moved: whatever poses a frame is given, no update
/// carries the id of a fixed object (the objects' ids being distinct), so
/// its element stays where it was placed.
pub proof fn lemma_fixed_immobile(nodes: Seq<PhysNode>, poses: Seq<Option<Pose>>, height: int, i: int)
    requires
        nodes.len() == poses.len(),
        node_ids_distinct(nodes),
        0 <= i < nodes.len(),
        nodes[i].kind == ObjectKind::Fixed,
    ensures
        forall|k: int|
            0 <= k < updates(nodes, poses, height).len() ==> (#[trigger] updates(
                nodes,
                poses,
                height,
            )[k]).id != nodes[i].id,
{
    lemma_updates_sound(nodes, poses, height);
    let u = updates(nodes, poses, height);
    assert forall|k: int| 0 <= k < u.len() implies (#[trigger] u[k]).id != nodes[i].id by {
        let m = choose|m: int|
            0 <= m < nodes.len() && (#[trigger] nodes[m]).kind == ObjectKind::Dynamic
                && poses[m] is Some && (#[trigger] u[k]).id == nodes[m].id && u[k].pose
                == project_spec(nodes[m], poses[m], height).unwrap();
        if m < i {
            assert(nodes[m].id != nodes[i].id);
        } else if m > i {
            assert(nodes[i].id != nodes[m].id);
        }
    }
}

/// The scene: the container's size, the ground, the side walls and one object
/// for each usable fragment.
pub struct Realm {
    pub extent: Extent,
    pub ground: Cuboid,
    pub walls: Vec<Cuboid>,
    pub phys_nodes: Vec<PhysNode>,
}

impl Realm {
    /// The ground and the walls fit the container, and every object has half
    /// extents that carry a collider.
    pub open spec fn well_formed(self) -> bool {
        &&& self.extent.valid()
        &&& self.extent.measurable()
        &&& self.ground == ground_of(self.extent)
        &&& self.walls@ == walls_of(self.extent)
        &&& forall|i: int|
            0 <= i < self.phys_nodes@.len() ==> {
                let n = #[trigger] self.phys_nodes@[i];
                &&& n.valid()
                &&& n.half_width > COLLIDER_MARGIN
                &&& n.half_height > COLLIDER_MARGIN
                &&& within(n.x as int, POSE_LIMIT as int)
                &&& within(n.y as int, POSE_LIMIT as int)
            }
    }

    /// Builds the scene for a container of size `container` and the measured
    /// fragments, in order. Fragments whose box cannot carry a collider (zero
    /// area among them) are left out.
    pub fn new(container: Option<Extent>, fragments: &Vec<Fragment>) -> (r: Result<
        Realm,
        ConstructionError,
    >)
        requires
            container matches Some(e) ==> e.valid(),
            forall|i: int| 0 <= i < fragments@.len() ==> (#[trigger] fragments@[i]).bounds.valid(),
        ensures
            match container {
                Some(e) if e.measurable() => r matches Ok(realm) && realm.well_formed()
                    && realm.extent == e && realm.phys_nodes@ == placed(
                    e.height as int,
                    fragments@,
                ),
                _ => r == Err::<Realm, ConstructionError>(ConstructionError::MissingContainer),
            },
    {
        let e = match container {
            Some(e) => e,
            None => {
                return Err(ConstructionError::MissingContainer);
            },
        };
        if !(e.width > 2 * COLLIDER_MARGIN + 1 && e.height > 2 * COLLIDER_MARGIN + 1) {
            return Err(ConstructionError::MissingContainer);
        }
        let ground = Cuboid {
            x: e.width / 2,
            y: GROUND_HALF_HEIGHT,
            half_width: e.width / 2 - COLLIDER_MARGIN,
            half_height: GROUND_HALF_HEIGHT - COLLIDER_MARGIN,
        };
        let wall_half_height = e.height / 2;
        let mut walls: Vec<Cuboid> = Vec::new();
        walls.push(
            Cuboid {
                x: -WALL_HALF_WIDTH,
                y: wall_half_height,
                half_width: WALL_HALF_WIDTH - COLLIDER_MARGIN,
                half_height: wall_half_height - COLLIDER_MARGIN,
            },
        );
        walls.push(
            Cuboid {
                x: e.width + WALL_HALF_WIDTH,
                y: wall_half_height,
                half_width: WALL_HALF_WIDTH - COLLIDER_MARGIN,
                half_height: wall_half_height - COLLIDER_MARGIN,
            },
        );
        assert(walls@ =~= walls_of(e));
        let mut nodes: Vec<PhysNode> = Vec::new();
        let mut i: usize = 0;
        while i < fragments.len()
            invariant
                0 <= i <= fragments.len(),
                e.valid(),
                forall|k: int|
                    0 <= k < fragments@.len() ==> (#[trigger] fragments@[k]).bounds.valid(),
                nodes@ == placed(e.height as int, fragments@.take(i as int)),
                forall|k: int|
                    0 <= k < nodes@.len() ==> {
                        let n = #[trigger] nodes@[k];
                        &&& n.valid()
                        &&& n.half_width > COLLIDER_MARGIN
                        &&& n.half_height > COLLIDER_MARGIN
                        &&& within(n.x as int, POSE_LIMIT as int)
                        &&& within(n.y as int, POSE_LIMIT as int)
                    },
            decreases fragments.len() - i,
        {
            let f = &fragments[i];
            assert(fragments@.take(i + 1).drop_last() =~= fragments@.take(i as int));
            if f.bounds.width > 2 * COLLIDER_MARGIN + 1 && f.bounds.height > 2 * COLLIDER_MARGIN
                + 1 {
                let n = place_fragment(e.height, f);
                nodes.push(n);
            }
            i = i + 1;
        }
        assert(fragments@.take(i as int) =~= fragments@);
        Ok(Realm { extent: e, ground, walls, phys_nodes: nodes })
    }

    /// The pose of each object before any step: its initial pose where it is
    /// dynamic, none where it is fixed.
    pub fn initial_poses(&self) -> (r: Vec<Option<Pose>>)
        ensures
            r@ == initial_poses_spec(self.phys_nodes@),
    {
        let mut r: Vec<Option<Pose>> = Vec::new();
        let mut i: usize = 0;
        while i < self.phys_nodes.len()
            invariant
                0 <= i <= self.phys_nodes.len(),
                r@ == initial_poses_spec(self.phys_nodes@.take(i as int)),
            decreases self.phys_nodes.len() - i,
        {
            let n = &self.phys_nodes[i];
            match n.kind {
                ObjectKind::Dynamic => r.push(Some(n.initial_pose())),
                ObjectKind::Fixed => r.push(None),
            }
            assert(r@ =~= initial_poses_spec(self.phys_nodes@.take(i + 1)));
            i = i + 1;
        }
        assert(self.phys_nodes@.take(i as int) =~= self.phys_nodes@);
        r
    }

    /// Where the element of the object at `i` is drawn before any step, and,
    /// for a fixed object, always: its measured box, unrotated.
    pub fn initial_render(&self, i: usize) -> (r: RenderPose)
        requires
            self.well_formed(),
            i < self.phys_nodes@.len(),
        ensures
            r == self.phys_nodes@[i as int].initial_render_spec(self.extent.height as int),
    {
        self.phys_nodes[i].initial_render(self.extent.height)
    }

    /// The screen updates of one frame, given the pose of each object's body
    /// (`None` for an object without a live body): one for every dynamic
    /// object with a pose, in the objects' order.
    pub fn render_step(&self, poses: &Vec<Option<Pose>>) -> (r: Vec<Update>)
        requires
            self.well_formed(),
            poses@.len() == self.phys_nodes@.len(),
            forall|i: int| 0 <= i < poses@.len() ==> pose_ok(#[trigger] poses@[i]),
        ensures
            r@ == updates(self.phys_nodes@, poses@, self.extent.height as int),
    {
        let mut r: Vec<Update> = Vec::new();
        let mut i: usize = 0;
        let ghost h = self.extent.height as int;
        while i < self.phys_nodes.len()
            invariant
                0 <= i <= self.phys_nodes.len(),
                self.well_formed(),
                h == self.extent.height as int,
                poses@.len() == self.phys_nodes@.len(),
                forall|k: int| 0 <= k < poses@.len() ==> pose_ok(#[trigger] poses@[k]),
                r@ == updates(self.phys_nodes@.take(i as int), poses@.take(i as int), h),
            decreases self.phys_nodes.len() - i,
        {
            let n = &self.phys_nodes[i];
            assert(self.phys_nodes@.take(i + 1).drop_last() =~= self.phys_nodes@.take(i as int));
            assert(poses@.take(i + 1).drop_last() =~= poses@.take(i as int));
            let p = poses[i];
            assert(self.phys_nodes@.take(i + 1).last() == *n);
            assert(poses@.take(i + 1).last() == p);
            assert(self.phys_nodes@[i as int].valid());
            let ghost before = r@;
            let ghost nt = self.phys_nodes@.take(i + 1);
            let ghost pt = poses@.take(i + 1);
            assert(updates(nt, pt, h) == match project_spec(*n, p, h) {
                Some(rp) => before.push(Update { id: n.id, pose: rp }),
                None => before,
            });
            match project(n, p, self.extent.height) {
                Some(rp) => r.push(Update { id: n.id, pose: rp }),
                None => {},
            }
            i = i + 1;
        }
        assert(self.phys_nodes@.take(i as int) =~= self.phys_nodes@);
        assert(poses@.take(i as int) =~= poses@);
        r
    }
}

} // verus!

//! The rover: an entity with identity, creation time, position and facing,
//! and the state transitions for each motion — turns step the facing through
//! its cycle, a straight move steps one cell in the current facing and is
//! silently suppressed at the plateau's edges (clamping, not an error).

use vstd::prelude::*;
use crate::direction::Direction;
use crate::motion::Motion;
use crate::ids::{fresh_id, now_timestamp};
use crate::plateau::Plateau;
use crate::pose::Pose;

verus! {

/// A rover on a plateau. Its position and facing change only by applying
/// motions; identity and creation time never change.
#[derive(Debug, Clone, PartialEq)]
pub struct Rover {
    pub id: String,
    pub created_at: i64,
    pub x: i32,
    pub y: i32,
    pub facing: Direction,
}

/// A rover as the store keeps it: the same fields plus the id of the plateau
/// it belongs to.
#[derive(Debug, Clone, PartialEq)]
pub struct RoverDB {
    pub id: String,
    pub created_at: i64,
    pub x: i32,
    pub y: i32,
    pub facing: Direction,
    pub plateau_id: String,
}

/// The body of a creation request: the initial pose alone; identity and
/// timestamp are assigned at creation.
#[derive(Debug, Clone, Copy, PartialEq, Eq, Structural)]
pub struct RoverRequest {
    pub x: i32,
    pub y: i32,
    pub facing: Direction,
}

/// A list of rovers, newest first, as a listing returns it.
#[derive(Debug, Clone, PartialEq)]
pub struct Rovers(pub Vec<Rover>);

/// One straight step from `r` on `p`: one cell in the current facing, unless
/// the step would leave `0..=x_max` by `0..=y_max` — then the rover stays
/// where it is.
pub open spec fn spec_move_straight(r: Rover, p: Plateau) -> Rover {
    match r.facing {
        Direction::North => if r.y < p.y_max {
            Rover { y: (r.y + 1) as i32, ..r }
        } else {
            r
        },
        Direction::East => if r.x < p.x_max {
            Rover { x: (r.x + 1) as i32, ..r }
        } else {
            r
        },
        Direction::South => if r.y > 0 {
            Rover { y: (r.y - 1) as i32, ..r }
        } else {
            r
        },
        Direction::West => if r.x > 0 {
            Rover { x: (r.x - 1) as i32, ..r }
        } else {
            r
        },
    }
}

/// The rover after one motion: turns change only the facing, a straight move
/// only the position.
pub open spec fn spec_apply_motion(r: Rover, m: Motion, p: Plateau) -> Rover {
    match m {
        Motion::TurnLeft => Rover { facing: r.facing.spec_turn_left(), ..r },
        Motion::TurnRight => Rover { facing: r.facing.spec_turn_right(), ..r },
        Motion::MoveStraight => spec_move_straight(r, p),
    }
}

/// The rover after a whole motion path, applied left to right. No step can
/// fail, so the whole path always completes.
pub open spec fn spec_apply_motions(r: Rover, ms: Seq<Motion>, p: Plateau) -> Rover
    decreases ms.len(),
{
    if ms.len() == 0 {
        r
    } else {
        spec_apply_motions(spec_apply_motion(r, ms[0], p), ms.skip(1), p)
    }
}

/// The rover's position lies on the plateau.
pub open spec fn in_bounds(r: Rover, p: Plateau) -> bool {
    0 <= r.x <= p.x_max && 0 <= r.y <= p.y_max
}

/// Applying one motion after a path is the same as appending it to the path.
pub proof fn lemma_apply_motions_snoc(r: Rover, ms: Seq<Motion>, m: Motion, p: Plateau)
    ensures
        spec_apply_motions(r, ms.push(m), p) == spec_apply_motion(
            spec_apply_motions(r, ms, p),
            m,
            p,
        ),
    decreases ms.len(),
{
    if ms.len() == 0 {
        assert(ms.push(m)[0] == m);
        assert(ms.push(m).skip(1) =~= Seq::<Motion>::empty());
        assert(spec_apply_motions(r, ms.push(m), p) == spec_apply_motions(
            spec_apply_motion(r, m, p),
            ms.push(m).skip(1),
            p,
        ));
        assert(spec_apply_motions(spec_apply_motion(r, m, p), Seq::<Motion>::empty(), p)
            == spec_apply_motion(r, m, p));
        assert(spec_apply_motions(r, ms, p) == r);
    } else {
        assert(ms.push(m)[0] == ms[0]);
        assert(ms.push(m).skip(1) =~= ms.skip(1).push(m));
        assert(spec_apply_motions(r, ms.push(m), p) == spec_apply_motions(
            spec_apply_motion(r, ms[0], p),
            ms.skip(1).push(m),
            p,
        ));
        assert(spec_apply_motions(r, ms, p) == spec_apply_motions(
            spec_apply_motion(r, ms[0], p),
            ms.skip(1),
            p,
        ));
        lemma_apply_motions_snoc(spec_apply_motion(r, ms[0], p), ms.skip(1), m, p);
    }
}

/// Paths compose: applying `a` then `b` is applying `a + b`. A fixed
/// redesign of the move race would rely on this — two motion paths applied
/// in either order each leave a state that one combined path reaches.
pub proof fn lemma_apply_motions_append(r: Rover, a: Seq<Motion>, b: Seq<Motion>, p: Plateau)
    ensures
        spec_apply_motions(r, a + b, p) == spec_apply_motions(spec_apply_motions(r, a, p), b, p),
    decreases a.len(),
{
    if a.len() == 0 {
        assert(a + b =~= b);
    } else {
        assert((a + b)[0] == a[0]);
        assert((a + b).skip(1) =~= a.skip(1) + b);
        lemma_apply_motions_append(spec_apply_motion(r, a[0], p), a.skip(1), b, p);
    }
}

/// A whole motion path never moves identity or creation time either.
pub proof fn lemma_apply_motions_frame(r: Rover, ms: Seq<Motion>, p: Plateau)
    ensures
        spec_apply_motions(r, ms, p).id == r.id,
        spec_apply_motions(r, ms, p).created_at == r.created_at,
    decreases ms.len(),
{
    if ms.len() > 0 {
        lemma_apply_motions_frame(spec_apply_motion(r, ms[0], p), ms.skip(1), p);
    }
}

/// Clamping keeps every motion on the plateau: from a position on the grid,
/// no motion path leads off it — never `x < 0`, `y < 0`, `x > x_max` or
/// `y > y_max`.
pub proof fn lemma_motions_stay_in_bounds(r: Rover, ms: Seq<Motion>, p: Plateau)
    requires
        in_bounds(r, p),
    ensures
        in_bounds(spec_apply_motions(r, ms, p), p),
    decreases ms.len(),
{
    if ms.len() > 0 {
        lemma_motions_stay_in_bounds(spec_apply_motion(r, ms[0], p), ms.skip(1), p);
    }
}

/// At a boundary, moving straight outward changes nothing: a rover facing
/// North at `y == y_max`, East at `x == x_max`, South at `y == 0` or West at
/// `x == 0` stays exactly where it is.
pub proof fn lemma_outward_move_clamped(r: Rover, p: Plateau)
    requires
        (r.facing == Direction::North && r.y == p.y_max) || (r.facing == Direction::East && r.x
            == p.x_max) || (r.facing == Direction::South && r.y == 0) || (r.facing
            == Direction::West && r.x == 0),
    ensures
        spec_apply_motion(r, Motion::MoveStraight, p) == r,
{
}

impl Rover {
    /// A rover at the given pose, with a fresh identity and the current
    /// time.
    pub fn new(x: i32, y: i32, facing: Direction) -> (r: Self)
        ensures
            r.x == x,
            r.y == y,
            r.facing == facing,
            r.id@.len() == 36,
    {
        Self { id: fresh_id(), created_at: now_timestamp(), x, y, facing }
    }

    pub fn id(&self) -> (r: &str)
        ensures
            r@ == self.id@,
    {
        self.id.as_str()
    }

    /// The rover's placement as a pose value.
    pub fn pose(&self) -> (p: Pose)
        ensures
            p == (Pose { x: self.x, y: self.y, facing: self.facing }),
    {
        Pose::new(self.x, self.y, self.facing)
    }

    pub fn x(&self) -> (r: i32)
        ensures
            r == self.x,
    {
        self.x
    }

    pub fn y(&self) -> (r: i32)
        ensures
            r == self.y,
    {
        self.y
    }

    pub fn facing(&self) -> (r: Direction)
        ensures
            r == self.facing,
    {
        self.facing
    }

    /// Turns the rover left; nothing but the facing changes.
    pub fn turn_left(&mut self)
        ensures
            *final(self) == (Rover { facing: old(self).facing.spec_turn_left(), ..*old(self) }),
    {
        match self.facing {
            Direction::North => {
                self.facing = Direction::West;
            },
            Direction::East => {
                self.facing = Direction::North;
            },
            Direction::South => {
                self.facing = Direction::East;
            },
            Direction::West => {
                self.facing = Direction::South;
            },
        }
    }

    /// Turns the rover right; nothing but the facing changes.
    pub fn turn_right(&mut self)
        ensures
            *final(self) == (Rover { facing: old(self).facing.spec_turn_right(), ..*old(self) }),
    {
        match self.facing {
            Direction::North => {
                self.facing = Direction::East;
            },
            Direction::East => {
                self.facing = Direction::South;
            },
            Direction::South => {
                self.facing = Direction::West;
            },
            Direction::West => {
                self.facing = Direction::North;
            },
        }
    }

    /// One step in the positive x direction, a no-op at `x == x_max`.
    pub fn move_x_forward(&mut self, x_max: i32)
        ensures
            *final(self) == if old(self).x < x_max {
                Rover { x: (old(self).x + 1) as i32, ..*old(self) }
            } else {
                *old(self)
            },
    {
        if self.x < x_max {
            self.x = self.x + 1;
        }
    }

    /// One step in the negative x direction, a no-op at `x == 0`.
    pub fn move_x_backward(&mut self)
        ensures
            *final(self) == if old(self).x > 0 {
                Rover { x: (old(self).x - 1) as i32, ..*old(self) }
            } else {
                *old(self)
            },
    {
        if self.x > 0 {
            self.x = self.x - 1;
        }
    }

    /// One step in the positive y direction, a no-op at `y == y_max`.
    pub fn move_y_forward(&mut self, y_max: i32)
        ensures
            *final(self) == if old(self).y < y_max {
                Rover { y: (old(self).y + 1) as i32, ..*old(self) }
            } else {
                *old(self)
            },
    {
        if self.y < y_max {
            self.y = self.y + 1;
        }
    }

    /// One step in the negative y direction, a no-op at `y == 0`.
    pub fn move_y_backward(&mut self)
        ensures
            *final(self) == if old(self).y > 0 {
                Rover { y: (old(self).y - 1) as i32, ..*old(self) }
            } else {
                *old(self)
            },
    {
        if self.y > 0 {
            self.y = self.y - 1;
        }
    }

    /// One step in the current facing, clamped at the plateau's edges.
    pub fn move_straight(&mut self, plateau: &Plateau)
        ensures
            *final(self) == spec_move_straight(*old(self), *plateau),
    {
        match self.facing {
            Direction::North => self.move_y_forward(plateau.y_max()),
            Direction::East => self.move_x_forward(plateau.x_max()),
            Direction::South => self.move_y_backward(),
            Direction::West => self.move_x_backward(),
        }
    }

    /// Applies one motion.
    pub fn apply_motion(&mut self, motion: Motion, plateau: &Plateau)
        ensures
            *final(self) == spec_apply_motion(*old(self), motion, *plateau),
    {
        match motion {
            Motion::TurnLeft => self.turn_left(),
            Motion::TurnRight => self.turn_right(),
            Motion::MoveStraight => self.move_straight(plateau),
        }
    }

    /// Applies a whole motion path, left to right, mutating this rover in
    /// place. Single steps never fail, so the whole path always completes;
    /// there is nothing to roll back.
    pub fn apply_motion_vector(&mut self, motion_vector: Vec<Motion>, plateau: &Plateau)
        ensures
            *final(self) == spec_apply_motions(*old(self), motion_vector@, *plateau),
    {
        let n = motion_vector.len();
        let mut i: usize = 0;
        while i < n
            invariant
                n == motion_vector@.len(),
                0 <= i <= n,
                *self == spec_apply_motions(*old(self), motion_vector@.take(i as int), *plateau),
            decreases n - i,
        {
            self.apply_motion(motion_vector[i], plateau);
            proof {
                assert(motion_vector@.take(i + 1) =~= motion_vector@.take(i as int).push(
                    motion_vector@[i as int],
                ));
                lemma_apply_motions_snoc(
                    *old(self),
                    motion_vector@.take(i as int),
                    motion_vector@[i as int],
                    *plateau,
                );
            }
            i = i + 1;
        }
        proof {
            assert(motion_vector@.take(n as int) =~= motion_vector@);
        }
    }

    /// The row this rover is stored as under the owning plateau: the same
    /// fields, the creation timestamp included — identity and timestamp are
    /// assigned at creation only, never on storage.
    pub fn to_rover_db(&self, plateau_id: String) -> (row: RoverDB)
        ensures
            row.id == self.id,
            row.created_at == self.created_at,
            row.x == self.x,
            row.y == self.y,
            row.facing == self.facing,
            row.plateau_id == plateau_id,
    {
        RoverDB {
            id: self.id.clone(),
            created_at: self.created_at,
            x: self.x,
            y: self.y,
            facing: self.facing,
            plateau_id,
        }
    }
}

impl RoverDB {
    /// The rover a stored row describes; the owning plateau's id stays with
    /// the row.
    pub fn to_rover(&self) -> (r: Rover)
        ensures
            r.id == self.id,
            r.created_at == self.created_at,
            r.x == self.x,
            r.y == self.y,
            r.facing == self.facing,
    {
        Rover {
            id: self.id.clone(),
            created_at: self.created_at,
            x: self.x,
            y: self.y,
            facing: self.facing,
        }
    }
}

impl RoverRequest {
    /// The rover a creation request asks for, with a fresh identity and the
    /// current time.
    pub fn to_rover(&self) -> (r: Rover)
        ensures
            r.x == self.x,
            r.y == self.y,
            r.facing == self.facing,
            r.id@.len() == 36,
    {
        Rover::new(self.x, self.y, self.facing)
    }
}

impl Rovers {
    /// A listing of the given rovers, kept in the order handed in.
    pub fn new(rovers: Vec<Rover>) -> (r: Self)
        ensures
            r.0 == rovers,
    {
        Self(rovers)
    }

    /// The listed rovers, newest first.
    pub fn items(&self) -> (r: &Vec<Rover>)
        ensures
            r == &self.0,
    {
        &self.0
    }
}

} // verus!

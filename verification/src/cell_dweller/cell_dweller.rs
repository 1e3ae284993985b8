//! A thing that stands in one cell and faces one of its edges.
//!
//! Angles are whole seconds of arc, a 1,296,000th of a full turn, and grow
//! to the left. The yaw of a dweller is how far it has turned away from the
//! edge it faces. Panning adds to the yaw, and whenever the yaw is more than
//! half the angle between two edges of the cell, the dweller turns to the
//! next edge and the yaw is taken from the other side.

use vstd::prelude::*;
use crate::globe::cell_pos::{CellPos, IntCoord};
use crate::globe::dir::Dir;
use crate::globe::spec::Spec;
use crate::movement::{
    TurnDir, adjacent, adjacent_pos_in_dir, edge_exists, has_edge, is_pentagon, pentagon_at, turned,
    turned_n, turn_by_one_hex_edge,
};

verus! {

/// An angle in seconds of arc.
pub type Angle = i64;

/// The angle between two edges of a hexagon: 60 degrees.
pub const HEXAGON_EDGE_ANGLE: Angle = 216_000;

/// The angle between two edges of a pentagon: 72 degrees.
pub const PENTAGON_EDGE_ANGLE: Angle = 259_200;

/// The angle between two edges of the cell at `pos`.
pub open spec fn edge_angle(pos: CellPos, resolution: [IntCoord; 2]) -> int {
    if pentagon_at(pos, resolution) {
        PENTAGON_EDGE_ANGLE as int
    } else {
        HEXAGON_EDGE_ANGLE as int
    }
}

/// The number of turns by `angle` that bring the yaw `total` to within half
/// of `angle` of zero.
pub open spec fn turns_within(total: int, angle: int) -> nat {
    let half = angle / 2;
    if total > half {
        ((total - half + angle - 1) / angle) as nat
    } else if total < -half {
        ((-total - half + angle - 1) / angle) as nat
    } else {
        0
    }
}

/// What the real-space transform of a dweller is worked out from: the cell
/// it stands in, the cell it looks at, and its yaw.
#[derive(Clone, Copy, Debug, PartialEq, Eq, Structural, Hash)]
pub struct CellTransform {
    pub pos: CellPos,
    pub target: CellPos,
    pub yaw: Angle,
}

/// A thing that stands in one cell of a globe and faces one of its edges.
pub struct CellDweller {
    pub pos: CellPos,
    pub dir: Dir,
    pub last_turn_bias: TurnDir,
    pub yaw: Angle,
    /// Whether the cell transform was changed through a method of the
    /// dweller since the real-space transform was last worked out from it.
    pub is_real_space_transform_dirty: bool,
    pub globe_spec: Spec,
    pub globe_entity: Option<specs::Entity>,
}

impl CellDweller {
    /// Whether the real-space transform is out of date.
    pub open spec fn spec_is_dirty(&self) -> bool {
        self.is_real_space_transform_dirty
    }

    /// Whether the dweller faces an edge of the cell it stands in, so that
    /// it can turn.
    pub open spec fn faces_edge(&self) -> bool {
        edge_exists(self.pos, self.dir, self.globe_spec.root_resolution)
    }

    /// The angle between two edges of the cell that the dweller stands in.
    pub open spec fn angle_between_edges(&self) -> int {
        edge_angle(self.pos, self.globe_spec.root_resolution)
    }

    /// Whether panning by `pan` comes to an end. A pan by nothing always
    /// does. Any other does where the dweller faces an edge, the yaw and
    /// `pan` add up within the range of `Angle`, and turns in the sense of
    /// `pan` bring that sum towards zero: it is not already further to the
    /// other side than half the angle between two edges.
    pub open spec fn can_pan(&self, pan: Angle) -> bool {
        let total = self.yaw + pan;
        let half = self.angle_between_edges() / 2;
        pan == 0 || {
            &&& self.faces_edge()
            &&& i64::MIN <= total <= i64::MAX
            &&& pan > 0 ==> total >= -half
            &&& pan < 0 ==> total <= half
        }
    }

    /// A dweller in the cell at `pos` that faces `dir` squarely, on the
    /// globe `globe_entity` with the resolution `globe_spec`.
    pub fn new(pos: CellPos, dir: Dir, globe_spec: Spec, globe_entity: Option<specs::Entity>) -> (dweller:
        CellDweller)
        ensures
            dweller == (CellDweller {
                pos,
                dir,
                last_turn_bias: TurnDir::Right,
                yaw: 0,
                is_real_space_transform_dirty: true,
                globe_spec,
                globe_entity,
            }),
    {
        CellDweller {
            pos: pos,
            dir: dir,
            last_turn_bias: TurnDir::Right,
            yaw: 0,
            is_real_space_transform_dirty: true,
            globe_spec: globe_spec,
            globe_entity: globe_entity,
        }
    }

    /// The cell that the dweller stands in.
    pub fn pos(&self) -> (pos: CellPos)
        ensures
            pos == self.pos,
    {
        self.pos
    }

    /// Puts the dweller in the cell at `new_pos`.
    pub fn set_cell_pos(&mut self, new_pos: CellPos)
        ensures
            *final(self) == (CellDweller {
                pos: new_pos,
                is_real_space_transform_dirty: true,
                ..*old(self)
            }),
    {
        self.pos = new_pos;
        self.is_real_space_transform_dirty = true;
    }

    /// Puts the dweller in the cell at `new_pos`, facing `new_dir`, with
    /// the turn bias `new_last_turn_bias`.
    pub fn set_cell_transform(&mut self, new_pos: CellPos, new_dir: Dir, new_last_turn_bias: TurnDir)
        ensures
            *final(self) == (CellDweller {
                pos: new_pos,
                dir: new_dir,
                last_turn_bias: new_last_turn_bias,
                is_real_space_transform_dirty: true,
                ..*old(self)
            }),
    {
        self.pos = new_pos;
        self.dir = new_dir;
        self.last_turn_bias = new_last_turn_bias;
        self.is_real_space_transform_dirty = true;
    }

    /// The edge that the dweller faces.
    pub fn dir(&self) -> (dir: Dir)
        ensures
            dir == self.dir,
    {
        self.dir
    }

    /// Whether the dweller faces an edge of the cell it stands in, so that
    /// it can turn.
    pub fn can_turn(&self) -> (b: bool)
        ensures
            b == self.faces_edge(),
    {
        has_edge(&self.pos, self.dir, self.globe_spec.root_resolution)
    }

    /// Whether panning by `pan` comes to an end.
    pub fn pan_will_end(&self, pan: Angle) -> (b: bool)
        ensures
            b == self.can_pan(pan),
    {
        if pan == 0 {
            return true;
        }
        if !self.can_turn() {
            return false;
        }
        let half = half_edge_angle(&self.pos, self.globe_spec.root_resolution);
        match self.yaw.checked_add(pan) {
            Some(total) => (pan <= 0 || total >= -half) && (pan >= 0 || total <= half),
            None => false,
        }
    }

    /// Turns the view of the dweller by `pan`, to the left where `pan` is
    /// more than zero and to the right where it is less.
    ///
    /// `pan` is added to the yaw. While the yaw is then more than half the
    /// angle between two edges of the cell underfoot, the dweller turns by
    /// one edge in the sense of `pan`, and that angle is taken off the yaw.
    /// A `pan` of zero changes nothing.
    pub fn pan(&mut self, pan: Angle)
        requires
            old(self).can_pan(pan),
        ensures
            final(self).pos == old(self).pos,
            final(self).last_turn_bias == old(self).last_turn_bias,
            final(self).globe_spec == old(self).globe_spec,
            final(self).globe_entity == old(self).globe_entity,
            pan == 0 ==> *final(self) == *old(self),
            pan != 0 ==> {
                let angle = old(self).angle_between_edges();
                let turns = turns_within(old(self).yaw + pan, angle);
                let turn_dir = if pan > 0 {
                    TurnDir::Left
                } else {
                    TurnDir::Right
                };
                &&& final(self).is_real_space_transform_dirty()
                &&& final(self).dir == turned_n(
                    old(self).pos,
                    old(self).dir,
                    old(self).globe_spec.root_resolution,
                    turn_dir,
                    turns,
                )
                &&& pan > 0 ==> final(self).yaw == old(self).yaw + pan - turns * angle
                &&& pan < 0 ==> final(self).yaw == old(self).yaw + pan + turns * angle
                &&& -(angle / 2) <= final(self).yaw <= angle / 2
                &&& final(self).faces_edge()
            },
    {
        if pan == 0 {
            return ;
        }
        let turn_dir = if pan > 0 {
            TurnDir::Left
        } else {
            TurnDir::Right
        };
        let ghost angle = self.angle_between_edges();
        let ghost total = self.yaw + pan;
        let ghost turns: nat = 0;
        self.yaw = self.yaw + pan;
        loop
            invariant
                pan != 0,
                turn_dir == (if pan > 0 {
                    TurnDir::Left
                } else {
                    TurnDir::Right
                }),
                self.pos == old(self).pos,
                self.last_turn_bias == old(self).last_turn_bias,
                self.globe_spec == old(self).globe_spec,
                self.globe_entity == old(self).globe_entity,
                old(self).faces_edge(),
                angle == old(self).angle_between_edges(),
                total == old(self).yaw + pan,
                i64::MIN <= total <= i64::MAX,
                pan > 0 ==> total >= -(angle / 2),
                pan < 0 ==> total <= angle / 2,
                pan > 0 ==> self.yaw == total - turns * angle && self.yaw >= -(angle / 2),
                pan < 0 ==> self.yaw == total + turns * angle && self.yaw <= angle / 2,
                pan > 0 ==> turns == 0 || total - (turns - 1) * angle > angle / 2,
                pan < 0 ==> turns == 0 || total + (turns - 1) * angle < -(angle / 2),
                self.dir == turned_n(
                    old(self).pos,
                    old(self).dir,
                    old(self).globe_spec.root_resolution,
                    turn_dir,
                    turns,
                ),
                self.faces_edge(),
            ensures
                -(angle / 2) <= self.yaw <= angle / 2,
            decreases
                    (if self.yaw >= 0 {
                        self.yaw as int
                    } else {
                        -self.yaw
                    }),
        {
            // The angle between edges is asked for anew at every turn.
            let angle_between_edges = edge_angle_at(&self.pos, self.globe_spec.root_resolution);
            let half_angle = angle_between_edges / 2;
            if self.yaw <= half_angle && self.yaw >= -half_angle {
                break ;
            }
            self.turn(turn_dir);
            match turn_dir {
                TurnDir::Left => {
                    self.yaw = self.yaw - angle_between_edges;
                },
                TurnDir::Right => {
                    self.yaw = self.yaw + angle_between_edges;
                },
            }
            proof {
                assert((turns + 1) * angle == turns * angle + angle) by (nonlinear_arith);
                turns = turns + 1;
            }
        }
        proof {
            lemma_turns_within(total, angle, turns, pan > 0);
        }
        self.is_real_space_transform_dirty = true;
    }

    /// Turns the dweller by one edge of the cell it stands in.
    pub fn turn(&mut self, turn_dir: TurnDir)
        requires
            old(self).faces_edge(),
        ensures
            *final(self) == (CellDweller {
                dir: turned(
                    old(self).pos,
                    old(self).dir,
                    old(self).globe_spec.root_resolution,
                    turn_dir,
                ),
                is_real_space_transform_dirty: true,
                ..*old(self)
            }),
            final(self).faces_edge(),
    {
        let mut pos = self.pos;
        let mut dir = self.dir;
        let turned = turn_by_one_hex_edge(&mut pos, &mut dir, self.globe_spec.root_resolution, turn_dir);
        assert(turned.is_ok());
        self.pos = pos;
        self.dir = dir;
        self.is_real_space_transform_dirty = true;
    }

    /// Whether the cell transform was changed through a method of the
    /// dweller since the real-space transform was last worked out from it.
    #[verifier::when_used_as_spec(spec_is_dirty)]
    pub fn is_real_space_transform_dirty(&self) -> (dirty: bool)
        ensures
            dirty == self.is_real_space_transform_dirty(),
    {
        self.is_real_space_transform_dirty
    }

    /// Whether the dweller looks at a cell that has an address: the
    /// condition under which its real-space transform can be worked out.
    pub fn has_target(&self) -> (b: bool)
        ensures
            b == adjacent(self.pos, self.dir).is_some(),
    {
        adjacent_pos_in_dir(self.pos, self.dir).is_ok()
    }

    /// What the real-space transform of the dweller is worked out from: the
    /// cell it stands in, the cell one step ahead, which it looks at, and
    /// its yaw. The transform then counts as up to date.
    pub fn get_real_transform_and_mark_as_clean(&mut self) -> (transform: CellTransform)
        requires
            adjacent(old(self).pos, old(self).dir).is_some(),
        ensures
            transform.pos == old(self).pos,
            Some(transform.target) == adjacent(old(self).pos, old(self).dir),
            transform.yaw == old(self).yaw,
            *final(self) == (CellDweller { is_real_space_transform_dirty: false, ..*old(self) }),
    {
        self.is_real_space_transform_dirty = false;
        self.real_transform()
    }

    /// The cell transform, looking one cell ahead.
    fn real_transform(&self) -> (transform: CellTransform)
        requires
            adjacent(self.pos, self.dir).is_some(),
        ensures
            transform.pos == self.pos,
            Some(transform.target) == adjacent(self.pos, self.dir),
            transform.yaw == self.yaw,
    {
        let target = match adjacent_pos_in_dir(self.pos, self.dir) {
            Ok(next_pos) => next_pos,
            Err(_) => self.pos,
        };
        CellTransform { pos: self.pos, target, yaw: self.yaw }
    }
}

/// The angle between two edges of the cell at `pos`.
pub fn edge_angle_at(pos: &CellPos, resolution: [IntCoord; 2]) -> (angle: Angle)
    ensures
        angle == edge_angle(*pos, resolution),
{
    if is_pentagon(pos, resolution) {
        PENTAGON_EDGE_ANGLE
    } else {
        HEXAGON_EDGE_ANGLE
    }
}

/// Half the angle between two edges of the cell at `pos`.
fn half_edge_angle(pos: &CellPos, resolution: [IntCoord; 2]) -> (half: Angle)
    ensures
        half == edge_angle(*pos, resolution) / 2,
{
    edge_angle_at(pos, resolution) / 2
}

/// A count of turns that leaves the yaw within half an edge angle of zero,
/// and that no smaller count would, is the count that `turns_within`
/// gives.
proof fn lemma_turns_within(total: int, angle: int, turns: nat, left: bool)
    requires
        angle == HEXAGON_EDGE_ANGLE || angle == PENTAGON_EDGE_ANGLE,
        left ==> total >= -(angle / 2),
        !left ==> total <= angle / 2,
        left ==> -(angle / 2) <= total - turns * angle <= angle / 2,
        !left ==> -(angle / 2) <= total + turns * angle <= angle / 2,
        left ==> turns == 0 || total - (turns - 1) * angle > angle / 2,
        !left ==> turns == 0 || total + (turns - 1) * angle < -(angle / 2),
    ensures
        turns == turns_within(total, angle),
{
    let half = angle / 2;
    if left {
        if turns == 0 {
        } else {
            assert(turns == (total - half + angle - 1) / angle) by (nonlinear_arith)
                requires
                    angle > 0,
                    turns >= 1,
                    total - turns * angle <= half,
                    total - (turns - 1) * angle > half,
            ;
        }
    } else {
        if turns == 0 {
        } else {
            assert(turns == (-total - half + angle - 1) / angle) by (nonlinear_arith)
                requires
                    angle > 0,
                    turns >= 1,
                    total + turns * angle >= -half,
                    total + (turns - 1) * angle < -half,
            ;
        }
    }
}

} // verus!

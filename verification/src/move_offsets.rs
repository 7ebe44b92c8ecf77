use crate::direction::{
    spec_dx, spec_dy, spec_from_offset, MoveDirection, MoveDirectionOffset,
};
use crate::position::{on_board, pos_at, Position};
use vstd::prelude::*;

verus! {

broadcast use crate::position::lemma_pos_at_coords, crate::position::lemma_inv_on_board;

/// Rank coordinate reached after `k` applications of `d` starting at `c`.
pub open spec fn step_x(c: Position, d: MoveDirection, k: int) -> int {
    c.spec_x() + k * spec_dx(d)
}

/// File coordinate reached after `k` applications of `d` starting at `c`.
pub open spec fn step_y(c: Position, d: MoveDirection, k: int) -> int {
    c.spec_y() + k * spec_dy(d)
}

/// The first `k` steps of the walk from `c` along `d` all stay on the board.
pub open spec fn steps_on_board(c: Position, d: MoveDirection, k: int) -> bool {
    forall|j: int| 1 <= j <= k ==> on_board(#[trigger] step_x(c, d, j), step_y(c, d, j))
}

/// `t` lies exactly `k` steps from `c` along `d`.
pub open spec fn hits_at(c: Position, d: MoveDirection, t: Position, k: int) -> bool {
    t.spec_x() == step_x(c, d, k) && t.spec_y() == step_y(c, d, k)
}

/// The walk from `c` along `d` meets `t` at step `k` without having left
/// the board, with `k` within the shape's step budget `max`.
pub open spec fn reach_at(c: Position, d: MoveDirection, t: Position, max: int, k: int) -> bool {
    1 <= k <= max && steps_on_board(c, d, k) && hits_at(c, d, t, k)
}

/// Walking from `c` along `d` reaches `t` within `max` steps.
pub open spec fn dir_reaches(c: Position, d: MoveDirection, t: Position, max: int) -> bool {
    exists|k: int| #[trigger] reach_at(c, d, t, max, k)
}

/// The number of steps at which the walk from `c` along `d` meets `t`;
/// meaningful when `dir_reaches(c, d, t, max)` holds, and then unique.
pub open spec fn hit_step(c: Position, d: MoveDirection, t: Position, max: int) -> int {
    choose|k: int| reach_at(c, d, t, max, k)
}

/// The first `k` squares visited by the walk from `c` along `d`, nearest first.
pub open spec fn walk_squares(c: Position, d: MoveDirection, k: int) -> Seq<Position> {
    Seq::new(k as nat, |i: int| pos_at(step_x(c, d, i + 1), step_y(c, d, i + 1)))
}

/// Stepping once more along a direction adds its offset to the coordinates.
pub proof fn lemma_step_succ(c: Position, d: MoveDirection, k: int)
    ensures
        step_x(c, d, k + 1) == step_x(c, d, k) + spec_dx(d),
        step_y(c, d, k + 1) == step_y(c, d, k) + spec_dy(d),
{
    assert((k + 1) * spec_dx(d) == k * spec_dx(d) + spec_dx(d)) by (nonlinear_arith);
    assert((k + 1) * spec_dy(d) == k * spec_dy(d) + spec_dy(d)) by (nonlinear_arith);
}

/// A walk along a direction meets a given square at most once, because
/// no direction's offset is zero.
pub proof fn lemma_hit_step_unique(
    c: Position,
    d: MoveDirection,
    t: Position,
    k1: int,
    k2: int,
)
    requires
        hits_at(c, d, t, k1),
        hits_at(c, d, t, k2),
    ensures
        k1 == k2,
{
    crate::direction::lemma_offset_nonzero(d);
    if spec_dx(d) != 0 {
        assert(k1 == k2) by (nonlinear_arith)
            requires
                k1 * spec_dx(d) == k2 * spec_dx(d),
                spec_dx(d) != 0,
        ;
    } else {
        assert(k1 == k2) by (nonlinear_arith)
            requires
                k1 * spec_dy(d) == k2 * spec_dy(d),
                spec_dy(d) != 0,
        ;
    }
}

/// Positions with equal coordinates are equal.
pub proof fn lemma_pos_coords_eq(p: Position, q: Position)
    requires
        p.spec_x() == q.spec_x(),
        p.spec_y() == q.spec_y(),
    ensures
        p == q,
{
    assert(pos_at(p.spec_x(), p.spec_y()) == pos_at(q.spec_x(), q.spec_y()));
    crate::position::lemma_pos_ext(p);
    crate::position::lemma_pos_ext(q);
}

/// The path that a walking shape yields: the first direction in `dirs`
/// whose walk reaches `t` within `max` steps contributes the squares it
/// visits up to and including `t`; if no direction reaches `t`, no path.
pub open spec fn spec_walk_path(
    dirs: Seq<MoveDirection>,
    max: int,
    c: Position,
    t: Position,
) -> Option<Seq<Position>>
    decreases dirs.len(),
{
    if dirs.len() == 0 {
        None
    } else if dir_reaches(c, dirs[0], t, max) {
        Some(walk_squares(c, dirs[0], hit_step(c, dirs[0], t, max)))
    } else {
        spec_walk_path(dirs.drop_first(), max, c, t)
    }
}

/// The path that a single-application shape yields: the one-square path
/// `[t]` exactly when the offset from `c` to `t` is the offset of a
/// direction contained in `dirs`.
pub open spec fn spec_once_path(
    dirs: Seq<MoveDirection>,
    c: Position,
    t: Position,
) -> Option<Seq<Position>> {
    match spec_from_offset(t.spec_x() - c.spec_x(), t.spec_y() - c.spec_y()) {
        Some(d) => if dirs.contains(d) {
            Some(seq![t])
        } else {
            None
        },
        None => None,
    }
}

/// A movement shape: a set of directions together with how often each may
/// be applied in a single move.
pub enum MoveOffsets {
    AppliableOnce(Vec<MoveDirection>),
    AppliableTwice(Vec<MoveDirection>),
    AppliableMultiple(Vec<MoveDirection>),
}

impl MoveOffsets {
    /// The path from `current` to `target` that this shape yields, if any:
    /// the ordered squares traversed, excluding `current` and including
    /// `target`.
    pub open spec fn spec_path(self, current: Position, target: Position) -> Option<Seq<Position>> {
        match self {
            MoveOffsets::AppliableOnce(dirs) => spec_once_path(dirs@, current, target),
            MoveOffsets::AppliableTwice(dirs) => spec_walk_path(dirs@, 2, current, target),
            MoveOffsets::AppliableMultiple(dirs) => spec_walk_path(dirs@, 7, current, target),
        }
    }

    /// A shape whose directions apply exactly once.
    pub fn new_appliable_once(offsets: Vec<MoveDirection>) -> (r: Self)
        ensures
            r == MoveOffsets::AppliableOnce(offsets),
    {
        MoveOffsets::AppliableOnce(offsets)
    }

    /// A shape whose directions repeat until blocked or off the board.
    pub fn new_appliable_multiple(offsets: Vec<MoveDirection>) -> (r: Self)
        ensures
            r == MoveOffsets::AppliableMultiple(offsets),
    {
        MoveOffsets::AppliableMultiple(offsets)
    }

    /// A shape whose directions apply once or twice.
    pub fn new_appliable_twice(offsets: Vec<MoveDirection>) -> (r: Self)
        ensures
            r == MoveOffsets::AppliableTwice(offsets),
    {
        MoveOffsets::AppliableTwice(offsets)
    }

    /// Computes the path this shape yields from `current_position` to
    /// `target_position`, or `None` when the target is not reachable.
    pub fn construct_path(
        &self,
        current_position: Position,
        target_position: Position,
    ) -> (r: Option<Vec<Position>>)
        ensures
            match r {
                Some(v) => self.spec_path(current_position, target_position) == Some(v@),
                None => self.spec_path(current_position, target_position) is None,
            },
    {
        match self {
            MoveOffsets::AppliableOnce(dirs) => {
                proof {
                    use_type_invariant(current_position);
                    use_type_invariant(target_position);
                }
                let dx: i32 = target_position.x() as i32 - current_position.x() as i32;
                let dy: i32 = target_position.y() as i32 - current_position.y() as i32;
                match MoveDirection::from_offset(MoveDirectionOffset { dx, dy }) {
                    Some(direction) => {
                        if contains_direction(dirs, direction) {
                            let path = vec![target_position];
                            proof {
                                assert(path@ =~= seq![target_position]);
                            }
                            Some(path)
                        } else {
                            None
                        }
                    },
                    None => None,
                }
            },
            MoveOffsets::AppliableTwice(dirs) => walk_path_of(dirs, 2, current_position,
                target_position),
            MoveOffsets::AppliableMultiple(dirs) => walk_path_of(dirs, 7, current_position,
                target_position),
        }
    }
}

/// Whether `dirs` contains the direction `d`.
fn contains_direction(dirs: &Vec<MoveDirection>, d: MoveDirection) -> (r: bool)
    ensures
        r == dirs@.contains(d),
{
    let mut i: usize = 0;
    while i < dirs.len()
        invariant
            0 <= i <= dirs@.len(),
            forall|j: int| 0 <= j < i ==> dirs@[j] != d,
        decreases dirs@.len() - i,
    {
        if dirs[i] == d {
            return true;
        }
        i += 1;
    }
    false
}

/// Walks each direction of `dirs` in order, up to `max` steps, returning
/// the visited squares up to the first direction's meeting with `t`.
fn walk_path_of(dirs: &Vec<MoveDirection>, max: usize, c: Position, t: Position) -> (r: Option<
    Vec<Position>,
>)
    requires
        1 <= max <= 7,
    ensures
        match r {
            Some(v) => spec_walk_path(dirs@, max as int, c, t) == Some(v@),
            None => spec_walk_path(dirs@, max as int, c, t) is None,
        },
{
    let mut i: usize = 0;
    proof {
        assert(dirs@.skip(0) =~= dirs@);
    }
    while i < dirs.len()
        invariant
            0 <= i <= dirs@.len(),
            1 <= max <= 7,
            spec_walk_path(dirs@, max as int, c, t) == spec_walk_path(
                dirs@.skip(i as int),
                max as int,
                c,
                t,
            ),
        decreases dirs@.len() - i,
    {
        let d = dirs[i];
        proof {
            assert(dirs@.skip(i as int)[0] == d);
        }
        match walk_direction(c, d, t, max) {
            Some(v) => {
                return Some(v);
            },
            None => {
                proof {
                    assert(dirs@.skip(i as int).drop_first() =~= dirs@.skip(i as int + 1));
                }
            },
        }
        i += 1;
    }
    proof {
        assert(dirs@.skip(i as int).len() == 0);
    }
    None
}

/// Walks from `c` along `d` for at most `max` steps, collecting each
/// visited square, and returns the collected path when `t` is met.
fn walk_direction(c: Position, d: MoveDirection, t: Position, max: usize) -> (r: Option<
    Vec<Position>,
>)
    requires
        1 <= max <= 7,
    ensures
        match r {
            Some(v) => dir_reaches(c, d, t, max as int) && v@ == walk_squares(
                c,
                d,
                hit_step(c, d, t, max as int),
            ),
            None => !dir_reaches(c, d, t, max as int),
        },
{
    let offset = d.to_offset();
    let mut path: Vec<Position> = Vec::new();
    let mut current = c;
    let mut k: usize = 0;
    while k < max
        invariant
            0 <= k <= max <= 7,
            offset.dx == spec_dx(d),
            offset.dy == spec_dy(d),
            k == path@.len(),
            current.spec_x() == step_x(c, d, k as int),
            current.spec_y() == step_y(c, d, k as int),
            forall|j: int|
                0 <= j < k ==> path@[j] == pos_at(step_x(c, d, j + 1), step_y(c, d, j + 1)),
            steps_on_board(c, d, k as int),
            forall|j: int| 1 <= j <= k ==> !hits_at(c, d, t, j),
        decreases max - k,
    {
        proof {
            lemma_step_succ(c, d, k as int);
        }
        match current.offset_by(offset) {
            Some(next) => {
                path.push(next);
                if next == t {
                    proof {
                        use_type_invariant(t);
                        assert(hits_at(c, d, t, k + 1));
                        assert(reach_at(c, d, t, max as int, k + 1));
                        assert(dir_reaches(c, d, t, max as int));
                        let hk = hit_step(c, d, t, max as int);
                        assert(reach_at(c, d, t, max as int, hk));
                        lemma_hit_step_unique(c, d, t, hk, k + 1);
                        assert(path@ =~= walk_squares(c, d, k + 1));
                    }
                    return Some(path);
                }
                proof {
                    assert(!hits_at(c, d, t, k + 1)) by {
                        if hits_at(c, d, t, k + 1) {
                            lemma_pos_coords_eq(t, next);
                        }
                    }
                }
                current = next;
                k += 1;
            },
            None => {
                proof {
                    assert(!on_board(step_x(c, d, k + 1), step_y(c, d, k + 1)));
                    assert(!dir_reaches(c, d, t, max as int)) by {
                        assert forall|kk: int| !reach_at(c, d, t, max as int, kk) by {
                            if 1 <= kk <= k {
                                assert(!hits_at(c, d, t, kk));
                            } else if k < kk && kk <= max {
                                assert(steps_on_board(c, d, kk) ==> on_board(
                                    step_x(c, d, k + 1),
                                    step_y(c, d, k + 1),
                                ));
                            }
                        }
                    }
                }
                return None;
            },
        }
    }
    proof {
        assert(!dir_reaches(c, d, t, max as int)) by {
            assert forall|kk: int| !reach_at(c, d, t, max as int, kk) by {
                if 1 <= kk <= max {
                    assert(!hits_at(c, d, t, kk));
                }
            }
        }
    }
    None
}

} // verus!

//! A rover's placement: position and facing, with the textual triple
//! `"x y facing"` that the CLI and the API both speak.

use vstd::prelude::*;
use vstd::string::{StrSliceExecFns, StringExecFns};
use crate::direction::Direction;
use crate::error::{bad_direction_msg, coordinate_err_msg, pose_token_count_msg, Error};
use crate::text::{
    fmt_i32, fmt_usize, lemma_fmt_i32_shape, lemma_parse_fmt_i32, lemma_split_field,
    lemma_split_no_space, lemma_trim_no_edge_space, parse_i32, spec_fmt_i32, spec_parse_i32,
    spec_split, spec_trim, split_spaces, trim_str, is_space,
};

verus! {

/// The `(x, y, facing)` triple describing a rover's placement. A transient
/// value: it is derived from and turned back into a rover's own fields.
#[derive(Debug, Clone, Copy, PartialEq, Eq, Structural)]
pub struct Pose {
    pub x: i32,
    pub y: i32,
    pub facing: Direction,
}

/// The facing encoded by a whole field: exactly one of the four letters.
pub open spec fn spec_parse_dir(t: Seq<char>) -> Option<Direction> {
    if t.len() == 1 && t[0] == 'N' {
        Some(Direction::North)
    } else if t.len() == 1 && t[0] == 'E' {
        Some(Direction::East)
    } else if t.len() == 1 && t[0] == 'S' {
        Some(Direction::South)
    } else if t.len() == 1 && t[0] == 'W' {
        Some(Direction::West)
    } else {
        None
    }
}

/// The fields of a pose or plateau line: the line is trimmed, then split
/// into its whitespace-separated fields, with any run of whitespace
/// separating two of them.
pub open spec fn line_fields(s: Seq<char>) -> Seq<Seq<char>> {
    spec_split(spec_trim(s))
}

/// What parsing `s` as a pose yields: exactly three fields, the first two
/// 32-bit decimal integers, the third a facing letter.
pub open spec fn spec_parse_pose(s: Seq<char>) -> Option<(int, int, Direction)> {
    let toks = line_fields(s);
    if toks.len() != 3 {
        None
    } else if spec_parse_i32(toks[0]) is None {
        None
    } else if spec_parse_i32(toks[1]) is None {
        None
    } else if spec_parse_dir(toks[2]) is None {
        None
    } else {
        Some(
            (
                spec_parse_i32(toks[0]).unwrap(),
                spec_parse_i32(toks[1]).unwrap(),
                spec_parse_dir(toks[2]).unwrap(),
            ),
        )
    }
}

/// The canonical text of a pose: the two coordinates and the facing letter,
/// space separated.
pub open spec fn spec_pose_text(p: Pose) -> Seq<char> {
    spec_fmt_i32(p.x as int) + seq![' '] + spec_fmt_i32(p.y as int) + seq![
        ' ',
    ] + seq![p.facing.spec_letter()]
}

impl Pose {
    /// A pose from its parts.
    pub fn new(x: i32, y: i32, facing: Direction) -> (p: Self)
        ensures
            p == (Pose { x, y, facing }),
    {
        Self { x, y, facing }
    }

    pub fn x(&self) -> (r: i32)
        ensures
            r == self.x,
    {
        self.x
    }

    pub fn y(&self) -> (r: i32)
        ensures
            r == self.y,
    {
        self.y
    }

    pub fn facing(&self) -> (r: Direction)
        ensures
            r == self.facing,
    {
        self.facing
    }

    /// Reads `"x y facing"`. A line without exactly three fields, or with a
    /// facing outside the four letters, is a `PoseParseError`; a coordinate
    /// that is not a 32-bit decimal integer is a `CoOrdinateParseError`, the
    /// first of the two that fails deciding. Negative coordinates are
    /// accepted here — only the clamping of later moves keeps a rover on
    /// the grid, so the parser is deliberately no stricter than the number
    /// grammar.
    pub fn parse(s: &str) -> (r: Result<Pose, Error>)
        ensures
            r is Ok <==> spec_parse_pose(s@) is Some,
            r matches Ok(p) ==> spec_parse_pose(s@) == Some((p.x as int, p.y as int, p.facing)),
            ({
                let toks = line_fields(s@);
                &&& (toks.len() != 3 ==> (r matches Err(e) && e matches Error::PoseParseError(m)
                    && m@ == pose_token_count_msg(toks.len())))
                &&& (toks.len() == 3 && (spec_parse_i32(toks[0]) is None || spec_parse_i32(
                    toks[1],
                ) is None) ==> (r matches Err(e) && e matches Error::CoOrdinateParseError(m)
                    && m@ == coordinate_err_msg()))
                &&& (toks.len() == 3 && spec_parse_i32(toks[0]) is Some && spec_parse_i32(
                    toks[1],
                ) is Some && spec_parse_dir(toks[2]) is None ==> (r matches Err(e)
                    && e matches Error::PoseParseError(m) && m@ == bad_direction_msg(toks[2])))
            }),
    {
        let trimmed = trim_str(s);
        let tokens = split_spaces(trimmed);
        proof {
            assert(tokens.deep_view() == line_fields(s@));
        }
        if tokens.len() != 3 {
            let mut msg = String::from_str("Expected 3 parameters but found ");
            let cnt = fmt_usize(tokens.len());
            msg.append(cnt.as_str());
            return Err(Error::PoseParseError(msg));
        }
        proof {
            assert(tokens.deep_view()[0] == tokens@[0]@);
            assert(tokens.deep_view()[1] == tokens@[1]@);
            assert(tokens.deep_view()[2] == tokens@[2]@);
        }
        let x = match parse_i32(tokens[0].as_str()) {
            Some(v) => v,
            None => {
                return Err(
                    Error::CoOrdinateParseError(
                        String::from_str("Co-ordinate can only be a non-negative integer"),
                    ),
                );
            },
        };
        let y = match parse_i32(tokens[1].as_str()) {
            Some(v) => v,
            None => {
                return Err(
                    Error::CoOrdinateParseError(
                        String::from_str("Co-ordinate can only be a non-negative integer"),
                    ),
                );
            },
        };
        let ft = &tokens[2];
        let dir = if ft.as_str().unicode_len() == 1 {
            Direction::from_letter(ft.as_str().get_char(0))
        } else {
            None
        };
        match dir {
            Some(facing) => Ok(Pose { x, y, facing }),
            None => {
                let mut msg = String::from_str("Invalid direction '").concat(ft.as_str());
                msg.push('\'');
                proof {
                    reveal_strlit("'");
                    assert("'"@ =~= seq!['\'']);
                    assert(msg@ =~= bad_direction_msg(ft@));
                }
                Err(Error::PoseParseError(msg))
            },
        }
    }

    /// The canonical text `"x y facing"`.
    pub fn to_text(&self) -> (s: String)
        ensures
            s@ == spec_pose_text(*self),
    {
        let mut s = fmt_i32(self.x);
        s.push(' ');
        let ys = fmt_i32(self.y);
        s.append(ys.as_str());
        s.push(' ');
        s.push(self.facing.letter());
        proof {
            assert(s@ =~= spec_pose_text(*self));
        }
        s
    }
}

/// The pose grammar round-trips: parsing the canonical text of any pose
/// yields that pose back, so formatting what was parsed from a canonical
/// line reproduces the line.
pub proof fn lemma_pose_round_trip(p: Pose)
    ensures
        spec_parse_pose(spec_pose_text(p)) == Some((p.x as int, p.y as int, p.facing)),
{
    let fx = spec_fmt_i32(p.x as int);
    let fy = spec_fmt_i32(p.y as int);
    let fl = seq![p.facing.spec_letter()];
    let t = spec_pose_text(p);
    lemma_fmt_i32_shape(p.x as int);
    lemma_fmt_i32_shape(p.y as int);
    assert(!is_space(p.facing.spec_letter()));
    assert(p.facing.spec_letter() != ' ');
    assert(t[0] == fx[0]);
    assert(t.last() == p.facing.spec_letter());
    lemma_trim_no_edge_space(t);
    lemma_split_no_space(fl);
    lemma_split_field(fy, fl);
    lemma_split_field(fx, fy + seq![' '] + fl);
    assert(t =~= fx + seq![' '] + (fy + seq![' '] + fl));
    assert(spec_split(t) =~~= seq![fx] + spec_split(fy + seq![' '] + fl));
    assert(spec_split(t) =~~= seq![fx, fy, fl]);
    let toks = line_fields(t);
    assert(toks == spec_split(t));
    assert(toks.len() == 3);
    assert(toks[0] == fx && toks[1] == fy && toks[2] == fl);
    lemma_parse_fmt_i32(p.x);
    lemma_parse_fmt_i32(p.y);
    assert(spec_parse_dir(fl) == Some(p.facing));
}

/// On a well-formed line — one that is the canonical text of some pose —
/// formatting what was parsed reproduces the line exactly.
pub proof fn lemma_pose_format_parse(s: Seq<char>, p: Pose)
    requires
        s == spec_pose_text(p),
    ensures
        spec_parse_pose(s) is Some,
        ({
            let q = spec_parse_pose(s).unwrap();
            spec_pose_text(Pose { x: q.0 as i32, y: q.1 as i32, facing: q.2 }) == s
        }),
{
    lemma_pose_round_trip(p);
    let q = spec_parse_pose(s).unwrap();
    assert(q.0 as i32 == p.x && q.1 as i32 == p.y && q.2 == p.facing);
    assert((Pose { x: q.0 as i32, y: q.1 as i32, facing: q.2 }) == p);
}

} // verus!

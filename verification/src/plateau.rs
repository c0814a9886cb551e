//! The plateau: a named rectangular grid with upper bounds `(x_max, y_max)`
//! and lower bounds fixed at zero, the `"x_max y_max"` line it is created
//! from, and the stored-row shape it is persisted as.

use vstd::prelude::*;
use vstd::string::{StrSliceExecFns, StringExecFns};
use crate::error::{coordinate_err_msg, Error};
use crate::ids::{fresh_id, now_timestamp};
use crate::pose::line_fields;
use crate::text::{
    fmt_i32, lemma_fmt_i32_shape, lemma_parse_fmt_i32, lemma_split_field, lemma_split_no_space,
    lemma_trim_no_edge_space, parse_i32, spec_fmt_i32, spec_parse_i32, spec_split, split_spaces,
    trim_str,
};

verus! {

/// A grid with identity, creation time and immutable bounds. Positions on it
/// range over `0..=x_max` and `0..=y_max`.
#[derive(Debug, Clone, PartialEq)]
pub struct Plateau {
    pub id: String,
    pub created_at: i64,
    pub x_max: i32,
    pub y_max: i32,
}

/// A plateau as the store keeps it: the same fields, with the row's own
/// creation timestamp.
#[derive(Debug, Clone, PartialEq)]
pub struct PlateauDB {
    pub id: String,
    pub created_at: i64,
    pub x_max: i32,
    pub y_max: i32,
}

/// The body of a creation request: the bounds alone; identity and timestamp
/// are assigned at creation.
#[derive(Debug, Clone, Copy, PartialEq, Eq, Structural)]
pub struct PlateauRequest {
    pub x_max: i32,
    pub y_max: i32,
}

/// A list of plateaus, newest first, as a listing returns it.
#[derive(Debug, Clone, PartialEq)]
pub struct Plateaus(pub Vec<Plateau>);

/// What parsing `s` as plateau bounds yields: exactly two fields, both
/// 32-bit decimal integers.
pub open spec fn spec_parse_plateau(s: Seq<char>) -> Option<(int, int)> {
    let toks = line_fields(s);
    if toks.len() != 2 {
        None
    } else if spec_parse_i32(toks[0]) is None {
        None
    } else if spec_parse_i32(toks[1]) is None {
        None
    } else {
        Some((spec_parse_i32(toks[0]).unwrap(), spec_parse_i32(toks[1]).unwrap()))
    }
}

/// The canonical text of a plateau's bounds: the two maxima, space
/// separated.
pub open spec fn spec_plateau_text(p: Plateau) -> Seq<char> {
    spec_fmt_i32(p.x_max as int) + seq![' '] + spec_fmt_i32(p.y_max as int)
}

impl Plateau {
    /// A plateau with the given bounds, a fresh identity and the current
    /// time.
    pub fn new(x_max: i32, y_max: i32) -> (p: Self)
        ensures
            p.x_max == x_max,
            p.y_max == y_max,
            p.id@.len() == 36,
    {
        Self { id: fresh_id(), created_at: now_timestamp(), x_max, y_max }
    }

    pub fn id(&self) -> (r: &str)
        ensures
            r@ == self.id@,
    {
        self.id.as_str()
    }

    pub fn x_max(&self) -> (r: i32)
        ensures
            r == self.x_max,
    {
        self.x_max
    }

    pub fn y_max(&self) -> (r: i32)
        ensures
            r == self.y_max,
    {
        self.y_max
    }

    /// The row this plateau is stored as: the same fields, the creation
    /// timestamp included — identity and timestamp are assigned at creation
    /// only, never on storage.
    pub fn to_plateau_db(&self) -> (row: PlateauDB)
        ensures
            row.id == self.id,
            row.created_at == self.created_at,
            row.x_max == self.x_max,
            row.y_max == self.y_max,
    {
        PlateauDB {
            id: self.id.clone(),
            created_at: self.created_at,
            x_max: self.x_max,
            y_max: self.y_max,
        }
    }

    /// Reads `"x_max y_max"`, assigning a fresh identity and the current
    /// time on success. Fewer than two fields, more than two fields, or a
    /// field that is not a 32-bit decimal integer is a
    /// `CoOrdinateParseError` naming the reason.
    pub fn parse(s: &str) -> (r: Result<Plateau, Error>)
        ensures
            r is Ok <==> spec_parse_plateau(s@) is Some,
            r matches Ok(p) ==> spec_parse_plateau(s@) == Some((p.x_max as int, p.y_max as int))
                && p.id@.len() == 36,
            ({
                let toks = line_fields(s@);
                &&& (toks.len() < 2 ==> (r matches Err(e) && e matches Error::CoOrdinateParseError(
                    m,
                ) && m@ == "Y co-ordinate may be missing"@))
                &&& (toks.len() > 2 ==> (r matches Err(e) && e matches Error::CoOrdinateParseError(
                    m,
                ) && m@ == "Too many co-ordinates"@))
                &&& (toks.len() == 2 && (spec_parse_i32(toks[0]) is None || spec_parse_i32(
                    toks[1],
                ) is None) ==> (r matches Err(e) && e matches Error::CoOrdinateParseError(m)
                    && m@ == coordinate_err_msg()))
            }),
    {
        let trimmed = trim_str(s);
        let tokens = split_spaces(trimmed);
        proof {
            assert(tokens.deep_view() == line_fields(s@));
        }
        if tokens.len() < 2 {
            return Err(Error::CoOrdinateParseError(String::from_str("Y co-ordinate may be missing")));
        }
        if tokens.len() > 2 {
            return Err(Error::CoOrdinateParseError(String::from_str("Too many co-ordinates")));
        }
        proof {
            assert(tokens.deep_view()[0] == tokens@[0]@);
            assert(tokens.deep_view()[1] == tokens@[1]@);
        }
        let x_max = match parse_i32(tokens[0].as_str()) {
            Some(v) => v,
            None => {
                return Err(
                    Error::CoOrdinateParseError(
                        String::from_str("Co-ordinate can only be a non-negative integer"),
                    ),
                );
            },
        };
        let y_max = match parse_i32(tokens[1].as_str()) {
            Some(v) => v,
            None => {
                return Err(
                    Error::CoOrdinateParseError(
                        String::from_str("Co-ordinate can only be a non-negative integer"),
                    ),
                );
            },
        };
        Ok(Plateau { id: fresh_id(), created_at: now_timestamp(), x_max, y_max })
    }

    /// The canonical text `"x_max y_max"`.
    pub fn to_text(&self) -> (s: String)
        ensures
            s@ == spec_plateau_text(*self),
    {
        let mut s = fmt_i32(self.x_max);
        s.push(' ');
        let ys = fmt_i32(self.y_max);
        s.append(ys.as_str());
        proof {
            assert(s@ =~= spec_plateau_text(*self));
        }
        s
    }
}

impl PlateauDB {
    /// The plateau a stored row describes.
    pub fn to_plateau(&self) -> (p: Plateau)
        ensures
            p.id == self.id,
            p.created_at == self.created_at,
            p.x_max == self.x_max,
            p.y_max == self.y_max,
    {
        Plateau {
            id: self.id.clone(),
            created_at: self.created_at,
            x_max: self.x_max,
            y_max: self.y_max,
        }
    }
}

impl PlateauRequest {
    /// The plateau a creation request asks for, with a fresh identity and
    /// the current time.
    pub fn to_plateau(&self) -> (p: Plateau)
        ensures
            p.x_max == self.x_max,
            p.y_max == self.y_max,
            p.id@.len() == 36,
    {
        Plateau::new(self.x_max, self.y_max)
    }
}

impl Plateaus {
    /// An empty listing.
    pub fn new() -> (r: Self)
        ensures
            r.0@ == Seq::<Plateau>::empty(),
    {
        Self(Vec::new())
    }

    /// The listed plateaus, newest first.
    pub fn items(&self) -> (r: &Vec<Plateau>)
        ensures
            r == &self.0,
    {
        &self.0
    }
}

/// The plateau-bounds grammar round-trips: parsing the canonical text of any
/// plateau yields its bounds back, so formatting what was parsed from a
/// canonical line reproduces the line.
pub proof fn lemma_plateau_round_trip(p: Plateau)
    ensures
        spec_parse_plateau(spec_plateau_text(p)) == Some((p.x_max as int, p.y_max as int)),
{
    let fx = spec_fmt_i32(p.x_max as int);
    let fy = spec_fmt_i32(p.y_max as int);
    let t = spec_plateau_text(p);
    lemma_fmt_i32_shape(p.x_max as int);
    lemma_fmt_i32_shape(p.y_max as int);
    assert(t[0] == fx[0]);
    assert(t.last() == fy.last());
    lemma_trim_no_edge_space(t);
    lemma_split_no_space(fy);
    lemma_split_field(fx, fy);
    assert(t =~= fx + seq![' '] + fy);
    assert(spec_split(t) =~~= seq![fx, fy]);
    let toks = line_fields(t);
    assert(toks[0] == fx && toks[1] == fy);
    lemma_parse_fmt_i32(p.x_max);
    lemma_parse_fmt_i32(p.y_max);
}

/// On a well-formed line — one that is the canonical text of some plateau —
/// formatting the parsed bounds reproduces the line exactly.
pub proof fn lemma_plateau_format_parse(s: Seq<char>, p: Plateau)
    requires
        s == spec_plateau_text(p),
    ensures
        spec_parse_plateau(s) is Some,
        ({
            let q = spec_parse_plateau(s).unwrap();
            spec_fmt_i32(q.0) + seq![' '] + spec_fmt_i32(q.1) == s
        }),
{
    lemma_plateau_round_trip(p);
}

} // verus!

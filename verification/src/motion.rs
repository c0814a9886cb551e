//! A single rover instruction and the motion-path grammar: one character per
//! motion, `L` to turn left, `R` to turn right, `M` to move one step.

use vstd::prelude::*;
use vstd::string::StringExecFns;
use crate::error::{bad_motion_msg, Error};

verus! {

/// One discrete instruction of a motion path.
#[derive(Debug, Clone, Copy, PartialEq, Eq, Structural)]
pub enum Motion {
    TurnLeft,
    TurnRight,
    MoveStraight,
}

/// Whether `c` encodes a motion.
pub open spec fn is_motion_char(c: char) -> bool {
    c == 'L' || c == 'R' || c == 'M'
}

/// The motion encoded by `c`; meaningful only where `is_motion_char(c)`.
pub open spec fn motion_of(c: char) -> Motion {
    if c == 'L' {
        Motion::TurnLeft
    } else if c == 'R' {
        Motion::TurnRight
    } else {
        Motion::MoveStraight
    }
}

/// Whether every character of `s` encodes a motion.
pub open spec fn valid_path_chars(s: Seq<char>) -> bool {
    forall|i: int| 0 <= i < s.len() ==> is_motion_char(s[i])
}

/// The motion sequence encoded by `s`, character by character.
pub open spec fn path_of(s: Seq<char>) -> Seq<Motion> {
    Seq::new(s.len(), |i: int| motion_of(s[i]))
}

/// `i` points at the first character of `s` that encodes no motion.
pub open spec fn first_invalid_at(s: Seq<char>, i: int) -> bool {
    &&& 0 <= i < s.len()
    &&& !is_motion_char(s[i])
    &&& forall|j: int| 0 <= j < i ==> is_motion_char(s[j])
}

impl Motion {
    /// Reads a whole motion path left to right. Any character outside `L`,
    /// `R` and `M` rejects the whole path with a `MotionParseError` naming
    /// the first offending character; the empty string is the empty path.
    pub fn parse_path(s: &str) -> (r: Result<Vec<Motion>, Error>)
        ensures
            r is Ok <==> valid_path_chars(s@),
            r matches Ok(p) ==> p@ == path_of(s@),
            r matches Err(e) ==> exists|i: int|
                {
                    &&& #[trigger] first_invalid_at(s@, i)
                    &&& e matches Error::MotionParseError(m) && m@ == bad_motion_msg(s@[i])
                },
    {
        let n = s.unicode_len();
        let mut path: Vec<Motion> = Vec::new();
        let mut k: usize = 0;
        while k < n
            invariant
                n == s@.len(),
                0 <= k <= n,
                forall|j: int| 0 <= j < k ==> is_motion_char(s@[j]),
                path@ == path_of(s@.take(k as int)),
            decreases n - k,
        {
            let c = s.get_char(k);
            let m = match c {
                'L' => Some(Motion::TurnLeft),
                'R' => Some(Motion::TurnRight),
                'M' => Some(Motion::MoveStraight),
                _ => None,
            };
            match m {
                Some(motion) => {
                    path.push(motion);
                    proof {
                        assert(path@ =~= path_of(s@.take(k + 1)));
                    }
                },
                None => {
                    let mut msg = String::from_str("Invalid motion '");
                    msg.push(c);
                    msg.push('\'');
                    proof {
                        reveal_strlit("'");
                        assert("'"@ =~= seq!['\'']);
                        assert(first_invalid_at(s@, k as int));
                        assert(msg@ =~= bad_motion_msg(c));
                    }
                    return Err(Error::MotionParseError(msg));
                },
            }
            k = k + 1;
        }
        proof {
            assert(s@.take(n as int) =~= s@);
        }
        Ok(path)
    }
}

} // verus!

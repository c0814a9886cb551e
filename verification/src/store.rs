//! The persistence gateway and the orchestration over it, against an
//! in-memory model of the data store: rows are kept in insertion order,
//! which is creation order, so "newest first" is reverse row order. The
//! operations mirror what the gateway asks of the real store — insert a
//! row, load rows by id, list them newest first, overwrite a row by id —
//! and the move operation is the read-modify-write built from them.

use vstd::prelude::*;
use vstd::pervasive::VecAdditionalExecFns;
use crate::error::Error;
use crate::motion::Motion;
use crate::plateau::{Plateau, PlateauDB, Plateaus};
use crate::rover::{
    spec_apply_motions, Rover, RoverDB, Rovers,
};

verus! {

/// The store's contents: one table of plateau rows and one of rover rows,
/// each in insertion order.
pub struct Store {
    pub plateaus: Vec<PlateauDB>,
    pub rovers: Vec<RoverDB>,
}

/// The plateau a stored row describes, as a value.
pub open spec fn plateau_of_row(row: PlateauDB) -> Plateau {
    Plateau { id: row.id, created_at: row.created_at, x_max: row.x_max, y_max: row.y_max }
}

/// The rover a stored row describes, as a value.
pub open spec fn rover_of_row(row: RoverDB) -> Rover {
    Rover { id: row.id, created_at: row.created_at, x: row.x, y: row.y, facing: row.facing }
}

/// Some plateau row carries this id.
pub open spec fn has_plateau(rows: Seq<PlateauDB>, id: Seq<char>) -> bool {
    exists|i: int| 0 <= i < rows.len() && rows[i].id@ == id
}

/// `i` is the first plateau row carrying this id.
pub open spec fn first_plateau_at(rows: Seq<PlateauDB>, id: Seq<char>, i: int) -> bool {
    &&& 0 <= i < rows.len()
    &&& rows[i].id@ == id
    &&& forall|j: int| 0 <= j < i ==> rows[j].id@ != id
}

/// Some rover row carries this id under this plateau.
pub open spec fn has_rover(rows: Seq<RoverDB>, pid: Seq<char>, rid: Seq<char>) -> bool {
    exists|i: int| 0 <= i < rows.len() && rows[i].plateau_id@ == pid && rows[i].id@ == rid
}

/// `i` is the first rover row carrying this id under this plateau.
pub open spec fn first_rover_at(rows: Seq<RoverDB>, pid: Seq<char>, rid: Seq<char>, i: int) -> bool {
    &&& 0 <= i < rows.len()
    &&& rows[i].plateau_id@ == pid
    &&& rows[i].id@ == rid
    &&& forall|j: int| 0 <= j < i ==> !(rows[j].plateau_id@ == pid && rows[j].id@ == rid)
}

/// The rover rows of one plateau, newest first: reading the table from the
/// back, every row whose `plateau_id` matches.
pub open spec fn rover_listing(rows: Seq<RoverDB>, pid: Seq<char>) -> Seq<RoverDB>
    decreases rows.len(),
{
    if rows.len() == 0 {
        Seq::<RoverDB>::empty()
    } else if rows.last().plateau_id@ == pid {
        seq![rows.last()] + rover_listing(rows.drop_last(), pid)
    } else {
        rover_listing(rows.drop_last(), pid)
    }
}

/// The plateau rows, newest first.
pub open spec fn plateau_listing(rows: Seq<PlateauDB>) -> Seq<PlateauDB>
    decreases rows.len(),
{
    if rows.len() == 0 {
        Seq::<PlateauDB>::empty()
    } else {
        seq![rows.last()] + plateau_listing(rows.drop_last())
    }
}

/// How many entries a listing with limit `total` returns out of `len`
/// available: at most `total`, with a negative limit meaning no limit, as
/// the store's `LIMIT` clause has it.
pub open spec fn limited(total: int, len: int) -> int {
    if total < 0 || total > len {
        len
    } else {
        total
    }
}

/// What the store's update by rover id leaves: every row carrying the id
/// replaced by the written row, every other row untouched.
pub open spec fn overwrite_rover_rows(rows: Seq<RoverDB>, rid: Seq<char>, row: RoverDB) -> Seq<
    RoverDB,
> {
    Seq::new(
        rows.len(),
        |k: int|
            if rows[k].id@ == rid {
                row
            } else {
                rows[k]
            },
    )
}

impl Store {
    /// An empty store.
    pub fn new() -> (s: Store)
        ensures
            s.plateaus@ == Seq::<PlateauDB>::empty(),
            s.rovers@ == Seq::<RoverDB>::empty(),
    {
        Store { plateaus: Vec::new(), rovers: Vec::new() }
    }
}

impl PlateauDB {
    /// A field-for-field copy of the row.
    pub fn duplicate(&self) -> (r: PlateauDB)
        ensures
            r == *self,
    {
        PlateauDB {
            id: self.id.clone(),
            created_at: self.created_at,
            x_max: self.x_max,
            y_max: self.y_max,
        }
    }
}

impl RoverDB {
    /// A field-for-field copy of the row.
    pub fn duplicate(&self) -> (r: RoverDB)
        ensures
            r == *self,
    {
        RoverDB {
            id: self.id.clone(),
            created_at: self.created_at,
            x: self.x,
            y: self.y,
            facing: self.facing,
            plateau_id: self.plateau_id.clone(),
        }
    }
}

/// Loads the plateau with this id; `NotFound` if no row carries it. The
/// first matching row decides, as a keyed load from the store does.
pub fn get_plateau(plateau_id: &String, store: &Store) -> (r: Result<Plateau, Error>)
    ensures
        r is Ok <==> has_plateau(store.plateaus@, plateau_id@),
        r matches Ok(p) ==> exists|i: int|
            #[trigger] first_plateau_at(store.plateaus@, plateau_id@, i) && p == plateau_of_row(
                store.plateaus@[i],
            ),
        r is Err ==> r == Err::<Plateau, Error>(Error::NotFound),
{
    let n = store.plateaus.len();
    let mut k: usize = 0;
    while k < n
        invariant
            n == store.plateaus@.len(),
            0 <= k <= n,
            forall|j: int| 0 <= j < k ==> store.plateaus@[j].id@ != plateau_id@,
        decreases n - k,
    {
        if store.plateaus[k].id == *plateau_id {
            let p = store.plateaus[k].to_plateau();
            proof {
                assert(first_plateau_at(store.plateaus@, plateau_id@, k as int));
            }
            return Ok(p);
        }
        k = k + 1;
    }
    Err(Error::NotFound)
}

/// Loads the rover with this id belonging to this plateau; `NotFound` if no
/// row matches both. The first matching row decides.
pub fn get_rover(plateau_id: &String, rover_id: &String, store: &Store) -> (r: Result<Rover, Error>)
    ensures
        r is Ok <==> has_rover(store.rovers@, plateau_id@, rover_id@),
        r matches Ok(v) ==> exists|i: int|
            #[trigger] first_rover_at(store.rovers@, plateau_id@, rover_id@, i) && v
                == rover_of_row(store.rovers@[i]),
        r is Err ==> r == Err::<Rover, Error>(Error::NotFound),
{
    let n = store.rovers.len();
    let mut k: usize = 0;
    while k < n
        invariant
            n == store.rovers@.len(),
            0 <= k <= n,
            forall|j: int| 0 <= j < k ==> !(store.rovers@[j].plateau_id@ == plateau_id@
                && store.rovers@[j].id@ == rover_id@),
        decreases n - k,
    {
        if store.rovers[k].plateau_id == *plateau_id && store.rovers[k].id == *rover_id {
            let v = store.rovers[k].to_rover();
            proof {
                assert(first_rover_at(store.rovers@, plateau_id@, rover_id@, k as int));
            }
            return Ok(v);
        }
        k = k + 1;
    }
    Err(Error::NotFound)
}

/// Stores a new plateau row and returns the plateau as stored: exactly one
/// new row, carrying the plateau's fields unchanged — identity and creation
/// timestamp were assigned once, at creation — and no other row touched.
pub fn create_plateau(plateau: Plateau, store: &mut Store) -> (r: Result<Plateau, Error>)
    ensures
        final(store).rovers == old(store).rovers,
        final(store).plateaus@.len() == old(store).plateaus@.len() + 1,
        final(store).plateaus@.drop_last() == old(store).plateaus@,
        final(store).plateaus@.last() == (PlateauDB {
            id: plateau.id,
            created_at: plateau.created_at,
            x_max: plateau.x_max,
            y_max: plateau.y_max,
        }),
        r == Ok::<Plateau, Error>(plateau),
{
    let row = plateau.to_plateau_db();
    let stored = row.to_plateau();
    store.plateaus.push(row);
    proof {
        assert(final(store).plateaus@.drop_last() =~= old(store).plateaus@);
    }
    Ok(stored)
}

/// Stores a new rover row under this plateau and returns the rover as
/// stored: exactly one new row, carrying the rover's fields unchanged —
/// identity and creation timestamp were assigned once, at creation — bound
/// to the plateau, and no other row touched.
pub fn create_rover(plateau_id: &String, rover: Rover, store: &mut Store) -> (r: Result<
    Rover,
    Error,
>)
    ensures
        final(store).plateaus == old(store).plateaus,
        final(store).rovers@.len() == old(store).rovers@.len() + 1,
        final(store).rovers@.drop_last() == old(store).rovers@,
        final(store).rovers@.last() == (RoverDB {
            id: rover.id,
            created_at: rover.created_at,
            x: rover.x,
            y: rover.y,
            facing: rover.facing,
            plateau_id: *plateau_id,
        }),
        r == Ok::<Rover, Error>(rover),
{
    let row = rover.to_rover_db(plateau_id.clone());
    let stored = row.to_rover();
    store.rovers.push(row);
    proof {
        assert(final(store).rovers@.drop_last() =~= old(store).rovers@);
    }
    Ok(stored)
}

/// Lists up to `total_plateaus` plateaus, newest first.
pub fn list_plateaus(total_plateaus: i64, store: &Store) -> (r: Result<Plateaus, Error>)
    ensures
        r matches Ok(ps) && ({
            let listing = plateau_listing(store.plateaus@);
            &&& ps.0@.len() == limited(total_plateaus as int, listing.len() as int)
            &&& forall|i: int| 0 <= i < ps.0@.len() ==> ps.0@[i] == plateau_of_row(#[trigger] listing[i])
        }),
{
    let n = store.plateaus.len();
    let mut out: Vec<Plateau> = Vec::new();
    proof {
        lemma_plateau_listing_len(store.plateaus@);
        assert(store.plateaus@.take(n as int) =~= store.plateaus@);
        assert(plateau_listing(store.plateaus@).skip(0) =~= plateau_listing(store.plateaus@));
    }
    let mut k: usize = n;
    while k > 0
        invariant
            n == store.plateaus@.len(),
            0 <= k <= n,
            out@.len() == n - k,
            plateau_listing(store.plateaus@).len() == n,
            forall|i: int| 0 <= i < out@.len() ==> out@[i] == plateau_of_row(
                #[trigger] plateau_listing(store.plateaus@)[i],
            ),
            plateau_listing(store.plateaus@.take(k as int)) == plateau_listing(
                store.plateaus@,
            ).skip(n - k),
        decreases k,
    {
        let ghost pre = store.plateaus@.take(k as int);
        proof {
            assert(pre.last() == store.plateaus@[k - 1]);
            assert(pre.drop_last() =~= store.plateaus@.take(k - 1));
            assert(plateau_listing(pre) == seq![store.plateaus@[k - 1]] + plateau_listing(
                store.plateaus@.take(k - 1),
            ));
            assert(plateau_listing(pre)[0] == store.plateaus@[k - 1]);
            assert(plateau_listing(store.plateaus@).skip(n - k)[0] == plateau_listing(
                store.plateaus@,
            )[n - k]);
            assert(plateau_listing(store.plateaus@).skip(n - k).skip(1) =~= plateau_listing(
                store.plateaus@,
            ).skip(n - k + 1));
            assert(plateau_listing(pre).skip(1) =~= plateau_listing(store.plateaus@.take(k - 1)));
            assert(plateau_listing(store.plateaus@.take(k - 1)) =~= plateau_listing(
                store.plateaus@,
            ).skip(n - (k - 1)));
        }
        k = k - 1;
        out.push(store.plateaus[k].to_plateau());
        proof {
            assert(plateau_listing(store.plateaus@)[n - k - 1] == store.plateaus@[k as int]);
        }
    }
    proof {
        assert(store.plateaus@.take(0) =~= Seq::<PlateauDB>::empty());
        lemma_plateau_listing_len(store.plateaus@);
    }
    let limit: usize = if total_plateaus < 0 {
        n
    } else if total_plateaus as u64 >= n as u64 {
        n
    } else {
        total_plateaus as usize
    };
    let mut shown: Vec<Plateau> = Vec::new();
    let mut i: usize = 0;
    while i < limit
        invariant
            limit <= out@.len(),
            0 <= i <= limit,
            shown@ =~= out@.take(i as int),
        decreases limit - i,
    {
        let p = out[i].id.clone();
        let item = Plateau {
            id: p,
            created_at: out[i].created_at,
            x_max: out[i].x_max,
            y_max: out[i].y_max,
        };
        shown.push(item);
        proof {
            assert(item == out@[i as int]);
            assert(shown@ =~= out@.take(i + 1));
        }
        i = i + 1;
    }
    proof {
        assert(shown@.len() == limited(total_plateaus as int, plateau_listing(
            store.plateaus@,
        ).len() as int));
    }
    Ok(Plateaus(shown))
}

/// Every plateau row appears once in the listing.
pub proof fn lemma_plateau_listing_len(rows: Seq<PlateauDB>)
    ensures
        plateau_listing(rows).len() == rows.len(),
    decreases rows.len(),
{
    if rows.len() > 0 {
        lemma_plateau_listing_len(rows.drop_last());
    }
}

/// The rover rows of this plateau, newest first, as values.
fn collect_rovers(plateau_id: &String, store: &Store) -> (out: Vec<Rover>)
    ensures
        out@.len() == rover_listing(store.rovers@, plateau_id@).len(),
        forall|i: int| 0 <= i < out@.len() ==> out@[i] == rover_of_row(
            #[trigger] rover_listing(store.rovers@, plateau_id@)[i],
        ),
{
    let n = store.rovers.len();
    let ghost listing = rover_listing(store.rovers@, plateau_id@);
    let mut out: Vec<Rover> = Vec::new();
    proof {
        assert(store.rovers@.take(n as int) =~= store.rovers@);
        assert(listing.skip(0) =~= listing);
    }
    let mut k: usize = n;
    while k > 0
        invariant
            n == store.rovers@.len(),
            0 <= k <= n,
            listing == rover_listing(store.rovers@, plateau_id@),
            out@.len() + rover_listing(store.rovers@.take(k as int), plateau_id@).len()
                == listing.len(),
            forall|i: int| 0 <= i < out@.len() ==> out@[i] == rover_of_row(#[trigger] listing[i]),
            rover_listing(store.rovers@.take(k as int), plateau_id@) == listing.skip(
                out@.len() as int,
            ),
        decreases k,
    {
        let ghost pre = store.rovers@.take(k as int);
        proof {
            assert(pre.last() == store.rovers@[k - 1]);
            assert(pre.drop_last() =~= store.rovers@.take(k - 1));
        }
        k = k - 1;
        if store.rovers[k].plateau_id == *plateau_id {
            proof {
                assert(rover_listing(pre, plateau_id@) == seq![store.rovers@[k as int]]
                    + rover_listing(store.rovers@.take(k as int), plateau_id@));
                assert(rover_listing(pre, plateau_id@)[0] == store.rovers@[k as int]);
                assert(listing.skip(out@.len() as int)[0] == listing[out@.len() as int]);
                assert(listing.skip(out@.len() as int).skip(1) =~= listing.skip(
                    out@.len() as int + 1,
                ));
                assert(rover_listing(pre, plateau_id@).skip(1) =~= rover_listing(
                    store.rovers@.take(k as int),
                    plateau_id@,
                ));
                assert(rover_listing(store.rovers@.take(k as int), plateau_id@) =~= listing.skip(
                    out@.len() as int + 1,
                ));
            }
            out.push(store.rovers[k].to_rover());
        } else {
            proof {
                assert(rover_listing(pre, plateau_id@) == rover_listing(
                    store.rovers@.take(k as int),
                    plateau_id@,
                ));
            }
        }
    }
    proof {
        assert(store.rovers@.take(0) =~= Seq::<RoverDB>::empty());
        assert(listing.skip(out@.len() as int).len() == 0);
    }
    out
}

/// Lists up to `total_rovers` rovers of this plateau, newest first.
pub fn list_rovers(plateau_id: &String, total_rovers: i64, store: &Store) -> (r: Result<
    Rovers,
    Error,
>)
    ensures
        r matches Ok(vs) && ({
            let listing = rover_listing(store.rovers@, plateau_id@);
            &&& vs.0@.len() == limited(total_rovers as int, listing.len() as int)
            &&& forall|i: int| 0 <= i < vs.0@.len() ==> vs.0@[i] == rover_of_row(#[trigger] listing[i])
        }),
{
    let all = collect_rovers(plateau_id, store);
    let n = all.len();
    let limit: usize = if total_rovers < 0 {
        n
    } else if total_rovers as u64 >= n as u64 {
        n
    } else {
        total_rovers as usize
    };
    let mut shown: Vec<Rover> = Vec::new();
    let mut i: usize = 0;
    while i < limit
        invariant
            limit <= all@.len(),
            0 <= i <= limit,
            shown@ =~= all@.take(i as int),
        decreases limit - i,
    {
        let item = Rover {
            id: all[i].id.clone(),
            created_at: all[i].created_at,
            x: all[i].x,
            y: all[i].y,
            facing: all[i].facing,
        };
        shown.push(item);
        proof {
            assert(item == all@[i as int]);
            assert(shown@ =~= all@.take(i + 1));
        }
        i = i + 1;
    }
    Ok(Rovers(shown))
}

/// The `n`th rover of this plateau, newest first; `NotFound` past the end
/// or for a negative index. Used to resume a session against a previously
/// created plateau.
pub fn get_rover_n(n: i64, plateau_id: &String, store: &Store) -> (r: Result<Rover, Error>)
    ensures
        ({
            let listing = rover_listing(store.rovers@, plateau_id@);
            &&& (r is Ok <==> 0 <= n < listing.len())
            &&& (r matches Ok(v) ==> v == rover_of_row(listing[n as int]))
            &&& (r is Err ==> r == Err::<Rover, Error>(Error::NotFound))
        }),
{
    let all = collect_rovers(plateau_id, store);
    if n < 0 {
        return Err(Error::NotFound);
    }
    if n as u64 >= all.len() as u64 {
        return Err(Error::NotFound);
    }
    let idx: usize = n as usize;
    let v = Rover {
        id: all[idx].id.clone(),
        created_at: all[idx].created_at,
        x: all[idx].x,
        y: all[idx].y,
        facing: all[idx].facing,
    };
    proof {
        assert(v == all@[idx as int]);
    }
    Ok(v)
}

/// How many rovers this plateau holds; the CLI stops prompting when the
/// resumed session has walked them all.
pub fn get_rovers_count(plateau_id: &String, store: &Store) -> (r: Result<usize, Error>)
    ensures
        r matches Ok(c) && c == rover_listing(store.rovers@, plateau_id@).len(),
{
    let all = collect_rovers(plateau_id, store);
    Ok(all.len())
}

/// The move operation: loads the rover and its plateau, applies the whole
/// motion path with clamping, overwrites the rover's row, and returns the
/// rover as updated. `NotFound` if either id is absent, in which case the
/// store is untouched — existence is checked by loading, never inferred
/// from the overwrite, which touches no row when none matches.
///
/// This read-modify-write has no isolation: two concurrent calls against
/// the same rover id may both load the prior state and the later overwrite
/// wins, discarding the other's motions whole (see
/// `lemma_concurrent_moves_last_write_wins`).
pub fn move_rover(
    plateau_id: &String,
    rover_id: &String,
    motion_vector: Vec<Motion>,
    store: &mut Store,
) -> (r: Result<Rover, Error>)
    ensures
        r is Ok <==> has_rover(old(store).rovers@, plateau_id@, rover_id@) && has_plateau(
            old(store).plateaus@,
            plateau_id@,
        ),
        r is Err ==> r == Err::<Rover, Error>(Error::NotFound) && *final(store) == *old(store),
        final(store).plateaus == old(store).plateaus,
        final(store).rovers@.len() == old(store).rovers@.len(),
        r matches Ok(v) ==> exists|i: int, j: int|
            {
                &&& #[trigger] first_rover_at(old(store).rovers@, plateau_id@, rover_id@, i)
                &&& #[trigger] first_plateau_at(old(store).plateaus@, plateau_id@, j)
                &&& v == spec_apply_motions(
                    rover_of_row(old(store).rovers@[i]),
                    motion_vector@,
                    plateau_of_row(old(store).plateaus@[j]),
                )
            },
        r matches Ok(v) ==> exists|row: RoverDB|
            {
                &&& final(store).rovers@ == #[trigger] overwrite_rover_rows(
                    old(store).rovers@,
                    rover_id@,
                    row,
                )
                &&& row.id@ == rover_id@
                &&& row.plateau_id@ == plateau_id@
                &&& row.created_at == v.created_at
                &&& row.x == v.x
                &&& row.y == v.y
                &&& row.facing == v.facing
            },
{
    let rover_res = get_rover(plateau_id, rover_id, store);
    let plateau_res = get_plateau(plateau_id, store);
    match plateau_res {
        Ok(plateau) => match rover_res {
            Ok(mut rover) => {
                let ghost loaded = rover;
                proof {
                    let i = choose|i: int|
                        #[trigger] first_rover_at(old(store).rovers@, plateau_id@, rover_id@, i)
                            && loaded == rover_of_row(old(store).rovers@[i]);
                    assert(loaded.id@ == rover_id@);
                }
                rover.apply_motion_vector(motion_vector, &plateau);
                proof {
                    crate::rover::lemma_apply_motions_frame(loaded, motion_vector@, plateau);
                }
                let new_row = rover.to_rover_db(plateau_id.clone());
                let m = store.rovers.len();
                let mut k: usize = 0;
                while k < m
                    invariant
                        m == store.rovers@.len(),
                        0 <= k <= m,
                        store.plateaus == old(store).plateaus,
                        new_row.id == rover.id,
                        new_row.created_at == rover.created_at,
                        new_row.x == rover.x,
                        new_row.y == rover.y,
                        new_row.facing == rover.facing,
                        new_row.plateau_id@ == plateau_id@,
                        rover.id@ == rover_id@,
                        forall|j: int| k <= j < m ==> #[trigger] store.rovers@[j] == old(
                            store,
                        ).rovers@[j],
                        forall|j: int| 0 <= j < k && (#[trigger] old(store).rovers@[j]).id@
                            == rover_id@ ==> store.rovers@[j] == new_row,
                        forall|j: int| 0 <= j < k && (#[trigger] old(store).rovers@[j]).id@
                            != rover_id@ ==> store.rovers@[j] == old(store).rovers@[j],
                    decreases m - k,
                {
                    if store.rovers[k].id == *rover_id {
                        store.rovers.set(k, new_row.duplicate());
                    }
                    k = k + 1;
                }
                proof {
                    assert(store.rovers@ =~= overwrite_rover_rows(
                        old(store).rovers@,
                        rover_id@,
                        new_row,
                    ));
                }
                Ok(rover)
            },
            Err(_) => Err(Error::NotFound),
        },
        Err(_) => Err(Error::NotFound),
    }
}

/// The documented race, made explicit. Two move requests for the same rover
/// id race when both load the same prior rows and each computes its own
/// written row from that common state (`move_rover`'s contract fixes each
/// write as `overwrite_rover_rows` with one such row). Landing the two
/// writes in turn leaves exactly the rows that the second write alone
/// leaves: the first update is lost whole, and the store never holds a
/// mixture of the two — the final rows are those of a single serialized
/// move applying only the later motion vector. (A redesign that serialises
/// the two would instead compose them: `crate::rover::lemma_apply_motions_append`.)
pub proof fn lemma_concurrent_moves_last_write_wins(
    rows: Seq<RoverDB>,
    rid: Seq<char>,
    first_write: RoverDB,
    second_write: RoverDB,
)
    requires
        first_write.id@ == rid,
    ensures
        overwrite_rover_rows(overwrite_rover_rows(rows, rid, first_write), rid, second_write)
            == overwrite_rover_rows(rows, rid, second_write),
{
    let once = overwrite_rover_rows(rows, rid, second_write);
    let twice = overwrite_rover_rows(
        overwrite_rover_rows(rows, rid, first_write),
        rid,
        second_write,
    );
    assert forall|k: int| 0 <= k < rows.len() implies twice[k] == once[k] by {
        assert(overwrite_rover_rows(rows, rid, first_write)[k] == if rows[k].id@ == rid {
            first_write
        } else {
            rows[k]
        });
    }
    assert(twice =~= once);
}

} // verus!

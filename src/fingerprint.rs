use crate::walk::{walk, walk_outcome};
use vstd::prelude::*;

verus! {

/// Rows of the large grid, drawn by the box renderer.
pub const BISHOP_ROWS: usize = 9;

/// Columns of the large grid.
pub const BISHOP_COLS: usize = 17;

/// Rows of the small grid, drawn by the template renderer.
pub const CROW_ROWS: usize = 3;

/// Columns of the small grid.
pub const CROW_COLS: usize = 5;

/// The SHA-256 digest of a byte sequence.
pub uninterp spec fn sha256_of(data: Seq<u8>) -> Seq<u8>;

/// Relies on sha2's `Sha256::digest`: the 32-byte digest of `data`, which
/// depends on those bytes alone.
#[verifier::external_body]
fn sha256(data: &[u8]) -> (r: Vec<u8>)
    ensures
        r@ == sha256_of(data@),
        r@.len() == 32,
{
    <sha2::Sha256 as sha2::Digest>::digest(data).to_vec()
}

/// The walk over the large grid, seeded by the SHA-256 digest of `data`.
pub fn generate_drunken_bishop_grid(data: &[u8]) -> (res: (
    Vec<Vec<u8>>,
    (usize, usize),
    (usize, usize),
))
    ensures
        walk_outcome(
            sha256_of(data@),
            BISHOP_ROWS as int,
            BISHOP_COLS as int,
            res.0@,
            res.1,
            res.2,
        ),
{
    let fingerprint = sha256(data);
    walk(fingerprint.as_slice(), BISHOP_ROWS, BISHOP_COLS)
}

/// The walk over the small grid, seeded by the SHA-256 digest of `data`.
pub fn generate_drunken_crow_grid(data: &[u8]) -> (res: (
    Vec<Vec<u8>>,
    (usize, usize),
    (usize, usize),
))
    ensures
        walk_outcome(sha256_of(data@), CROW_ROWS as int, CROW_COLS as int, res.0@, res.1, res.2),
{
    let fingerprint = sha256(data);
    walk(fingerprint.as_slice(), CROW_ROWS, CROW_COLS)
}

} // verus!

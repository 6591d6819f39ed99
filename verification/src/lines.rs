use vstd::prelude::*;

verus! {

/// Which component of a line a plot series shows: the real part, or the
/// imaginary part (with the all-zero imaginary case kept apart).
#[derive(Debug, PartialEq, Eq, Structural, Clone, Copy)]
pub enum LineReal {
    Real,
    Imag { zero: bool },
}

/// What a plot line stands for: an acceleration output, a partial sum,
/// or a series limit.
#[derive(Debug, PartialEq, Eq, Structural, Clone, Copy)]
pub enum LineKind {
    Accel,
    PartialSum,
    Limit,
}

/// Number of distinct line classes.
pub const TOTAL_VIS: usize = 9;

/// The index a line class maps to.
pub open spec fn spec_vtoind(part: LineReal, kind: LineKind) -> int {
    match (part, kind) {
        (LineReal::Real, LineKind::Accel) => 0,
        (LineReal::Imag { zero: false }, LineKind::Accel) => 1,
        (LineReal::Imag { zero: true }, LineKind::Accel) => 2,
        (LineReal::Real, LineKind::PartialSum) => 3,
        (LineReal::Imag { zero: false }, LineKind::PartialSum) => 4,
        (LineReal::Imag { zero: true }, LineKind::PartialSum) => 5,
        (LineReal::Real, LineKind::Limit) => 6,
        (LineReal::Imag { zero: false }, LineKind::Limit) => 7,
        (LineReal::Imag { zero: true }, LineKind::Limit) => 8,
    }
}

/// Map a line class to its visibility-table index.
pub fn vtoind(part: LineReal, kind: LineKind) -> (r: usize)
    ensures
        r == spec_vtoind(part, kind),
        r < TOTAL_VIS,
{
    match (part, kind) {
        (LineReal::Real, LineKind::Accel) => 0,
        (LineReal::Imag { zero: false }, LineKind::Accel) => 1,
        (LineReal::Imag { zero: true }, LineKind::Accel) => 2,
        (LineReal::Real, LineKind::PartialSum) => 3,
        (LineReal::Imag { zero: false }, LineKind::PartialSum) => 4,
        (LineReal::Imag { zero: true }, LineKind::PartialSum) => 5,
        (LineReal::Real, LineKind::Limit) => 6,
        (LineReal::Imag { zero: false }, LineKind::Limit) => 7,
        (LineReal::Imag { zero: true }, LineKind::Limit) => 8,
    }
}

/// Map a visibility-table index back to its line class; indices past the
/// table yield nothing.
pub fn indtov(i: usize) -> (r: Option<(LineReal, LineKind)>)
    ensures
        i < TOTAL_VIS ==> (r matches Some(p) && spec_vtoind(p.0, p.1) == i),
        i >= TOTAL_VIS ==> r is None,
{
    match i {
        0 => Some((LineReal::Real, LineKind::Accel)),
        1 => Some((LineReal::Imag { zero: false }, LineKind::Accel)),
        2 => Some((LineReal::Imag { zero: true }, LineKind::Accel)),
        3 => Some((LineReal::Real, LineKind::PartialSum)),
        4 => Some((LineReal::Imag { zero: false }, LineKind::PartialSum)),
        5 => Some((LineReal::Imag { zero: true }, LineKind::PartialSum)),
        6 => Some((LineReal::Real, LineKind::Limit)),
        7 => Some((LineReal::Imag { zero: false }, LineKind::Limit)),
        8 => Some((LineReal::Imag { zero: true }, LineKind::Limit)),
        _ => None,
    }
}

/// The two index maps invert each other: every line class survives a trip
/// through its index.
pub proof fn lemma_line_index_roundtrip(part: LineReal, kind: LineKind)
    ensures
        0 <= spec_vtoind(part, kind) < TOTAL_VIS,
        forall|r2: LineReal, k2: LineKind|
            spec_vtoind(r2, k2) == spec_vtoind(part, kind) ==> r2 == part && k2 == kind,
{
}

} // verus!

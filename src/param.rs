//! Layout of the landmark model's parameter vector: a 3x4 affine block
//! (rotation and translation, row-major), then shape coefficients, then
//! expression coefficients.
use vstd::prelude::*;

verus! {

/// Parameter vector lengths that have a known layout.
pub open spec fn known_param_len(n: int) -> bool {
    n == 62 || n == 72 || n == 141
}

/// Number of shape coefficients in a parameter vector of length `n`.
pub open spec fn shape_dim(n: int) -> int {
    if n == 141 {
        100
    } else {
        40
    }
}

/// Length of the affine block at the start of every parameter vector.
pub const AFFINE_DIM: usize = 12;

/// A parameter vector whose length has no known layout.
#[derive(Clone, Copy, Debug, PartialEq, Eq, Structural)]
pub enum ParamError {
    UnknownLength,
}

/// The four parts of a parameter vector.
pub type ParamParts<T> = ([[T; 3]; 3], [[T; 1]; 3], [[T; 1]; 40], [[T; 1]; 10]);

/// Splits a parameter vector into the rotation block `R` (3x3), the
/// translation column (3x1), the 40 shape coefficients and the 10 expression
/// coefficients (each as a column). Lengths 62, 72 and 141 have a layout; any
/// other length is an error.
pub fn parse_param<T: Copy>(param: &[T]) -> (r: Result<ParamParts<T>, ParamError>)
    ensures
        r is Err <==> !known_param_len(param@.len() as int),
        r is Err ==> r == Err::<ParamParts<T>, ParamError>(ParamError::UnknownLength),
        r matches Ok(p) ==> {
            &&& forall|i: int, j: int| 0 <= i < 3 && 0 <= j < 3 ==> #[trigger] p.0[i][j] == param@[4 * i + j]
            &&& forall|i: int| 0 <= i < 3 ==> #[trigger] p.1[i][0] == param@[4 * i + 3]
            &&& forall|k: int| 0 <= k < 40 ==> #[trigger] p.2[k][0] == param@[AFFINE_DIM + k]
            &&& forall|k: int|
                0 <= k < 10 ==> #[trigger] p.3[k][0] == param@[AFFINE_DIM + shape_dim(param@.len() as int) + k]
        },
{
    let n = param.len();
    if n != 62 && n != 72 && n != 141 {
        return Err(ParamError::UnknownLength);
    }
    let shape: usize = if n == 141 { 100 } else { 40 };
    let rot = [
        [param[0], param[1], param[2]],
        [param[4], param[5], param[6]],
        [param[8], param[9], param[10]],
    ];
    let offset = [[param[3]], [param[7]], [param[11]]];
    let mut alpha_shp: [[T; 1]; 40] = [[param[AFFINE_DIM]]; 40];
    let mut i: usize = 0;
    while i < 40
        invariant
            i <= 40,
            param@.len() == n,
            known_param_len(n as int),
            forall|k: int| 0 <= k < i ==> #[trigger] alpha_shp[k][0] == param@[AFFINE_DIM + k],
        decreases 40 - i,
    {
        alpha_shp[i] = [param[AFFINE_DIM + i]];
        i = i + 1;
    }
    let mut alpha_exp: [[T; 1]; 10] = [[param[AFFINE_DIM]]; 10];
    let mut e: usize = 0;
    while e < 10
        invariant
            e <= 10,
            param@.len() == n,
            known_param_len(n as int),
            shape == shape_dim(n as int),
            forall|k: int| 0 <= k < e ==> #[trigger] alpha_exp[k][0] == param@[AFFINE_DIM + shape + k],
        decreases 10 - e,
    {
        alpha_exp[e] = [param[AFFINE_DIM + shape + e]];
        e = e + 1;
    }
    Ok((rot, offset, alpha_shp, alpha_exp))
}

} // verus!

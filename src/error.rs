//! Configuration errors reported when a generator is built.
use vstd::prelude::*;

verus! {

/// Why a generator could not be built.
#[derive(Debug, Clone, Copy, PartialEq, Eq, Structural)]
pub enum SobolError {
    /// More dimensions were asked for than the parameter source supports.
    MaxDim { dims: usize, max_dims: usize },
    /// The render policy supports a fixed number of dimensions, and it differs.
    RenderDim { dims: usize, render_dims: usize },
}

/// The outcome of validating a requested dimensionality.
pub open spec fn dims_outcome(dims: nat, max_dims: nat, render_dims: Option<usize>) -> Result<
    (),
    SobolError,
> {
    if dims > max_dims {
        Err(SobolError::MaxDim { dims: dims as usize, max_dims: max_dims as usize })
    } else if render_dims.is_some() && render_dims.unwrap() as nat != dims {
        Err(SobolError::RenderDim { dims: dims as usize, render_dims: render_dims.unwrap() })
    } else {
        Ok(())
    }
}

impl SobolError {
    /// A sentence describing the error.
    pub fn message(&self) -> String {
        match self {
            SobolError::MaxDim { dims, max_dims } => format_max_dim(*dims, *max_dims),
            SobolError::RenderDim { dims, render_dims } => format_render_dim(*dims, *render_dims),
        }
    }
}

/// Relies on std's `format!` to render the two counts in decimal.
#[verifier::external_body]
fn format_max_dim(dims: usize, max_dims: usize) -> String {
    format!(
        "Sobol sequence supports a maximum of {max_dims} dimensions, but was configured for {dims}."
    )
}

/// Relies on std's `format!` to render the two counts in decimal.
#[verifier::external_body]
fn format_render_dim(dims: usize, render_dims: usize) -> String {
    format!("Render supports a {render_dims} dimensions, but Sobol was configured for {dims}.")
}

/// Checks a requested dimensionality against the parameter source's limit and,
/// when the render policy declares one, against the render's dimensionality.
pub fn check_dims(dims: usize, max_dims: usize, render_dims: Option<usize>) -> (r: Result<
    (),
    SobolError,
>)
    ensures
        r == dims_outcome(dims as nat, max_dims as nat, render_dims),
{
    if dims > max_dims {
        return Err(SobolError::MaxDim { dims, max_dims });
    }
    match render_dims {
        Some(rd) => {
            if dims != rd {
                Err(SobolError::RenderDim { dims, render_dims: rd })
            } else {
                Ok(())
            }
        },
        None => Ok(()),
    }
}

} // verus!

use vstd::prelude::*;

verus! {

/// Why a generation run failed.
#[derive(Debug, Clone, Copy, PartialEq, Eq, Structural)]
pub enum Error {
    /// No approximation could be fitted for the requested terms, domain and parity.
    FitFailure,
    /// A literal cannot be represented in the requested number type.
    QuantizationFailure,
    /// The target language is not one the library can emit.
    UnsupportedLanguage,
    /// A backend met a node that it cannot render.
    UnsupportedNode,
}

} // verus!

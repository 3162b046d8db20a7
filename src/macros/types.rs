use vstd::prelude::*;

verus! {

/// What a procedural TeX macro receives.
pub struct TexMacroCtx {}

/// What a procedural TeX macro produces.
pub struct TexMacroResult {}

/// A procedural TeX macro: its handler `fun`, a function from `TexMacroCtx` to
/// `TexMacroResult`, and the control-sequence names it answers to.
pub struct TexMacro<F> {
    pub fun: F,
    pub names: &'static [&'static str],
}

} // verus!

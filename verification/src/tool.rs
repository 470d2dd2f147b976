//! The interfaces of tools.
use vstd::prelude::*;

verus! {

/// A tool that takes an input and gives an output, or an error message.
pub trait ToolTrait {
    type Input;
    type Output;

    fn call(&self, input: Self::Input) -> Result<Self::Output, String>;
}

/// A tool's description, as shown to the model.
pub trait Description {
    fn description() -> &'static str;
}

} // verus!

use vstd::prelude::*;

verus! {

/// The failures that end the reading of a scene description. None of them is
/// recovered from: the state that directives build is cumulative, so a
/// skipped directive would corrupt what follows it.
#[derive(Clone, Copy, Debug, PartialEq, Eq, Structural)]
pub enum SceneError {
    /// The text does not follow the grammar; `position` is the byte offset
    /// of the first token that cannot be accepted.
    ParseError { position: usize },
    /// A parameter declares a type that is not one of the seven known ones.
    UnknownParamType,
    /// A parameter or a transform directive has the wrong number of values.
    ArityError,
    /// A scope is closed that was never opened.
    StackUnderflow,
    /// A directive stands in a phase that does not allow it.
    IllegalDirectiveInScope,
    /// A named material or a texture is referred to that is not bound.
    UndefinedReference,
    /// The renderer knows no object of the given name.
    UnknownObjectName,
}

} // verus!

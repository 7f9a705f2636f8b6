use vstd::prelude::*;

verus! {

/// Every failure that parsing, resolution or evaluation can report.
///
/// Errors are ordinary values: evaluation never aborts the host. The first
/// error met anywhere in a sub-evaluation travels up to the caller unchanged.
#[derive(Clone, Copy, Debug, PartialEq, Eq, Structural)]
pub enum Error {
    /// A symbol was looked up in the data stack and is not bound there.
    DataNotFound,
    /// A builtin was registered twice under one name.
    DuplicateSymbol,
    /// A vector or list was empty where an element was needed.
    Empty,
    /// The head of a call form names neither a builtin nor a function value.
    ExpectedFunction,
    /// Source text did not begin a list.
    ExpectedList,
    /// A symbol was required, for instance as a binding name.
    ExpectedSymbol,
    /// A vector was required.
    ExpectedVector,
    /// A value of one variant was converted to an incompatible variant.
    ImpossibleConversion,
    /// Text remained after the top-level list closed.
    IncompleteTokenization,
    /// Integer overflow, underflow, or division or remainder by zero.
    MathError,
    /// A nested form closed with the wrong delimiter.
    MismatchedDelimiter,
    /// The frame stack was in a state no operation should reach, or the
    /// recursion depth bound of evaluation was exhausted.
    StackError,
    /// A call supplied fewer arguments than the parameter spec names.
    TooFewArgs,
    /// A call supplied more arguments than the parameter spec allows.
    TooManyArgs,
    /// A value of the wrong variant stood where another was required.
    TypeMismatch,
    /// A binding list had a name without a value, or parallel binding
    /// vectors of unequal length.
    UnbalancedBindings,
    /// A builtin body did not find the argument slots it expected.
    UnexpectedArgs,
    /// A parameter spec named more than one positional parameter.
    UnexpectedSymbol,
    /// Logic that has not been implemented.
    Unimplemented,
    /// An item that has not been initialized.
    Uninitialized,
    /// A list was still open when the source text ended.
    UnterminatedList,
}

impl Error {
    /// The fixed description of each error, for hosts that report
    /// failures.
    pub fn message(&self) -> (r: &'static str)
        ensures
            r@.len() > 0,
            self is DataNotFound ==> r@ == "Entry was not found."@,
            self is DuplicateSymbol ==> r@ == "Duplicate symbol."@,
            self is Empty ==> r@ == "Vector/list is empty."@,
            self is ExpectedFunction ==> r@ == "Expected a function."@,
            self is ExpectedList ==> r@ == "Expected a list."@,
            self is ExpectedSymbol ==> r@ == "Expected a symbol."@,
            self is ExpectedVector ==> r@ == "Expected a vector."@,
            self is ImpossibleConversion ==> r@ == "Conversion is not possible."@,
            self is IncompleteTokenization ==> r@ == "Incomplete tokenization."@,
            self is MathError ==> r@ == "Underflow, overflow, or divide by zero error."@,
            self is MismatchedDelimiter ==> r@ == "Mismatched delimiter."@,
            self is StackError ==> r@ == "Error accessing stack data."@,
            self is TooFewArgs ==> r@ == "Not enough args were supplied."@,
            self is TooManyArgs ==> r@ == "Too many args were supplied."@,
            self is TypeMismatch ==> r@ == "Mismatched types."@,
            self is UnbalancedBindings ==> r@ == "Some bindings do not have a value to bind."@,
            self is UnexpectedArgs ==> r@ == "The expected arguments were not found."@,
            self is UnexpectedSymbol ==> r@ == "Unexpected symbol found."@,
            self is Unimplemented ==> r@ == "Logic has not been implemented."@,
            self is Uninitialized ==> r@ == "Item has not been initialized."@,
            self is UnterminatedList ==> r@ == "Unterminated list."@,
    {
        let m: &'static str = match self {
            Error::DataNotFound => "Entry was not found.",
            Error::DuplicateSymbol => "Duplicate symbol.",
            Error::Empty => "Vector/list is empty.",
            Error::ExpectedFunction => "Expected a function.",
            Error::ExpectedList => "Expected a list.",
            Error::ExpectedSymbol => "Expected a symbol.",
            Error::ExpectedVector => "Expected a vector.",
            Error::ImpossibleConversion => "Conversion is not possible.",
            Error::IncompleteTokenization => "Incomplete tokenization.",
            Error::MathError => "Underflow, overflow, or divide by zero error.",
            Error::MismatchedDelimiter => "Mismatched delimiter.",
            Error::StackError => "Error accessing stack data.",
            Error::TooFewArgs => "Not enough args were supplied.",
            Error::TooManyArgs => "Too many args were supplied.",
            Error::TypeMismatch => "Mismatched types.",
            Error::UnbalancedBindings => "Some bindings do not have a value to bind.",
            Error::UnexpectedArgs => "The expected arguments were not found.",
            Error::UnexpectedSymbol => "Unexpected symbol found.",
            Error::Unimplemented => "Logic has not been implemented.",
            Error::Uninitialized => "Item has not been initialized.",
            Error::UnterminatedList => "Unterminated list.",
        };
        proof {
            reveal_strlit("Entry was not found.");
            reveal_strlit("Duplicate symbol.");
            reveal_strlit("Vector/list is empty.");
            reveal_strlit("Expected a function.");
            reveal_strlit("Expected a list.");
            reveal_strlit("Expected a symbol.");
            reveal_strlit("Expected a vector.");
            reveal_strlit("Conversion is not possible.");
            reveal_strlit("Incomplete tokenization.");
            reveal_strlit("Underflow, overflow, or divide by zero error.");
            reveal_strlit("Mismatched delimiter.");
            reveal_strlit("Error accessing stack data.");
            reveal_strlit("Not enough args were supplied.");
            reveal_strlit("Too many args were supplied.");
            reveal_strlit("Mismatched types.");
            reveal_strlit("Some bindings do not have a value to bind.");
            reveal_strlit("The expected arguments were not found.");
            reveal_strlit("Unexpected symbol found.");
            reveal_strlit("Logic has not been implemented.");
            reveal_strlit("Item has not been initialized.");
            reveal_strlit("Unterminated list.");
        }
        m
    }
}

} // verus!

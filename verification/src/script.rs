//! What the script sees go wrong.
use vstd::prelude::*;

verus! {

/// An exception for the script.
#[derive(Debug)]
pub enum ScriptError {
    /// An argument of the right type with a value that does not do.
    Value(String),
    /// An argument of the wrong type.
    Type(String),
    /// A bind or a session that is not there.
    Key(String),
    /// The operation itself failed.
    Runtime(String),
    /// An exception that the interpreter raised while an argument was read; the
    /// caller keeps it under this number.
    Pending(usize),
}

/// An exception and the text that it carries.
pub enum Fault {
    Value(Seq<char>),
    Type(Seq<char>),
    Key(Seq<char>),
    Runtime(Seq<char>),
    Pending(usize),
}

impl View for ScriptError {
    type V = Fault;

    open spec fn view(&self) -> Fault {
        match self {
            ScriptError::Value(m) => Fault::Value(m@),
            ScriptError::Type(m) => Fault::Type(m@),
            ScriptError::Key(m) => Fault::Key(m@),
            ScriptError::Runtime(m) => Fault::Runtime(m@),
            ScriptError::Pending(n) => Fault::Pending(*n),
        }
    }
}

impl ScriptError {
    /// What the exception says.
    pub fn message(&self) -> (r: &str)
        ensures
            r@ == match self@ {
                Fault::Value(m) => m,
                Fault::Type(m) => m,
                Fault::Key(m) => m,
                Fault::Runtime(m) => m,
                Fault::Pending(_) => ""@,
            },
    {
        match self {
            ScriptError::Value(m) => m.as_str(),
            ScriptError::Type(m) => m.as_str(),
            ScriptError::Key(m) => m.as_str(),
            ScriptError::Runtime(m) => m.as_str(),
            ScriptError::Pending(_) => "",
        }
    }
}

} // verus!

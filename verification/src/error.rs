use vstd::prelude::*;
use vstd::string::StringExecFns;

verus! {

/// What can go wrong while a model is loaded or applied.
#[derive(Debug, Clone, PartialEq, Eq)]
pub enum Error {
    /// The weight archive or a configuration is malformed, or a tensor has an
    /// element type other than 32-bit or 16-bit floating point.
    Format,
    /// No tensor of this name is in the archive.
    NotFound(String),
    /// A tensor's number of elements does not fit the shape expected of it.
    Shape,
    /// The tokenizer could not be built, or could not decode.
    Decode,
}

/// What an error says: the kind of the error and, for a tensor that is not
/// in the archive, the tensor's name.
pub enum Fault {
    Format,
    NotFound(Seq<char>),
    Shape,
    Decode,
}

impl View for Error {
    type V = Fault;

    open spec fn view(&self) -> Fault {
        match self {
            Error::Format => Fault::Format,
            Error::NotFound(name) => Fault::NotFound(name@),
            Error::Shape => Fault::Shape,
            Error::Decode => Fault::Decode,
        }
    }
}

/// The description of an error.
pub open spec fn description(fault: Fault) -> Seq<char> {
    match fault {
        Fault::Format => "malformed archive or configuration"@,
        Fault::NotFound(name) => "tensor not found: "@ + name,
        Fault::Shape => "tensor does not fit the expected shape"@,
        Fault::Decode => "tokenizer failure"@,
    }
}

impl Error {
    /// A one-line description of the error; for a tensor that is not in the
    /// archive it ends with the tensor's name.
    pub fn message(&self) -> (text: String)
        ensures
            text@ == description(self@),
    {
        match self {
            Error::Format => "malformed archive or configuration".to_owned(),
            Error::NotFound(name) => String::from_str("tensor not found: ").concat(name.as_str()),
            Error::Shape => "tensor does not fit the expected shape".to_owned(),
            Error::Decode => "tokenizer failure".to_owned(),
        }
    }
}

/// The error of a step, if it failed.
pub open spec fn failure<T>(step: Result<T, Fault>) -> Option<Fault> {
    match step {
        Ok(_) => None,
        Err(e) => Some(e),
    }
}

/// The error of the first of two steps that failed.
pub open spec fn first(a: Option<Fault>, b: Option<Fault>) -> Option<Fault> {
    if a is Some {
        a
    } else {
        b
    }
}

/// The error of the first step that failed.
pub open spec fn first_among(errors: Seq<Option<Fault>>) -> Option<Fault>
    decreases errors.len(),
{
    if errors.len() == 0 {
        None
    } else {
        first(errors[0], first_among(errors.drop_first()))
    }
}

/// Where no step before `at` failed, what comes of all steps is what comes
/// of the steps from `at` on.
pub proof fn lemma_first_among_skip(errors: Seq<Option<Fault>>, at: int)
    requires
        0 <= at <= errors.len(),
        forall|i: int| 0 <= i < at ==> errors[i] is None,
    ensures
        first_among(errors) == first_among(errors.skip(at)),
    decreases at,
{
    if at > 0 {
        lemma_first_among_skip(errors.drop_first(), at - 1);
        assert(errors.drop_first().skip(at - 1) == errors.skip(at));
    } else {
        assert(errors.skip(0) == errors);
    }
}

} // verus!

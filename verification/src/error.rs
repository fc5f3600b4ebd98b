//! The errors of the library, and their messages.
use vstd::prelude::*;
use vstd::string::*;

verus! {

/// The error type for sibling.
///
/// The paths are held as the strings that name them, and an I/O error as its
/// message.
#[derive(Debug)]
pub enum Error {
    /// Multiple errors occurred (array of errors).
    Array(Vec<Error>),
    /// A fatal error with a custom message.
    Fatal(String),
    /// I/O error occurred while accessing the file system.
    Io(String),
    /// The specified path was not found.
    NotFound(String),
    /// The path has no parent directory (e.g., root directory).
    NoParent(String),
    /// The specified path is not a directory.
    NotDir(String),
    /// The specified path is not a file.
    NotFile(String),
    /// The specified nexter type is unknown.
    UnknownNexterType(String),
}

/// The result type for sibling operations.
pub type Result<T> = core::result::Result<T, Error>;

/// The message of an error, as the command prints it.
pub open spec fn message_of(e: Error) -> Seq<char>
    decreases e,
{
    match e {
        Error::Array(errors) => messages_of(errors@),
        Error::Fatal(message) => "Fatal error: "@ + message@,
        Error::Io(message) => "I/O error: "@ + message@,
        Error::NotFound(path) => path@ + ": Not found"@,
        Error::NoParent(path) => path@ + ": No parent directory"@,
        Error::NotDir(path) => path@ + ": Not a directory"@,
        Error::NotFile(path) => path@ + ": Not a file"@,
        Error::UnknownNexterType(name) => "Unknown nexter type: "@ + name@,
    }
}

/// The messages of the errors, separated by ", ".
pub open spec fn messages_of(errors: Seq<Error>) -> Seq<char>
    decreases errors,
{
    if errors.len() == 0 {
        Seq::empty()
    } else if errors.len() == 1 {
        message_of(errors[0])
    } else {
        messages_of(errors.drop_last()) + ", "@ + message_of(errors.last())
    }
}

/// The string `prefix` followed by `rest`.
fn concat_str(prefix: &str, rest: &str) -> (r: String)
    ensures
        r@ == prefix@ + rest@,
{
    let mut s = String::from_str(prefix);
    s.append(rest);
    s
}

impl Error {
    /// The message of the error, as the command prints it.
    pub fn message(&self) -> (r: String)
        ensures
            r@ == message_of(*self),
        decreases self,
    {
        match self {
            Error::Array(errors) => {
                let mut out = String::new();
                let mut i: usize = 0;
                while i < errors.len()
                    invariant
                        i <= errors.len(),
                        *self == Error::Array(*errors),
                        out@ == messages_of(errors@.take(i as int)),
                    decreases errors.len() - i,
                {
                    proof {
                        assert(decreases_to!(*self => self->Array_0));
                        assert(decreases_to!(self->Array_0 => self->Array_0@));
                        assert(decreases_to!(errors@ => errors@[i as int]));
                    }
                    let m = errors[i].message();
                    if i > 0 {
                        out.append(", ");
                    }
                    out.append(m.as_str());
                    proof {
                        assert(errors@.take(i + 1).drop_last() =~= errors@.take(i as int));
                    }
                    i = i + 1;
                }
                proof {
                    assert(errors@.take(errors.len() as int) =~= errors@);
                }
                out
            },
            Error::Fatal(message) => concat_str("Fatal error: ", message.as_str()),
            Error::Io(message) => concat_str("I/O error: ", message.as_str()),
            Error::NotFound(path) => concat_str(path.as_str(), ": Not found"),
            Error::NoParent(path) => concat_str(path.as_str(), ": No parent directory"),
            Error::NotDir(path) => concat_str(path.as_str(), ": Not a directory"),
            Error::NotFile(path) => concat_str(path.as_str(), ": Not a file"),
            Error::UnknownNexterType(name) => concat_str("Unknown nexter type: ", name.as_str()),
        }
    }
}

} // verus!

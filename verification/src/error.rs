//! What an operation can fail with.

use vstd::prelude::*;

verus! {

/// The kinds of failure that this crate itself decides on.
#[derive(Debug, Clone, Copy, PartialEq, Eq, Structural)]
pub enum ErrorKind {
    /// The thing to be added is there already.
    AlreadyExists,
    /// An argument cannot be used.
    InvalidInput,
    /// The thing to be changed or removed is not there.
    NotFound,
    /// Anything that has no kind of its own.
    Other,
    /// The argument is understood, and not supported.
    Unsupported,
    /// The operation would have to wait, and was told not to.
    WouldBlock,
}

/// A failure: one decided here, with or without a message, or a code that the
/// operating system gave.
#[derive(Debug)]
pub enum Error {
    /// A kind alone.
    Simple(ErrorKind),
    /// A kind with a message.
    Custom(ErrorKind, String),
    /// An operating system error code, passed on as it came.
    Os(i32),
}

/// An [`Error`] with its message as a sequence of characters.
pub enum ErrorView {
    Simple(ErrorKind),
    Custom(ErrorKind, Seq<char>),
    Os(i32),
}

impl View for Error {
    type V = ErrorView;

    open spec fn view(&self) -> ErrorView {
        match *self {
            Error::Simple(kind) => ErrorView::Simple(kind),
            Error::Custom(kind, message) => ErrorView::Custom(kind, message@),
            Error::Os(code) => ErrorView::Os(code),
        }
    }
}

/// Whether `r` is the failure `e`.
pub open spec fn fails<T>(r: Result<T, Error>, e: ErrorView) -> bool {
    r matches Err(x) && x@ == e
}

impl Error {
    /// An error of `kind` that says `message`.
    pub fn new(kind: ErrorKind, message: &str) -> (r: Error)
        ensures
            r@ == ErrorView::Custom(kind, message@),
    {
        Error::Custom(kind, message.to_owned())
    }

    /// The kind, or nothing for an operating system code.
    pub fn kind(&self) -> (r: Option<ErrorKind>)
        ensures
            r == match self@ {
                ErrorView::Simple(kind) => Some(kind),
                ErrorView::Custom(kind, _) => Some(kind),
                ErrorView::Os(_) => None,
            },
    {
        match self {
            Error::Simple(kind) => Some(*kind),
            Error::Custom(kind, _) => Some(*kind),
            Error::Os(_) => None,
        }
    }

    /// The operating system code, if that is what the error is.
    pub fn raw_os_error(&self) -> (r: Option<i32>)
        ensures
            r == match self@ {
                ErrorView::Os(code) => Some(code),
                _ => None,
            },
    {
        match self {
            Error::Os(code) => Some(*code),
            _ => None,
        }
    }

    /// The message, if the error carries one.
    pub fn message(&self) -> (r: Option<&str>)
        ensures
            match self@ {
                ErrorView::Custom(_, message) => r matches Some(s) && s@ == message,
                _ => r is None,
            },
    {
        match self {
            Error::Custom(_, message) => Some(message.as_str()),
            _ => None,
        }
    }
}

/// The outcome of a call that reports success as a flag and failure through
/// the thread's last error code.
pub fn call_result(succeeded: bool, last_error: i32) -> (r: Result<(), Error>)
    ensures
        succeeded ==> r is Ok,
        !succeeded ==> fails(r, ErrorView::Os(last_error)),
{
    if succeeded {
        Ok(())
    } else {
        Err(Error::Os(last_error))
    }
}

/// The outcome of a call that returns a handle or an address, null for
/// failure, with the reason in the thread's last error code.
pub fn non_null(value: usize, last_error: i32) -> (r: Result<usize, Error>)
    ensures
        value != 0 ==> r == Ok::<usize, Error>(value),
        value == 0 ==> fails(r, ErrorView::Os(last_error)),
{
    if value == 0 {
        Err(Error::Os(last_error))
    } else {
        Ok(value)
    }
}

/// A call that succeeded is no failure, and one that did not fails with the code
/// that it left; so does one that returned null, and any other value is passed
/// on.
pub proof fn a_failed_call_leaves_its_code(
    succeeded: bool,
    value: usize,
    last_error: i32,
    c: Result<(), Error>,
    n: Result<usize, Error>,
)
    requires
        call_ensures(call_result, (succeeded, last_error), c),
        call_ensures(non_null, (value, last_error), n),
    ensures
        match c {
            Ok(_) => succeeded,
            Err(e) => !succeeded && e@ == ErrorView::Os(last_error),
        },
        match n {
            Ok(v) => v == value && value != 0,
            Err(e) => value == 0 && e@ == ErrorView::Os(last_error),
        },
{
}

/// An error says what it was made of, and nothing else.
pub proof fn an_error_says_what_it_was_made_of(
    kind: ErrorKind,
    message: &str,
    made: Error,
    error: &Error,
    k: Option<ErrorKind>,
    code: Option<i32>,
    m: Option<&str>,
)
    requires
        call_ensures(Error::new, (kind, message), made),
        call_ensures(Error::kind, (error,), k),
        call_ensures(Error::raw_os_error, (error,), code),
        call_ensures(Error::message, (error,), m),
    ensures
        made matches Error::Custom(of, text) && of == kind && text@ == message@,
        code is Some <==> *error is Os,
        k is None <==> *error is Os,
        m is Some <==> *error is Custom,
        *error matches Error::Os(c) ==> code == Some(c),
        *error matches Error::Simple(x) ==> k == Some(x),
        *error matches Error::Custom(x, text) ==> k == Some(x) && (m matches Some(t) && t@
            == text@),
{
}

} // verus!

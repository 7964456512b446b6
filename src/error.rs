use vstd::prelude::*;

verus! {

/// The kind of failure, mirroring the store's negative status codes.
#[derive(Clone, Copy, Debug, PartialEq, Eq, Structural)]
pub enum ErrorCode {
    /// A generic failure.
    GenericError,
    /// The requested object or reference could not be found.
    NotFound,
    /// An object or reference of that name already exists.
    Exists,
    /// More than one object matches.
    Ambiguous,
    /// The output buffer is too short.
    BufSize,
    /// A user-supplied callback asked to stop.
    User,
    /// A name or specification is malformed.
    InvalidSpec,
}

/// The subsystem that reported a failure.
#[derive(Clone, Copy, Debug, PartialEq, Eq, Structural)]
pub enum ErrorClass {
    Unclassified,
    NoMemory,
    Os,
    Invalid,
    Reference,
    Repository,
    Odb,
    Object,
    Tag,
}

/// The native status code of each error kind.
pub open spec fn code_to_raw(c: ErrorCode) -> i32 {
    match c {
        ErrorCode::GenericError => -1i32,
        ErrorCode::NotFound => -3i32,
        ErrorCode::Exists => -4i32,
        ErrorCode::Ambiguous => -5i32,
        ErrorCode::BufSize => -6i32,
        ErrorCode::User => -7i32,
        ErrorCode::InvalidSpec => -12i32,
    }
}

/// The error kind of a native status code; codes without a kind of their own are generic.
pub open spec fn raw_to_code(raw: i32) -> ErrorCode {
    if raw == -3i32 {
        ErrorCode::NotFound
    } else if raw == -4i32 {
        ErrorCode::Exists
    } else if raw == -5i32 {
        ErrorCode::Ambiguous
    } else if raw == -6i32 {
        ErrorCode::BufSize
    } else if raw == -7i32 {
        ErrorCode::User
    } else if raw == -12i32 {
        ErrorCode::InvalidSpec
    } else {
        ErrorCode::GenericError
    }
}

impl ErrorCode {
    /// The native status code of this kind.
    pub fn raw(&self) -> (r: i32)
        ensures
            r == code_to_raw(*self),
    {
        match self {
            ErrorCode::GenericError => -1,
            ErrorCode::NotFound => -3,
            ErrorCode::Exists => -4,
            ErrorCode::Ambiguous => -5,
            ErrorCode::BufSize => -6,
            ErrorCode::User => -7,
            ErrorCode::InvalidSpec => -12,
        }
    }

    /// The kind of a native status code.
    pub fn from_raw(raw: i32) -> (r: ErrorCode)
        ensures
            r == raw_to_code(raw),
    {
        if raw == -3 {
            ErrorCode::NotFound
        } else if raw == -4 {
            ErrorCode::Exists
        } else if raw == -5 {
            ErrorCode::Ambiguous
        } else if raw == -6 {
            ErrorCode::BufSize
        } else if raw == -7 {
            ErrorCode::User
        } else if raw == -12 {
            ErrorCode::InvalidSpec
        } else {
            ErrorCode::GenericError
        }
    }
}

/// A structured failure: the native status code, the reporting subsystem and a message.
#[derive(Debug)]
pub struct Error {
    raw: i32,
    class: ErrorClass,
    message: String,
}

impl Error {
    /// The native status code carried by the error.
    pub closed spec fn spec_raw(&self) -> i32 {
        self.raw
    }

    /// The kind of the error.
    pub open spec fn spec_code(&self) -> ErrorCode {
        raw_to_code(self.spec_raw())
    }

    /// The subsystem that reported the error.
    pub closed spec fn spec_class(&self) -> ErrorClass {
        self.class
    }

    /// The text of the error.
    pub closed spec fn spec_message(&self) -> Seq<char> {
        self.message@
    }

    /// An error of the given kind, class and message.
    pub fn new(code: ErrorCode, class: ErrorClass, message: &str) -> (r: Error)
        ensures
            r.spec_raw() == code_to_raw(code),
            r.spec_code() == code,
            r.spec_class() == class,
            r.spec_message() == message@,
    {
        Error { raw: code.raw(), class, message: message.to_owned() }
    }

    /// Translates a native status: a non-negative status is success, a
    /// negative one becomes an error carrying that status verbatim.
    pub fn check(status: i32, class: ErrorClass, message: &str) -> (r: Result<i32, Error>)
        ensures
            r is Ok <==> status >= 0,
            r matches Ok(s) ==> s == status,
            r matches Err(e) ==> e.spec_raw() == status && e.spec_class() == class
                && e.spec_message() == message@,
    {
        if status >= 0 {
            Ok(status)
        } else {
            Err(Error { raw: status, class, message: message.to_owned() })
        }
    }

    /// The kind of the error.
    pub fn code(&self) -> (r: ErrorCode)
        ensures
            r == self.spec_code(),
    {
        ErrorCode::from_raw(self.raw)
    }

    /// The native status code, as reported.
    pub fn raw_code(&self) -> (r: i32)
        ensures
            r == self.spec_raw(),
    {
        self.raw
    }

    /// The subsystem that reported the error.
    pub fn class(&self) -> (r: ErrorClass)
        ensures
            r == self.spec_class(),
    {
        self.class
    }

    /// The text of the error.
    pub fn message(&self) -> (r: &str)
        ensures
            r@ == self.spec_message(),
    {
        self.message.as_str()
    }
}

} // verus!

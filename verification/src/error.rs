//! The errors that the HTTP endpoints answer with.
use vstd::prelude::*;

use vstd::std_specs::convert::FromSpecImpl;

use crate::text::copy_str;

verus! {

/// What went wrong while serving a request.
#[derive(Debug, Clone, Copy, Hash, PartialEq, Eq, Structural)]
pub enum ErrorKind {
    MissingMaxmind,
    RefererError,
    ObjectReadingError,
    MissingAudienceSetting,
    SigningError,
    BackendNotFound,
    SigningForbidden,
}

/// The HTTP status, the machine-readable kind and the title of an error kind.
pub struct ErrorKindProperties {
    status: u16,
    kind: &'static str,
    title: &'static str,
}

/// The HTTP status that an error kind is answered with.
pub open spec fn kind_status(kind: ErrorKind) -> u16 {
    match kind {
        ErrorKind::MissingMaxmind => 500,
        ErrorKind::RefererError => 400,
        ErrorKind::ObjectReadingError => 403,
        ErrorKind::MissingAudienceSetting => 404,
        ErrorKind::SigningError => 500,
        ErrorKind::BackendNotFound => 404,
        ErrorKind::SigningForbidden => 403,
    }
}

/// The machine-readable name of an error kind.
pub open spec fn kind_name(kind: ErrorKind) -> Seq<char> {
    match kind {
        ErrorKind::MissingMaxmind => "missing_maxmind"@,
        ErrorKind::RefererError => "error_reading_referer"@,
        ErrorKind::ObjectReadingError => "error_reading_object"@,
        ErrorKind::MissingAudienceSetting => "missing_audience_setting"@,
        ErrorKind::SigningError => "signing_error"@,
        ErrorKind::BackendNotFound => "backend_not_found"@,
        ErrorKind::SigningForbidden => "signing_forbidden"@,
    }
}

/// The human-readable title of an error kind.
pub open spec fn kind_title(kind: ErrorKind) -> Seq<char> {
    match kind {
        ErrorKind::MissingMaxmind => "missing maxminddb reader"@,
        ErrorKind::RefererError => "Error reading 'REFERER' header"@,
        ErrorKind::ObjectReadingError => "Error reading object in the set"@,
        ErrorKind::MissingAudienceSetting => "Error reading an object using Set API: Audience settings for bucket not found"@,
        ErrorKind::SigningError => "Error signing a request"@,
        ErrorKind::BackendNotFound => "Error signing a request: Backend not found"@,
        ErrorKind::SigningForbidden => "Access denied"@,
    }
}

impl ErrorKindProperties {
    /// The properties of an error kind.
    pub fn of(val: ErrorKind) -> (p: Self)
        ensures
            p.status_view() == kind_status(val),
            p.kind_view() == kind_name(val),
            p.title_view() == kind_title(val),
    {
        Self::from(val)
    }

    pub closed spec fn status_view(self) -> u16 {
        self.status
    }

    pub closed spec fn kind_view(self) -> Seq<char> {
        self.kind@
    }

    pub closed spec fn title_view(self) -> Seq<char> {
        self.title@
    }

    pub fn status(&self) -> (s: u16)
        ensures
            s == self.status_view(),
    {
        self.status
    }

    pub fn kind(&self) -> (k: &'static str)
        ensures
            k@ == self.kind_view(),
    {
        self.kind
    }

    pub fn title(&self) -> (t: &'static str)
        ensures
            t@ == self.title_view(),
    {
        self.title
    }
}

impl From<ErrorKind> for ErrorKindProperties {
    /// The status, kind and title of `val`.
    fn from(val: ErrorKind) -> (p: Self)
        ensures
            p.status_view() == kind_status(val),
            p.kind_view() == kind_name(val),
            p.title_view() == kind_title(val),
    {
        match val {
            ErrorKind::MissingMaxmind => ErrorKindProperties {
                status: 500,
                kind: "missing_maxmind",
                title: "missing maxminddb reader",
            },
            ErrorKind::RefererError => ErrorKindProperties {
                status: 400,
                kind: "error_reading_referer",
                title: "Error reading 'REFERER' header",
            },
            ErrorKind::ObjectReadingError => ErrorKindProperties {
                status: 403,
                kind: "error_reading_object",
                title: "Error reading object in the set",
            },
            ErrorKind::MissingAudienceSetting => ErrorKindProperties {
                status: 404,
                kind: "missing_audience_setting",
                title: "Error reading an object using Set API: Audience settings for bucket not found",
            },
            ErrorKind::SigningError => ErrorKindProperties {
                status: 500,
                kind: "signing_error",
                title: "Error signing a request",
            },
            ErrorKind::BackendNotFound => ErrorKindProperties {
                status: 404,
                kind: "backend_not_found",
                title: "Error signing a request: Backend not found",
            },
            ErrorKind::SigningForbidden => ErrorKindProperties {
                status: 403,
                kind: "signing_forbidden",
                title: "Access denied",
            },
        }
    }
}

impl FromSpecImpl<ErrorKind> for ErrorKindProperties {
    open spec fn obeys_from_spec() -> bool {
        true
    }

    closed spec fn from_spec(v: ErrorKind) -> Self {
        match v {
            ErrorKind::MissingMaxmind => ErrorKindProperties {
                status: 500,
                kind: "missing_maxmind",
                title: "missing maxminddb reader",
            },
            ErrorKind::RefererError => ErrorKindProperties {
                status: 400,
                kind: "error_reading_referer",
                title: "Error reading 'REFERER' header",
            },
            ErrorKind::ObjectReadingError => ErrorKindProperties {
                status: 403,
                kind: "error_reading_object",
                title: "Error reading object in the set",
            },
            ErrorKind::MissingAudienceSetting => ErrorKindProperties {
                status: 404,
                kind: "missing_audience_setting",
                title: "Error reading an object using Set API: Audience settings for bucket not found",
            },
            ErrorKind::SigningError => ErrorKindProperties {
                status: 500,
                kind: "signing_error",
                title: "Error signing a request",
            },
            ErrorKind::BackendNotFound => ErrorKindProperties {
                status: 404,
                kind: "backend_not_found",
                title: "Error signing a request: Backend not found",
            },
            ErrorKind::SigningForbidden => ErrorKindProperties {
                status: 403,
                kind: "signing_forbidden",
                title: "Access denied",
            },
        }
    }
}

impl ErrorKind {
    /// The HTTP status this kind of error is answered with.
    pub fn status(self) -> (s: u16)
        ensures
            s == kind_status(self),
    {
        let properties = ErrorKindProperties::of(self);
        properties.status
    }

    /// The title of this kind of error (what its `Display` writes).
    pub fn to_string(self) -> (s: String)
        ensures
            s@ == kind_title(self),
    {
        let properties = ErrorKindProperties::of(self);
        copy_str(properties.title)
    }
}

/// An error of some kind, with the message of what caused it.
pub struct Error {
    kind: ErrorKind,
    err: Option<String>,
}

impl Error {
    pub closed spec fn kind_view(self) -> ErrorKind {
        self.kind
    }

    /// The message of the cause, if there is one.
    pub closed spec fn source_view(self) -> Option<Seq<char>> {
        match self.err {
            Some(s) => Some(s@),
            None => None,
        }
    }

    /// The detail that an answer carries: the cause's message, or nothing.
    pub open spec fn detail_view(self) -> Seq<char> {
        match self.source_view() {
            Some(s) => s,
            None => Seq::empty(),
        }
    }

    pub fn new(kind: ErrorKind, err: Option<String>) -> (e: Self)
        ensures
            e.kind_view() == kind,
            e.source_view() == (match err {
                Some(s) => Some(s@),
                None => None,
            }),
    {
        Self { kind, err }
    }

    pub fn status(&self) -> (s: u16)
        ensures
            s == kind_status(self.kind_view()),
    {
        self.kind.status()
    }

    pub fn error_kind(&self) -> (k: ErrorKind)
        ensures
            k == self.kind_view(),
    {
        self.kind
    }

    pub fn detail(&self) -> (d: String)
        ensures
            d@ == self.detail_view(),
    {
        match &self.err {
            Some(s) => s.clone(),
            None => String::new(),
        }
    }

    /// The status, kind and title of this error's kind.
    pub fn properties(&self) -> (p: ErrorKindProperties)
        ensures
            p.status_view() == kind_status(self.kind_view()),
            p.kind_view() == kind_name(self.kind_view()),
            p.title_view() == kind_title(self.kind_view()),
    {
        ErrorKindProperties::of(self.kind)
    }
}

/// Turning a failed result into an [`Error`] of a given kind.
pub trait ErrorExt<T>: Sized {
    fn error(self, kind: ErrorKind) -> Result<T, Error>;
}

impl<T> ErrorExt<T> for Result<T, String> {
    /// Keeps a success; a failure becomes an error of `kind` caused by it.
    fn error(self, kind: ErrorKind) -> (r: Result<T, Error>)
        ensures
            match self {
                Ok(v) => r == Ok::<T, Error>(v),
                Err(m) => r matches Err(e) && e.kind_view() == kind && e.source_view() == Some(m@),
            },
    {
        match self {
            Ok(v) => Ok(v),
            Err(source) => Err(Error::new(kind, Some(source))),
        }
    }
}

/// Giving a cause a kind.
pub trait ErrorKindExt: Sized {
    fn kind(self, kind: ErrorKind) -> Error;
}

impl ErrorKindExt for String {
    /// An error of `kind` caused by this message.
    fn kind(self, kind: ErrorKind) -> (e: Error)
        ensures
            e.kind_view() == kind,
            e.source_view() == Some(self@),
    {
        Error::new(kind, Some(self))
    }
}

} // verus!

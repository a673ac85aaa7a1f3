use vstd::prelude::*;

verus! {

/// Errors of the protocol engine.
#[derive(Debug, Clone, Copy, PartialEq, Eq, Structural)]
pub enum ServerError {
    RequestParseError,
    HttpStatusError,
}

/// The closed set of status codes this server emits.
#[derive(Debug, Clone, Copy, PartialEq, Eq, Structural)]
#[allow(non_camel_case_types)]
pub enum HttpStatus {
    OK,
    Forbidden,
    NotFound,
    InternalServerError,
}

/// The numeric code of a status.
pub open spec fn code_of(s: HttpStatus) -> u16 {
    match s {
        HttpStatus::OK => 200,
        HttpStatus::Forbidden => 403,
        HttpStatus::NotFound => 404,
        HttpStatus::InternalServerError => 500,
    }
}

/// The canonical reason phrase of a numeric code, for the codes this server knows.
pub open spec fn canonical_reason(code: int) -> Seq<char> {
    if code == 200 {
        "OK"@
    } else if code == 403 {
        "Forbidden"@
    } else if code == 404 {
        "Not Found"@
    } else if code == 500 {
        "Internal Server Error"@
    } else {
        Seq::empty()
    }
}

/// The reason phrase of a status.
pub open spec fn reason_of(s: HttpStatus) -> Seq<char> {
    canonical_reason(code_of(s) as int)
}

/// The status with a given numeric code, if there is one.
pub open spec fn status_of_code(value: int) -> Option<HttpStatus> {
    if value == 200 {
        Some(HttpStatus::OK)
    } else if value == 403 {
        Some(HttpStatus::Forbidden)
    } else if value == 404 {
        Some(HttpStatus::NotFound)
    } else if value == 500 {
        Some(HttpStatus::InternalServerError)
    } else {
        None
    }
}

impl HttpStatus {
    /// The reason phrase that goes with this status.
    pub fn reason(&self) -> (r: &'static str)
        ensures
            r@ == reason_of(*self),
            r.is_ascii(),
    {
        match self {
            HttpStatus::OK => {
                proof { reveal_strlit("OK"); }
                "OK"
            },
            HttpStatus::Forbidden => {
                proof { reveal_strlit("Forbidden"); }
                "Forbidden"
            },
            HttpStatus::NotFound => {
                proof { reveal_strlit("Not Found"); }
                "Not Found"
            },
            HttpStatus::InternalServerError => {
                proof { reveal_strlit("Internal Server Error"); }
                "Internal Server Error"
            },
        }
    }

    /// The numeric code of this status.
    pub fn code(&self) -> (r: u16)
        ensures
            r == code_of(*self),
    {
        match self {
            HttpStatus::OK => 200,
            HttpStatus::Forbidden => 403,
            HttpStatus::NotFound => 404,
            HttpStatus::InternalServerError => 500,
        }
    }

    /// The status with numeric code `value`; any other code is an error.
    pub fn try_from(value: u32) -> (r: Result<HttpStatus, ServerError>)
        ensures
            status_of_code(value as int) matches Some(s) ==> r == Ok::<HttpStatus, ServerError>(s),
            status_of_code(value as int) is None ==> r == Err::<HttpStatus, ServerError>(
                ServerError::HttpStatusError,
            ),
    {
        match value {
            200 => Ok(HttpStatus::OK),
            403 => Ok(HttpStatus::Forbidden),
            404 => Ok(HttpStatus::NotFound),
            500 => Ok(HttpStatus::InternalServerError),
            _ => Err(ServerError::HttpStatusError),
        }
    }
}

impl From<HttpStatus> for u16 {
    fn from(code: HttpStatus) -> (r: u16)
        ensures
            r == code_of(code),
    {
        code.code()
    }
}

impl vstd::std_specs::convert::FromSpecImpl<HttpStatus> for u16 {
    open spec fn obeys_from_spec() -> bool {
        true
    }

    open spec fn from_spec(v: HttpStatus) -> u16 {
        code_of(v)
    }
}

/// Every status maps to its canonical reason phrase, and back and forth to its code.
pub proof fn lemma_status_reason_pairing(s: HttpStatus)
    ensures
        reason_of(s) == canonical_reason(code_of(s) as int),
        status_of_code(code_of(s) as int) == Some(s),
        code_of(s) == 200 ==> reason_of(s) == "OK"@,
        code_of(s) == 403 ==> reason_of(s) == "Forbidden"@,
        code_of(s) == 404 ==> reason_of(s) == "Not Found"@,
        code_of(s) == 500 ==> reason_of(s) == "Internal Server Error"@,
{
}

} // verus!

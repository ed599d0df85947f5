//! The substrate's error type.
use vstd::prelude::*;
use crate::text::push_str;

verus! {

/// Every failure the substrate reports, by domain, with its message.
#[derive(Debug, Clone, PartialEq, Eq)]
pub enum EaiError {
    Governance(String),
    Hardware(String),
    Protocol(String),
    Inference(String),
    Sandbox(String),
    Config(String),
    Io(String),
    Network(String),
    Filesystem(String),
    Process(String),
    Authentication(String),
    Authorization(String),
    Internal(String),
    Unknown(String),
}

/// Result type of fallible substrate operations.
pub type EaiResult<T> = Result<T, EaiError>;

/// The message an error carries.
pub open spec fn error_message(e: EaiError) -> Seq<char> {
    match e {
        EaiError::Governance(m) => m@,
        EaiError::Hardware(m) => m@,
        EaiError::Protocol(m) => m@,
        EaiError::Inference(m) => m@,
        EaiError::Sandbox(m) => m@,
        EaiError::Config(m) => m@,
        EaiError::Io(m) => m@,
        EaiError::Network(m) => m@,
        EaiError::Filesystem(m) => m@,
        EaiError::Process(m) => m@,
        EaiError::Authentication(m) => m@,
        EaiError::Authorization(m) => m@,
        EaiError::Internal(m) => m@,
        EaiError::Unknown(m) => m@,
    }
}

/// The name of an error's kind.
pub open spec fn kind_of(e: EaiError) -> Seq<char> {
    match e {
        EaiError::Governance(_) => "Governance"@,
        EaiError::Hardware(_) => "Hardware"@,
        EaiError::Protocol(_) => "Protocol"@,
        EaiError::Inference(_) => "Inference"@,
        EaiError::Sandbox(_) => "Sandbox"@,
        EaiError::Config(_) => "Config"@,
        EaiError::Io(_) => "Io"@,
        EaiError::Network(_) => "Network"@,
        EaiError::Filesystem(_) => "Filesystem"@,
        EaiError::Process(_) => "Process"@,
        EaiError::Authentication(_) => "Authentication"@,
        EaiError::Authorization(_) => "Authorization"@,
        EaiError::Internal(_) => "Internal"@,
        EaiError::Unknown(_) => "Unknown"@,
    }
}

/// The human-readable prefix each kind is displayed with.
/// The displayed form of an error: its kind's prefix, then its message.
pub open spec fn displayed(e: EaiError) -> Seq<char> {
    display_prefix(e) + error_message(e)
}

/// The prefix naming an error's kind in its displayed form.
pub open spec fn display_prefix(e: EaiError) -> Seq<char> {
    match e {
        EaiError::Governance(_) => "Governance Violation: "@,
        EaiError::Hardware(_) => "Hardware Error: "@,
        EaiError::Protocol(_) => "Protocol Error: "@,
        EaiError::Inference(_) => "Inference Error: "@,
        EaiError::Sandbox(_) => "Sandbox Error: "@,
        EaiError::Config(_) => "Configuration Error: "@,
        EaiError::Io(_) => "I/O Error: "@,
        EaiError::Network(_) => "Network Error: "@,
        EaiError::Filesystem(_) => "Filesystem Error: "@,
        EaiError::Process(_) => "Process Error: "@,
        EaiError::Authentication(_) => "Authentication Error: "@,
        EaiError::Authorization(_) => "Authorization Error: "@,
        EaiError::Internal(_) => "Internal Engine Error: "@,
        EaiError::Unknown(_) => "Unknown Error: "@,
    }
}

fn owned(msg: &str) -> (r: String)
    ensures
        r@ == msg@,
{
    let mut s = String::new();
    push_str(&mut s, msg);
    s
}

impl EaiError {
    /// A governance violation.
    pub fn governance(msg: &str) -> (e: Self)
        ensures
            e == EaiError::Governance(e->Governance_0) && e->Governance_0@ == msg@,
    {
        EaiError::Governance(owned(msg))
    }

    /// A hardware error.
    pub fn hardware(msg: &str) -> (e: Self)
        ensures
            e == EaiError::Hardware(e->Hardware_0) && e->Hardware_0@ == msg@,
    {
        EaiError::Hardware(owned(msg))
    }

    /// A protocol error.
    pub fn protocol(msg: &str) -> (e: Self)
        ensures
            e == EaiError::Protocol(e->Protocol_0) && e->Protocol_0@ == msg@,
    {
        EaiError::Protocol(owned(msg))
    }

    /// An inference error.
    pub fn inference(msg: &str) -> (e: Self)
        ensures
            e == EaiError::Inference(e->Inference_0) && e->Inference_0@ == msg@,
    {
        EaiError::Inference(owned(msg))
    }

    /// A sandbox error.
    pub fn sandbox(msg: &str) -> (e: Self)
        ensures
            e == EaiError::Sandbox(e->Sandbox_0) && e->Sandbox_0@ == msg@,
    {
        EaiError::Sandbox(owned(msg))
    }

    /// A configuration error.
    pub fn config(msg: &str) -> (e: Self)
        ensures
            e == EaiError::Config(e->Config_0) && e->Config_0@ == msg@,
    {
        EaiError::Config(owned(msg))
    }

    /// An I/O error.
    pub fn io(msg: &str) -> (e: Self)
        ensures
            e == EaiError::Io(e->Io_0) && e->Io_0@ == msg@,
    {
        EaiError::Io(owned(msg))
    }

    /// A network error.
    pub fn network(msg: &str) -> (e: Self)
        ensures
            e == EaiError::Network(e->Network_0) && e->Network_0@ == msg@,
    {
        EaiError::Network(owned(msg))
    }

    /// A filesystem error.
    pub fn filesystem(msg: &str) -> (e: Self)
        ensures
            e == EaiError::Filesystem(e->Filesystem_0) && e->Filesystem_0@ == msg@,
    {
        EaiError::Filesystem(owned(msg))
    }

    /// A process error.
    pub fn process(msg: &str) -> (e: Self)
        ensures
            e == EaiError::Process(e->Process_0) && e->Process_0@ == msg@,
    {
        EaiError::Process(owned(msg))
    }

    /// An authentication error.
    pub fn authentication(msg: &str) -> (e: Self)
        ensures
            e == EaiError::Authentication(e->Authentication_0) && e->Authentication_0@ == msg@,
    {
        EaiError::Authentication(owned(msg))
    }

    /// An authorization error.
    pub fn authorization(msg: &str) -> (e: Self)
        ensures
            e == EaiError::Authorization(e->Authorization_0) && e->Authorization_0@ == msg@,
    {
        EaiError::Authorization(owned(msg))
    }

    /// An internal engine error.
    pub fn internal(msg: &str) -> (e: Self)
        ensures
            e == EaiError::Internal(e->Internal_0) && e->Internal_0@ == msg@,
    {
        EaiError::Internal(owned(msg))
    }

    /// The name of this error's kind, e.g. `"Governance"`.
    pub fn kind_name(&self) -> (r: &'static str)
        ensures
            r@ == kind_of(*self),
    {
        match self {
            EaiError::Governance(_) => "Governance",
            EaiError::Hardware(_) => "Hardware",
            EaiError::Protocol(_) => "Protocol",
            EaiError::Inference(_) => "Inference",
            EaiError::Sandbox(_) => "Sandbox",
            EaiError::Config(_) => "Config",
            EaiError::Io(_) => "Io",
            EaiError::Network(_) => "Network",
            EaiError::Filesystem(_) => "Filesystem",
            EaiError::Process(_) => "Process",
            EaiError::Authentication(_) => "Authentication",
            EaiError::Authorization(_) => "Authorization",
            EaiError::Internal(_) => "Internal",
            EaiError::Unknown(_) => "Unknown",
        }
    }

    /// The message this error carries.
    pub fn message(&self) -> (r: &String)
        ensures
            r@ == error_message(*self),
    {
        match self {
            EaiError::Governance(m) => m,
            EaiError::Hardware(m) => m,
            EaiError::Protocol(m) => m,
            EaiError::Inference(m) => m,
            EaiError::Sandbox(m) => m,
            EaiError::Config(m) => m,
            EaiError::Io(m) => m,
            EaiError::Network(m) => m,
            EaiError::Filesystem(m) => m,
            EaiError::Process(m) => m,
            EaiError::Authentication(m) => m,
            EaiError::Authorization(m) => m,
            EaiError::Internal(m) => m,
            EaiError::Unknown(m) => m,
        }
    }

    /// The displayed form of this error: its kind's prefix, then its message,
    /// e.g. `"Governance Violation: ..."`.
    pub fn to_display_string(&self) -> (r: String)
        ensures
            r@ == displayed(*self),
    {
        let mut s = String::new();
        let prefix = match self {
            EaiError::Governance(_) => "Governance Violation: ",
            EaiError::Hardware(_) => "Hardware Error: ",
            EaiError::Protocol(_) => "Protocol Error: ",
            EaiError::Inference(_) => "Inference Error: ",
            EaiError::Sandbox(_) => "Sandbox Error: ",
            EaiError::Config(_) => "Configuration Error: ",
            EaiError::Io(_) => "I/O Error: ",
            EaiError::Network(_) => "Network Error: ",
            EaiError::Filesystem(_) => "Filesystem Error: ",
            EaiError::Process(_) => "Process Error: ",
            EaiError::Authentication(_) => "Authentication Error: ",
            EaiError::Authorization(_) => "Authorization Error: ",
            EaiError::Internal(_) => "Internal Engine Error: ",
            EaiError::Unknown(_) => "Unknown Error: ",
        };
        push_str(&mut s, prefix);
        push_str(&mut s, self.message().as_str());
        s
    }
}

} // verus!

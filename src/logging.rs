//! The vocabulary of log lines: what part of the program a line comes from, and how grave it is.
use vstd::prelude::*;

use crate::text::{contains, lower_of, lowercase, str_contains};

verus! {

/// The part of the program a log line comes from.
#[derive(Debug, Clone, Copy, PartialEq, Eq, Structural)]
pub enum LogCategory {
    Net,
    Disc,
    Soap,
    Http,
    Xml,
    App,
}

impl LogCategory {
    pub open spec fn label(&self) -> Seq<char> {
        match self {
            LogCategory::Net => "NET"@,
            LogCategory::Disc => "DISC"@,
            LogCategory::Soap => "SOAP"@,
            LogCategory::Http => "HTTP"@,
            LogCategory::Xml => "XML"@,
            LogCategory::App => "APP"@,
        }
    }

    /// The short tag shown in a log line.
    pub fn as_str(&self) -> (r: &'static str)
        ensures
            r@ == self.label(),
    {
        match self {
            LogCategory::Net => "NET",
            LogCategory::Disc => "DISC",
            LogCategory::Soap => "SOAP",
            LogCategory::Http => "HTTP",
            LogCategory::Xml => "XML",
            LogCategory::App => "APP",
        }
    }

    /// The category of a log target, by the first keyword that its lowercase form contains.
    pub open spec fn of_target(target: Seq<char>) -> LogCategory {
        let t = lower_of(target);
        if contains(t, "net"@) || contains(t, "socket"@) || contains(t, "multicast"@) {
            LogCategory::Net
        } else if contains(t, "upnp"@) || contains(t, "disc"@) || contains(t, "rupnp"@) || contains(t, "ssdp"@) {
            LogCategory::Disc
        } else if contains(t, "soap"@) {
            LogCategory::Soap
        } else if contains(t, "http"@) || contains(t, "reqwest"@) {
            LogCategory::Http
        } else if contains(t, "xml"@) || contains(t, "quick_xml"@) {
            LogCategory::Xml
        } else {
            LogCategory::App
        }
    }

    /// The category of a log target (such as `mop::net`).
    pub fn from_target(target: &str) -> (r: LogCategory)
        ensures
            r == LogCategory::of_target(target@),
    {
        let t = lowercase(target);
        let t = t.as_str();
        if str_contains(t, "net") || str_contains(t, "socket") || str_contains(t, "multicast") {
            LogCategory::Net
        } else if str_contains(t, "upnp") || str_contains(t, "disc") || str_contains(t, "rupnp")
            || str_contains(t, "ssdp") {
            LogCategory::Disc
        } else if str_contains(t, "soap") {
            LogCategory::Soap
        } else if str_contains(t, "http") || str_contains(t, "reqwest") {
            LogCategory::Http
        } else if str_contains(t, "xml") || str_contains(t, "quick_xml") {
            LogCategory::Xml
        } else {
            LogCategory::App
        }
    }
}

/// How grave a log line is.
#[derive(Debug, Clone, Copy, PartialEq, Eq, Structural)]
pub enum LogSeverity {
    Error,
    Warn,
    Info,
    Debug,
    Trace,
}

impl LogSeverity {
    pub open spec fn label(&self) -> Seq<char> {
        match self {
            LogSeverity::Error => "ERROR"@,
            LogSeverity::Warn => "WARN"@,
            LogSeverity::Info => "INFO"@,
            LogSeverity::Debug => "DEBUG"@,
            LogSeverity::Trace => "TRACE"@,
        }
    }

    /// The word shown in a log line.
    pub fn as_str(&self) -> (r: &'static str)
        ensures
            r@ == self.label(),
    {
        match self {
            LogSeverity::Error => "ERROR",
            LogSeverity::Warn => "WARN",
            LogSeverity::Info => "INFO",
            LogSeverity::Debug => "DEBUG",
            LogSeverity::Trace => "TRACE",
        }
    }
}

} // verus!

use vstd::prelude::*;

verus! {

/// Severity of a log message; `Shutdown` is a control signal, not a severity.
#[derive(Clone, Copy, Debug, PartialEq, Eq, Structural, Hash)]
pub enum LogLevel {
    Debug,
    Info,
    Warn,
    Error,
    Shutdown,
}

/// The stable display name of a level.
pub open spec fn level_name(level: LogLevel) -> Seq<char> {
    match level {
        LogLevel::Debug => "DEBUG"@,
        LogLevel::Info => "INFO"@,
        LogLevel::Warn => "WARN"@,
        LogLevel::Error => "ERROR"@,
        LogLevel::Shutdown => "SHUTDOWN"@,
    }
}

/// A byte that tells the levels apart, used when hashing a message.
pub open spec fn level_tag(level: LogLevel) -> u8 {
    match level {
        LogLevel::Debug => 0,
        LogLevel::Info => 1,
        LogLevel::Warn => 2,
        LogLevel::Error => 3,
        LogLevel::Shutdown => 4,
    }
}

impl LogLevel {
    pub fn name(&self) -> (r: String)
        ensures
            r@ == level_name(*self),
    {
        proof {
            reveal_strlit("DEBUG");
            reveal_strlit("INFO");
            reveal_strlit("WARN");
            reveal_strlit("ERROR");
            reveal_strlit("SHUTDOWN");
        }
        match self {
            LogLevel::Debug => "DEBUG".to_string(),
            LogLevel::Info => "INFO".to_string(),
            LogLevel::Warn => "WARN".to_string(),
            LogLevel::Error => "ERROR".to_string(),
            LogLevel::Shutdown => "SHUTDOWN".to_string(),
        }
    }

    pub fn tag(&self) -> (r: u8)
        ensures
            r == level_tag(*self),
    {
        match self {
            LogLevel::Debug => 0,
            LogLevel::Info => 1,
            LogLevel::Warn => 2,
            LogLevel::Error => 3,
            LogLevel::Shutdown => 4,
        }
    }

    pub fn is_shutdown(&self) -> (r: bool)
        ensures
            r == (*self == LogLevel::Shutdown),
    {
        match self {
            LogLevel::Shutdown => true,
            _ => false,
        }
    }
}

} // verus!

use vstd::prelude::*;

verus! {

/// How important a log message is, most important first.
#[derive(Clone, Copy, Debug, PartialEq, Eq, Structural)]
pub enum LogLevel {
    Fatal,
    Alert,
    Error,
    Warning,
    Info,
    Debug,
    Trace,
}

/// The name a level is displayed with.
pub open spec fn level_name(level: LogLevel) -> Seq<char> {
    match level {
        LogLevel::Fatal => "Fatal"@,
        LogLevel::Alert => "Alert"@,
        LogLevel::Error => "Error"@,
        LogLevel::Warning => "Warning"@,
        LogLevel::Info => "Info"@,
        LogLevel::Debug => "Debug"@,
        LogLevel::Trace => "Trace"@,
    }
}

impl LogLevel {
    /// The name the level is displayed with.
    pub fn name(&self) -> (res: &'static str)
        ensures
            res@ == level_name(*self),
    {
        match self {
            LogLevel::Fatal => "Fatal",
            LogLevel::Alert => "Alert",
            LogLevel::Error => "Error",
            LogLevel::Warning => "Warning",
            LogLevel::Info => "Info",
            LogLevel::Debug => "Debug",
            LogLevel::Trace => "Trace",
        }
    }

    /// The level as it is displayed.
    pub fn to_string(&self) -> (res: String)
        ensures
            res@ == level_name(*self),
    {
        String::from_str(self.name())
    }
}

/// Each level is displayed with its own name, as it is spelt in the enum,
/// so no two levels print the same.
pub proof fn law_level_names_distinct(a: LogLevel, b: LogLevel)
    ensures
        level_name(a) == level_name(b) ==> a == b,
        level_name(a) == match a {
            LogLevel::Fatal => seq!['F', 'a', 't', 'a', 'l'],
            LogLevel::Alert => seq!['A', 'l', 'e', 'r', 't'],
            LogLevel::Error => seq!['E', 'r', 'r', 'o', 'r'],
            LogLevel::Warning => seq!['W', 'a', 'r', 'n', 'i', 'n', 'g'],
            LogLevel::Info => seq!['I', 'n', 'f', 'o'],
            LogLevel::Debug => seq!['D', 'e', 'b', 'u', 'g'],
            LogLevel::Trace => seq!['T', 'r', 'a', 'c', 'e'],
        },
{
    reveal_strlit("Fatal");
    reveal_strlit("Alert");
    reveal_strlit("Error");
    reveal_strlit("Warning");
    reveal_strlit("Info");
    reveal_strlit("Debug");
    reveal_strlit("Trace");
    assert("Fatal"@ =~= seq!['F', 'a', 't', 'a', 'l']);
    assert("Alert"@ =~= seq!['A', 'l', 'e', 'r', 't']);
    assert("Error"@ =~= seq!['E', 'r', 'r', 'o', 'r']);
    assert("Warning"@ =~= seq!['W', 'a', 'r', 'n', 'i', 'n', 'g']);
    assert("Info"@ =~= seq!['I', 'n', 'f', 'o']);
    assert("Debug"@ =~= seq!['D', 'e', 'b', 'u', 'g']);
    assert("Trace"@ =~= seq!['T', 'r', 'a', 'c', 'e']);
    if level_name(a) == level_name(b) {
        assert(level_name(a)[0] == level_name(b)[0]);
    }
}

} // verus!

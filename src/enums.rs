use vstd::prelude::*;

verus! {

/// Where a service entry is registered. The daemon numbers the domains;
/// the raw values 0 through 7 make up the search space of a lookup.
#[derive(Debug, Clone, Copy, PartialEq, Eq, Structural)]
pub enum DomainType {
    System,
    User,
    UserLogin,
    Session,
    PID,
    RequestorUserDomain,
    RequestorDomain,
    Unknown,
}

/// The domain that a raw domain number names; unassigned numbers are `Unknown`.
pub open spec fn domain_of(value: u64) -> DomainType {
    if value == 1 {
        DomainType::System
    } else if value == 2 {
        DomainType::User
    } else if value == 3 {
        DomainType::UserLogin
    } else if value == 4 {
        DomainType::Session
    } else if value == 5 {
        DomainType::PID
    } else if value == 6 {
        DomainType::RequestorUserDomain
    } else if value == 7 {
        DomainType::RequestorDomain
    } else {
        DomainType::Unknown
    }
}

impl DomainType {
    /// The domain for a raw domain number.
    pub fn from_raw(value: u64) -> (r: DomainType)
        ensures
            r == domain_of(value),
    {
        match value {
            1 => DomainType::System,
            2 => DomainType::User,
            3 => DomainType::UserLogin,
            4 => DomainType::Session,
            5 => DomainType::PID,
            6 => DomainType::RequestorUserDomain,
            7 => DomainType::RequestorDomain,
            _ => DomainType::Unknown,
        }
    }
}

/// The session type a service is restricted to, as reported by the daemon
/// under the `LimitLoadToSessionType` key.
#[derive(Debug, Clone, Copy, PartialEq, Eq, Structural)]
pub enum LimitLoadToSessionType {
    Aqua,
    StandardIO,
    Background,
    LoginWindow,
    System,
    Unknown,
}

/// The daemon's name for each session type.
pub open spec fn session_label(t: LimitLoadToSessionType) -> Seq<char> {
    match t {
        LimitLoadToSessionType::Aqua => "Aqua"@,
        LimitLoadToSessionType::StandardIO => "StandardIO"@,
        LimitLoadToSessionType::Background => "Background"@,
        LimitLoadToSessionType::LoginWindow => "LoginWindow"@,
        LimitLoadToSessionType::System => "System"@,
        LimitLoadToSessionType::Unknown => "Unknown"@,
    }
}

/// The session type that a daemon-reported string names: one of the five
/// known names exactly, otherwise `Unknown`.
pub open spec fn session_type_of(s: Seq<char>) -> LimitLoadToSessionType {
    if s == "Aqua"@ {
        LimitLoadToSessionType::Aqua
    } else if s == "StandardIO"@ {
        LimitLoadToSessionType::StandardIO
    } else if s == "Background"@ {
        LimitLoadToSessionType::Background
    } else if s == "LoginWindow"@ {
        LimitLoadToSessionType::LoginWindow
    } else if s == "System"@ {
        LimitLoadToSessionType::System
    } else {
        LimitLoadToSessionType::Unknown
    }
}

impl LimitLoadToSessionType {
    /// The name of this session type.
    pub fn to_string(&self) -> (r: String)
        ensures
            r@ == session_label(*self),
    {
        match self {
            LimitLoadToSessionType::Aqua => String::from_str("Aqua"),
            LimitLoadToSessionType::StandardIO => String::from_str("StandardIO"),
            LimitLoadToSessionType::Background => String::from_str("Background"),
            LimitLoadToSessionType::LoginWindow => String::from_str("LoginWindow"),
            LimitLoadToSessionType::System => String::from_str("System"),
            LimitLoadToSessionType::Unknown => String::from_str("Unknown"),
        }
    }
}

impl From<String> for LimitLoadToSessionType {
    fn from(value: String) -> (r: Self) {
        if value == String::from_str("Aqua") {
            LimitLoadToSessionType::Aqua
        } else if value == String::from_str("StandardIO") {
            LimitLoadToSessionType::StandardIO
        } else if value == String::from_str("Background") {
            LimitLoadToSessionType::Background
        } else if value == String::from_str("LoginWindow") {
            LimitLoadToSessionType::LoginWindow
        } else if value == String::from_str("System") {
            LimitLoadToSessionType::System
        } else {
            LimitLoadToSessionType::Unknown
        }
    }
}

impl vstd::std_specs::convert::FromSpecImpl<String> for LimitLoadToSessionType {
    open spec fn obeys_from_spec() -> bool {
        true
    }

    open spec fn from_spec(v: String) -> Self {
        session_type_of(v@)
    }
}

/// Conversion from a string never fails: any string that is not exactly one
/// of the five known names, the empty string or a name in another case
/// among them, gives `Unknown`.
pub proof fn lemma_session_type_of_unmatched(s: Seq<char>)
    requires
        s != "Aqua"@,
        s != "StandardIO"@,
        s != "Background"@,
        s != "LoginWindow"@,
        s != "System"@,
    ensures
        session_type_of(s) == LimitLoadToSessionType::Unknown,
{
}

/// Each known session type reads back from its own name.
pub proof fn lemma_session_type_round_trip(t: LimitLoadToSessionType)
    requires
        t != LimitLoadToSessionType::Unknown,
    ensures
        session_type_of(session_label(t)) == t,
{
    reveal_strlit("Aqua");
    reveal_strlit("StandardIO");
    reveal_strlit("Background");
    reveal_strlit("LoginWindow");
    reveal_strlit("System");
    assert("StandardIO"@[0] != "Aqua"@[0]);
    assert("Background"@[0] != "Aqua"@[0]);
    assert("Background"@[0] != "StandardIO"@[0]);
    assert("LoginWindow"@[0] != "Aqua"@[0]);
    assert("LoginWindow"@[0] != "StandardIO"@[0]);
    assert("LoginWindow"@[0] != "Background"@[0]);
    assert("System"@[0] != "Aqua"@[0]);
    assert("System"@[1] != "StandardIO"@[1]);
    assert("System"@[0] != "Background"@[0]);
    assert("System"@[0] != "LoginWindow"@[0]);
}

} // verus!

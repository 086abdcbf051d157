use vstd::prelude::*;

use crate::config::JobTypeFilter;
use crate::enums::{DomainType, LimitLoadToSessionType};

verus! {

/// The follow-up that a domain/session prompt produces once the user has
/// answered it.
#[derive(Debug, Clone, Copy, PartialEq, Eq, Structural)]
pub enum PromptContinuation {
    Load,
    Unload,
    Enable,
    Disable,
    Reload,
}

/// A user intent, from a request that may need disambiguation down to the
/// primitive daemon operations.
#[derive(Debug, PartialEq, Eq)]
pub enum OmniboxCommand {
    /// Run in order, stopping at the first failure.
    Chain(Vec<OmniboxCommand>),
    LoadRequest,
    UnloadRequest,
    EnableRequest,
    DisableRequest,
    Load(LimitLoadToSessionType, DomainType, Option<u64>),
    Unload(DomainType, Option<u64>),
    /// Unload and load again, with the domain and session type already known.
    Reload,
    Enable(DomainType),
    Disable(DomainType),
    Edit,
    /// Run the commands once the user has acknowledged the message.
    Confirm(String, Vec<OmniboxCommand>),
    /// Ask for the domain (and the session type unless the flag says the
    /// domain alone will do) of the label, then run the continuation.
    DomainSessionPrompt(String, bool, PromptContinuation),
    FocusServiceList,
    Quit,
    ProcInfo,
}

/// Why a command could not proceed.
#[derive(Debug, PartialEq, Eq)]
pub enum OmniboxError {
    CommandError(String),
}

/// What handling a command gives: a follow-up command, nothing more to do,
/// or a failure.
pub type OmniboxResult = Result<Option<OmniboxCommand>, OmniboxError>;

/// Whether a command is a chain of exactly these commands.
pub open spec fn is_chain_of(c: OmniboxCommand, cmds: Seq<OmniboxCommand>) -> bool {
    match c {
        OmniboxCommand::Chain(v) => v@ == cmds,
        _ => false,
    }
}

/// Whether `r` holds the commands of a continuation, for the domain and
/// session type that the user gave: `None` where a load would lack its
/// session type; a disable comes wrapped in a chain.
pub open spec fn continues_with(
    k: PromptContinuation,
    domain: DomainType,
    session: Option<LimitLoadToSessionType>,
    r: Option<Vec<OmniboxCommand>>,
) -> bool {
    match k {
        PromptContinuation::Load => match session {
            Some(st) => r is Some && r->0@ == seq![OmniboxCommand::Load(st, domain, None)],
            None => r is None,
        },
        PromptContinuation::Unload => r is Some && r->0@ == seq![OmniboxCommand::Unload(domain, None)],
        PromptContinuation::Enable => r is Some && r->0@ == seq![OmniboxCommand::Enable(domain)],
        PromptContinuation::Disable => r is Some && r->0@.len() == 1 && is_chain_of(
            r->0@[0],
            seq![OmniboxCommand::Disable(domain)],
        ),
        PromptContinuation::Reload => match session {
            Some(st) => r is Some && r->0@ == seq![
                OmniboxCommand::Unload(domain, None),
                OmniboxCommand::Load(st, domain, None),
            ],
            None => r is None,
        },
    }
}

impl PromptContinuation {
    /// The commands to run once the prompt has been answered. A load is
    /// never produced without a session type: then the answer is refused.
    pub fn apply(&self, domain: DomainType, session: Option<LimitLoadToSessionType>) -> (r: Option<
        Vec<OmniboxCommand>,
    >)
        ensures
            continues_with(*self, domain, session, r),
    {
        match self {
            PromptContinuation::Load => match session {
                Some(st) => {
                    let steps = vec![OmniboxCommand::Load(st, domain, None)];
                    assert(steps@ =~= seq![OmniboxCommand::Load(st, domain, None)]);
                    Some(steps)
                },
                None => None,
            },
            PromptContinuation::Unload => {
                let steps = vec![OmniboxCommand::Unload(domain, None)];
                assert(steps@ =~= seq![OmniboxCommand::Unload(domain, None)]);
                Some(steps)
            },
            PromptContinuation::Enable => {
                let steps = vec![OmniboxCommand::Enable(domain)];
                assert(steps@ =~= seq![OmniboxCommand::Enable(domain)]);
                Some(steps)
            },
            PromptContinuation::Disable => {
                let disable = vec![OmniboxCommand::Disable(domain)];
                assert(disable@ =~= seq![OmniboxCommand::Disable(domain)]);
                let steps = vec![OmniboxCommand::Chain(disable)];
                assert(steps@.len() == 1 && is_chain_of(steps@[0], seq![OmniboxCommand::Disable(domain)]));
                Some(steps)
            },
            PromptContinuation::Reload => match session {
                Some(st) => {
                    let steps = vec![OmniboxCommand::Unload(domain, None), OmniboxCommand::Load(st, domain, None)];
                    assert(steps@ =~= seq![
                        OmniboxCommand::Unload(domain, None),
                        OmniboxCommand::Load(st, domain, None),
                    ]);
                    Some(steps)
                },
                None => None,
            },
        }
    }
}

/// The lower-case name of a command's kind.
pub open spec fn command_name(c: OmniboxCommand) -> Seq<char> {
    match c {
        OmniboxCommand::Chain(..) => "chain"@,
        OmniboxCommand::LoadRequest => "loadrequest"@,
        OmniboxCommand::UnloadRequest => "unloadrequest"@,
        OmniboxCommand::EnableRequest => "enablerequest"@,
        OmniboxCommand::DisableRequest => "disablerequest"@,
        OmniboxCommand::Load(..) => "load"@,
        OmniboxCommand::Unload(..) => "unload"@,
        OmniboxCommand::Reload => "reload"@,
        OmniboxCommand::Enable(..) => "enable"@,
        OmniboxCommand::Disable(..) => "disable"@,
        OmniboxCommand::Edit => "edit"@,
        OmniboxCommand::Confirm(..) => "confirm"@,
        OmniboxCommand::DomainSessionPrompt(..) => "domainsessionprompt"@,
        OmniboxCommand::FocusServiceList => "focusservicelist"@,
        OmniboxCommand::Quit => "quit"@,
        OmniboxCommand::ProcInfo => "procinfo"@,
    }
}

impl OmniboxCommand {
    /// The lower-case name of this command's kind, as the omnibox shows it.
    pub fn name(&self) -> (r: String)
        ensures
            r@ == command_name(*self),
    {
        match self {
            OmniboxCommand::Chain(..) => String::from_str("chain"),
            OmniboxCommand::LoadRequest => String::from_str("loadrequest"),
            OmniboxCommand::UnloadRequest => String::from_str("unloadrequest"),
            OmniboxCommand::EnableRequest => String::from_str("enablerequest"),
            OmniboxCommand::DisableRequest => String::from_str("disablerequest"),
            OmniboxCommand::Load(..) => String::from_str("load"),
            OmniboxCommand::Unload(..) => String::from_str("unload"),
            OmniboxCommand::Reload => String::from_str("reload"),
            OmniboxCommand::Enable(..) => String::from_str("enable"),
            OmniboxCommand::Disable(..) => String::from_str("disable"),
            OmniboxCommand::Edit => String::from_str("edit"),
            OmniboxCommand::Confirm(..) => String::from_str("confirm"),
            OmniboxCommand::DomainSessionPrompt(..) => String::from_str("domainsessionprompt"),
            OmniboxCommand::FocusServiceList => String::from_str("focusservicelist"),
            OmniboxCommand::Quit => String::from_str("quit"),
            OmniboxCommand::ProcInfo => String::from_str("procinfo"),
        }
    }
}

/// The commands the omnibox offers, in the order it lists them: what the
/// user types, what it shows beside it, and the command it issues.
pub open spec fn offered_command(i: int) -> (Seq<char>, Seq<char>, OmniboxCommand) {
    if i == 0 {
        ("load"@, "▶️  Load highlighted job"@, OmniboxCommand::LoadRequest)
    } else if i == 1 {
        ("unload"@, "⏏️  Unload highlighted job"@, OmniboxCommand::UnloadRequest)
    } else if i == 2 {
        ("enable"@, "▶️  Enable highlighted job (enables load)"@, OmniboxCommand::EnableRequest)
    } else if i == 3 {
        ("disable"@, "⏏️  Disable highlighted job (prevents load)"@, OmniboxCommand::DisableRequest)
    } else if i == 4 {
        ("edit"@, "✍️  Edit plist with $EDITOR, then reload job"@, OmniboxCommand::Edit)
    } else if i == 5 {
        ("reload"@, "🔄  Reload highlighted job"@, OmniboxCommand::Reload)
    } else if i == 6 {
        ("exit"@, "🚪 see ya!"@, OmniboxCommand::Quit)
    } else {
        (Seq::empty(), Seq::empty(), OmniboxCommand::Quit)
    }
}

/// How many commands the omnibox offers.
pub const OFFERED_COMMANDS: usize = 7;

/// The commands the omnibox offers (see `offered_command`).
pub fn omnibox_commands() -> (r: Vec<(String, String, OmniboxCommand)>)
    ensures
        r@.len() == OFFERED_COMMANDS,
        forall|i: int|
            0 <= i < OFFERED_COMMANDS ==> (#[trigger] r@[i]).0@ == offered_command(i).0
                && r@[i].1@ == offered_command(i).1 && r@[i].2 == offered_command(i).2,
{
    let r = vec![
        (String::from_str("load"), String::from_str("▶️  Load highlighted job"), OmniboxCommand::LoadRequest),
        (String::from_str("unload"), String::from_str("⏏️  Unload highlighted job"), OmniboxCommand::UnloadRequest),
        (String::from_str("enable"), String::from_str("▶️  Enable highlighted job (enables load)"), OmniboxCommand::EnableRequest),
        (String::from_str("disable"), String::from_str("⏏️  Disable highlighted job (prevents load)"), OmniboxCommand::DisableRequest),
        (String::from_str("edit"), String::from_str("✍️  Edit plist with $EDITOR, then reload job"), OmniboxCommand::Edit),
        (String::from_str("reload"), String::from_str("🔄  Reload highlighted job"), OmniboxCommand::Reload),
        (String::from_str("exit"), String::from_str("🚪 see ya!"), OmniboxCommand::Quit),
    ];
    assert(r@.len() == OFFERED_COMMANDS);
    r
}

/// What the omnibox is doing.
#[derive(Debug, PartialEq, Eq)]
pub enum OmniboxMode {
    LabelFilter,
    CommandFilter,
    CommandConfirm(OmniboxCommand),
    JobTypeFilter,
    Idle,
}

/// The omnibox's state as it is handed to the views that follow it.
#[derive(Debug, PartialEq, Eq)]
pub struct OmniboxState {
    pub mode: OmniboxMode,
    pub label_filter: String,
    pub job_type_filter: JobTypeFilter,
}

} // verus!

use launchk::command::{omnibox_commands, OmniboxCommand, OmniboxError, OmniboxMode, OmniboxState, PromptContinuation};
use launchk::config::{EntryLocation, EntryType, JobTypeFilter, LaunchdPlist};
use launchk::enums::{DomainType, LimitLoadToSessionType};
use launchk::view::{
    contains_ignoring_ascii_case, finish_edit, finish_operation, name_less, CommandAction,
    LaunchdEntryStatus, ServiceListItem, ServiceListView,
};

fn plist(label: &str, location: EntryLocation, kind: EntryType) -> LaunchdPlist {
    LaunchdPlist {
        label: label.to_string(),
        plist_path: format!("/Library/LaunchDaemons/{}.plist", label),
        entry_location: location,
        entry_type: kind,
    }
}

fn status(config: Option<LaunchdPlist>, domain: DomainType, session: LimitLoadToSessionType, pid: i64) -> LaunchdEntryStatus {
    LaunchdEntryStatus { plist: config, limit_load_to_session_type: session, domain, pid }
}

fn entry(label: &str, loaded_config: bool) -> (String, LaunchdEntryStatus) {
    let config = if loaded_config {
        Some(plist(label, EntryLocation::System, EntryType::Daemon))
    } else {
        None
    };
    (label.to_string(), status(config, DomainType::Unknown, LimitLoadToSessionType::Unknown, 0))
}

fn names(items: &[ServiceListItem]) -> Vec<String> {
    items.iter().map(|i| i.name.clone()).collect()
}

fn view_with_running(running: &[&str]) -> ServiceListView {
    let mut view = ServiceListView::new();
    view.running_jobs = running.iter().map(|r| r.to_string()).collect();
    view
}

fn selected(label: &str, domain: DomainType, session: LimitLoadToSessionType, pid: i64, with_plist: bool) -> ServiceListView {
    let mut view = ServiceListView::new();
    let config = if with_plist {
        Some(plist(label, EntryLocation::User, EntryType::Agent))
    } else {
        None
    };
    view.items = vec![ServiceListItem {
        name: label.to_string(),
        status: status(config, domain, session, pid),
        job_type_filter: JobTypeFilter::empty(),
    }];
    view.set_highlighted(Some(0));
    view
}

fn command_error(message: &str) -> OmniboxError {
    OmniboxError::CommandError(message.to_string())
}

#[test]
fn unloaded_sorts_before_loaded() {
    let view = view_with_running(&["apple"]);
    let items = view.present_services(vec![entry("apple", true), entry("zebra", true)]);
    assert_eq!(names(&items), vec!["zebra".to_string(), "apple".to_string()]);
}

#[test]
fn unloaded_sort_by_name() {
    let view = view_with_running(&[]);
    let items = view.present_services(vec![entry("b", true), entry("a", true)]);
    assert_eq!(names(&items), vec!["a".to_string(), "b".to_string()]);
}

#[test]
fn present_services_job_type_masks() {
    let view = view_with_running(&["running.only", "configured"]);
    let items = view.present_services(vec![entry("configured", true), entry("running.only", false), entry("idle", false)]);
    assert_eq!(names(&items), vec!["idle".to_string(), "configured".to_string(), "running.only".to_string()]);
    assert_eq!(items[0].job_type_filter.bits, 0);
    assert_eq!(items[1].job_type_filter.bits, 2 + 32 + 64);
    assert_eq!(items[2].job_type_filter.bits, 64);
}

#[test]
fn present_services_name_filter_ignores_case() {
    let mut view = view_with_running(&[]);
    view.label_filter = "APPLE".to_string();
    let items = view.present_services(vec![entry("com.apple.Finder", true), entry("org.example", true)]);
    assert_eq!(names(&items), vec!["com.apple.Finder".to_string()]);
}

#[test]
fn present_services_job_type_filter() {
    let mut view = view_with_running(&["loaded.one"]);
    view.job_type_filter = JobTypeFilter::loaded();
    let items = view.present_services(vec![entry("loaded.one", true), entry("stopped.one", true)]);
    assert_eq!(names(&items), vec!["loaded.one".to_string()]);
    view.job_type_filter = JobTypeFilter::empty();
    let all = view.present_services(vec![entry("loaded.one", true), entry("stopped.one", true)]);
    assert_eq!(all.len(), 2);
}

#[test]
fn candidate_labels_appends_unconfigured_running() {
    let view = view_with_running(&["b", "c", "d"]);
    let configured = vec!["a".to_string(), "b".to_string()];
    assert_eq!(
        view.candidate_labels(&configured),
        vec!["a".to_string(), "b".to_string(), "c".to_string(), "d".to_string()]
    );
}

#[test]
fn substring_and_name_order() {
    assert!(contains_ignoring_ascii_case(&"com.Apple.x".to_string(), &"aPPle".to_string()));
    assert!(contains_ignoring_ascii_case(&"abc".to_string(), &String::new()));
    assert!(!contains_ignoring_ascii_case(&"ab".to_string(), &"abc".to_string()));
    assert!(name_less(&"a".to_string(), &"b".to_string()));
    assert!(name_less(&"ab".to_string(), &"abc".to_string()));
    assert!(name_less(&"Z".to_string(), &"a".to_string()));
    assert!(!name_less(&"b".to_string(), &"b".to_string()));
}

#[test]
fn reload_with_known_domain_and_session() {
    let view = selected("com.example.job", DomainType::User, LimitLoadToSessionType::Aqua, 0, true);
    let action = view.handle_command(OmniboxCommand::Reload).unwrap();
    assert_eq!(
        action,
        CommandAction::Reply(Some(OmniboxCommand::Chain(vec![
            OmniboxCommand::Unload(DomainType::User, None),
            OmniboxCommand::Load(LimitLoadToSessionType::Aqua, DomainType::User, None),
        ])))
    );
}

#[test]
fn reload_with_unknown_domain_prompts() {
    let view = selected("com.example.job", DomainType::Unknown, LimitLoadToSessionType::Aqua, 0, true);
    let action = view.handle_command(OmniboxCommand::Reload).unwrap();
    assert_eq!(
        action,
        CommandAction::Reply(Some(OmniboxCommand::DomainSessionPrompt(
            "com.example.job".to_string(),
            false,
            PromptContinuation::Reload
        )))
    );
    assert_eq!(PromptContinuation::Reload.apply(DomainType::System, None), None);
    assert_eq!(
        PromptContinuation::Reload.apply(DomainType::System, Some(LimitLoadToSessionType::Aqua)),
        Some(vec![
            OmniboxCommand::Unload(DomainType::System, None),
            OmniboxCommand::Load(LimitLoadToSessionType::Aqua, DomainType::System, None),
        ])
    );
}

#[test]
fn reload_with_unknown_session_prompts() {
    let view = selected("j", DomainType::System, LimitLoadToSessionType::Unknown, 0, true);
    let action = view.handle_command(OmniboxCommand::Reload).unwrap();
    assert_eq!(
        action,
        CommandAction::Reply(Some(OmniboxCommand::DomainSessionPrompt("j".to_string(), false, PromptContinuation::Reload)))
    );
}

#[test]
fn requests_resolve_to_prompts_or_primitives() {
    let known = selected("j", DomainType::System, LimitLoadToSessionType::Background, 0, true);
    let unknown = selected("j", DomainType::Unknown, LimitLoadToSessionType::Unknown, 0, true);
    let prompt = |required: bool, k: PromptContinuation| {
        CommandAction::Reply(Some(OmniboxCommand::DomainSessionPrompt("j".to_string(), required, k)))
    };
    assert_eq!(known.handle_command(OmniboxCommand::LoadRequest).unwrap(), prompt(false, PromptContinuation::Load));
    assert_eq!(
        known.handle_command(OmniboxCommand::UnloadRequest).unwrap(),
        CommandAction::Reply(Some(OmniboxCommand::Unload(DomainType::System, None)))
    );
    assert_eq!(unknown.handle_command(OmniboxCommand::UnloadRequest).unwrap(), prompt(true, PromptContinuation::Unload));
    assert_eq!(known.handle_command(OmniboxCommand::EnableRequest).unwrap(), prompt(true, PromptContinuation::Enable));
    assert_eq!(unknown.handle_command(OmniboxCommand::EnableRequest).unwrap(), prompt(true, PromptContinuation::Enable));
    assert_eq!(known.handle_command(OmniboxCommand::DisableRequest).unwrap(), prompt(true, PromptContinuation::Disable));
    assert_eq!(unknown.handle_command(OmniboxCommand::DisableRequest).unwrap(), prompt(true, PromptContinuation::Disable));
}

#[test]
fn continuations_produce_commands() {
    assert_eq!(PromptContinuation::Load.apply(DomainType::User, None), None);
    assert_eq!(
        PromptContinuation::Load.apply(DomainType::User, Some(LimitLoadToSessionType::Aqua)),
        Some(vec![OmniboxCommand::Load(LimitLoadToSessionType::Aqua, DomainType::User, None)])
    );
    assert_eq!(
        PromptContinuation::Unload.apply(DomainType::User, None),
        Some(vec![OmniboxCommand::Unload(DomainType::User, None)])
    );
    assert_eq!(PromptContinuation::Enable.apply(DomainType::PID, None), Some(vec![OmniboxCommand::Enable(DomainType::PID)]));
    assert_eq!(
        PromptContinuation::Disable.apply(DomainType::PID, None),
        Some(vec![OmniboxCommand::Chain(vec![OmniboxCommand::Disable(DomainType::PID)])])
    );
}

#[test]
fn primitives_become_operations() {
    let view = selected("j", DomainType::User, LimitLoadToSessionType::Aqua, 0, true);
    let path = "/Library/LaunchDaemons/j.plist".to_string();
    assert_eq!(
        view.handle_command(OmniboxCommand::Load(LimitLoadToSessionType::Background, DomainType::System, None)).unwrap(),
        CommandAction::Load {
            label: "j".to_string(),
            plist_path: path.clone(),
            domain: DomainType::System,
            session: LimitLoadToSessionType::Background
        }
    );
    assert_eq!(
        view.handle_command(OmniboxCommand::Unload(DomainType::System, None)).unwrap(),
        CommandAction::Unload {
            label: "j".to_string(),
            plist_path: path,
            domain: DomainType::System,
            session: LimitLoadToSessionType::Aqua
        }
    );
    assert_eq!(
        view.handle_command(OmniboxCommand::Enable(DomainType::User)).unwrap(),
        CommandAction::Enable { label: "j".to_string(), domain: DomainType::User }
    );
    assert_eq!(
        view.handle_command(OmniboxCommand::Disable(DomainType::User)).unwrap(),
        CommandAction::Disable { label: "j".to_string(), domain: DomainType::User }
    );
    assert_eq!(
        view.handle_command(OmniboxCommand::Edit).unwrap(),
        CommandAction::Edit { label: "j".to_string(), plist: plist("j", EntryLocation::User, EntryType::Agent) }
    );
}

#[test]
fn proc_info_needs_a_pid() {
    let stopped = selected("j", DomainType::User, LimitLoadToSessionType::Aqua, 0, true);
    assert_eq!(stopped.handle_command(OmniboxCommand::ProcInfo), Err(command_error("No PID for j")));
    let running = selected("j", DomainType::User, LimitLoadToSessionType::Aqua, 812, true);
    assert_eq!(
        running.handle_command(OmniboxCommand::ProcInfo).unwrap(),
        CommandAction::ProcInfo { label: "j".to_string(), pid: 812 }
    );
}

#[test]
fn commands_need_a_selection_and_a_plist() {
    let empty = ServiceListView::new();
    assert_eq!(empty.handle_command(OmniboxCommand::Reload), Err(command_error("Cannot get highlighted row")));
    let no_plist = selected("j", DomainType::User, LimitLoadToSessionType::Aqua, 5, false);
    assert_eq!(no_plist.handle_command(OmniboxCommand::Edit), Err(command_error("Cannot find plist")));
    assert_eq!(no_plist.handle_command(OmniboxCommand::Quit).unwrap(), CommandAction::Reply(None));
    assert_eq!(empty.handle_command(OmniboxCommand::FocusServiceList).unwrap(), CommandAction::Reply(None));
}

#[test]
fn edit_success_asks_to_confirm_reload() {
    let result = finish_edit(&"com.example.job".to_string(), Ok(()));
    assert_eq!(
        result,
        Ok(Some(OmniboxCommand::Confirm("Reload com.example.job?".to_string(), vec![OmniboxCommand::Reload])))
    );
}

#[test]
fn edit_failure_is_a_command_error() {
    let result = finish_edit(&"j".to_string(), Err("editor exited with 1".to_string()));
    assert_eq!(result, Err(command_error("editor exited with 1")));
}

#[test]
fn operation_outcomes() {
    assert_eq!(finish_operation(Ok(())), Ok(None));
    assert_eq!(finish_operation(Err("denied".to_string())), Err(command_error("denied")));
}

#[test]
fn state_update_follows_mode() {
    let mut view = ServiceListView::new();
    let state = |mode: OmniboxMode, label: &str, bits: u32| OmniboxState {
        mode,
        label_filter: label.to_string(),
        job_type_filter: JobTypeFilter { bits },
    };
    assert_eq!(view.handle_state_update(state(OmniboxMode::LabelFilter, "abc", 64)), Ok(None));
    assert_eq!(view.label_filter, "abc");
    assert_eq!(view.job_type_filter.bits, 0);
    view.handle_state_update(state(OmniboxMode::JobTypeFilter, "zzz", 64)).unwrap();
    assert_eq!(view.label_filter, "abc");
    assert_eq!(view.job_type_filter.bits, 64);
    view.handle_state_update(state(OmniboxMode::CommandFilter, "q", 2)).unwrap();
    assert_eq!(view.label_filter, "abc");
    assert_eq!(view.job_type_filter.bits, 64);
    view.handle_state_update(state(OmniboxMode::Idle, "", 0)).unwrap();
    assert_eq!(view.label_filter, "");
    assert_eq!(view.job_type_filter.bits, 0);
}

#[test]
fn selection_survives_resort() {
    let mut view = ServiceListView::new();
    let row = |name: &str| ServiceListItem {
        name: name.to_string(),
        status: status(None, DomainType::Unknown, LimitLoadToSessionType::Unknown, 0),
        job_type_filter: JobTypeFilter::empty(),
    };
    view.replace_and_preserve_selection(vec![row("a"), row("b"), row("c")]);
    assert_eq!(view.highlighted, Some(0));
    view.set_highlighted(Some(1));
    view.replace_and_preserve_selection(vec![row("c"), row("a"), row("b")]);
    assert_eq!(view.highlighted, Some(2));
    assert_eq!(view.get_active_list_item().unwrap().name, "b");
    view.replace_and_preserve_selection(vec![row("x")]);
    assert_eq!(view.highlighted, Some(0));
    view.replace_and_preserve_selection(Vec::new());
    assert_eq!(view.highlighted, None);
    view.set_highlighted(Some(3));
    assert_eq!(view.highlighted, None);
}

#[test]
fn status_from_resolved_info() {
    let info = launchk::service::LaunchdEntryInfo {
        entry_config: Some(plist("j", EntryLocation::User, EntryType::Agent)),
        limit_load_to_session_type: LimitLoadToSessionType::Aqua,
        pid: 77,
        domain: DomainType::UserLogin,
    };
    let s = LaunchdEntryStatus::from_info(info);
    assert_eq!(s, status(Some(plist("j", EntryLocation::User, EntryType::Agent)), DomainType::UserLogin, LimitLoadToSessionType::Aqua, 77));
}

#[test]
fn command_names_are_lower_case() {
    assert_eq!(OmniboxCommand::LoadRequest.name(), "loadrequest");
    assert_eq!(OmniboxCommand::Load(LimitLoadToSessionType::Aqua, DomainType::User, None).name(), "load");
    assert_eq!(OmniboxCommand::DomainSessionPrompt("j".to_string(), true, PromptContinuation::Enable).name(), "domainsessionprompt");
    assert_eq!(OmniboxCommand::Chain(Vec::new()).name(), "chain");
    assert_eq!(OmniboxCommand::FocusServiceList.name(), "focusservicelist");
}

#[test]
fn offered_commands_table() {
    let table = omnibox_commands();
    let names: Vec<&str> = table.iter().map(|(n, _, _)| n.as_str()).collect();
    assert_eq!(names, vec!["load", "unload", "enable", "disable", "edit", "reload", "exit"]);
    assert_eq!(table[0].2, OmniboxCommand::LoadRequest);
    assert_eq!(table[3].2, OmniboxCommand::DisableRequest);
    assert_eq!(table[5].2, OmniboxCommand::Reload);
    assert_eq!(table[6].2, OmniboxCommand::Quit);
    assert_eq!(table[6].1, "🚪 see ya!");
}

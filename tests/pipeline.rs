use chinviter::{
    classify, filter_channels, on_list_reply, parse_command, report_line, unknown_command_message,
    Action, ChannelRecord, Command, Event, FetchError, FetchStep, InviteOutcome, InviteReply,
    InviteRun, ListReply, Phase, RemoteChannel, RunError, StoreError, Visibility,
};

fn chan(id: &str, name: &str, is_private: bool) -> RemoteChannel {
    RemoteChannel { id: id.to_string(), name: name.to_string(), is_private }
}

fn page(channels: Vec<RemoteChannel>, next: &str) -> ListReply {
    ListReply::Page { ok: true, channels, next_cursor: next.to_string() }
}

fn rec(id: &str, name: &str) -> ChannelRecord {
    ChannelRecord::new(id.to_string(), Visibility::Private, name.to_string())
}

fn parsed(ok: bool, id: &str, name: &str, body: &str) -> InviteReply {
    InviteReply::Parsed { ok, channel_id: id.to_string(), channel_name: name.to_string(), body: body.to_string() }
}

#[test]
fn filter_keeps_only_matching_names() {
    let chans = vec![chan("C1", "dev-team", true), chan("C2", "random", false), chan("C3", "devops", true)];
    let kept = filter_channels(&chans, "dev");
    assert_eq!(kept, vec![rec("C1", "dev-team"), rec("C3", "devops")]);
    assert!(kept.iter().all(|r| r.name.contains("dev")));
    let all = filter_channels(&chans, "");
    assert_eq!(all.len(), 3);
    assert_eq!(all[1], ChannelRecord::new("C2".to_string(), Visibility::Public, "random".to_string()));
    assert!(filter_channels(&chans, "Dev").is_empty());
}

#[test]
fn pagination_stops_on_empty_cursor() {
    let mut pages = vec![
        page(vec![chan("C1", "a", true)], "p2"),
        page(vec![chan("C2", "b", true), chan("C3", "c", true)], "p3"),
        page(vec![chan("C4", "d", true)], ""),
        page(vec![chan("C9", "never", true)], ""),
    ]
    .into_iter();
    let mut requests: usize = 0;
    let mut stored: Vec<ChannelRecord> = Vec::new();
    let mut cursors: Vec<String> = vec![String::new()];
    loop {
        requests += 1;
        match on_list_reply("", pages.next().unwrap()) {
            FetchStep::Persist { rows, next_cursor } => {
                stored.extend(rows);
                match next_cursor {
                    Some(c) => cursors.push(c),
                    None => break,
                }
            }
            FetchStep::Abort(e) => panic!("unexpected abort {:?}", e),
        }
    }
    assert_eq!(requests, 3);
    assert_eq!(cursors, vec!["".to_string(), "p2".to_string(), "p3".to_string()]);
    let ids: Vec<&str> = stored.iter().map(|r| r.id.as_str()).collect();
    assert_eq!(ids, vec!["C1", "C2", "C3", "C4"]);
}

#[test]
fn listing_failures_abort() {
    let rejected = ListReply::Page { ok: false, channels: vec![chan("C1", "a", true)], next_cursor: "x".to_string() };
    assert!(matches!(on_list_reply("", rejected), FetchStep::Abort(FetchError::Rejected)));
    assert!(matches!(on_list_reply("", ListReply::Malformed), FetchStep::Abort(FetchError::Malformed)));
    assert!(matches!(on_list_reply("", ListReply::TransportFailed), FetchStep::Abort(FetchError::Transport)));
}

#[test]
fn classify_each_reply_shape() {
    assert_eq!(
        classify(parsed(true, "C7", "general", "{}")),
        InviteOutcome::Invited { channel_id: "C7".to_string(), channel_name: "general".to_string() }
    );
    assert_eq!(
        classify(parsed(false, "C7", "general", "{\"ok\":false}")),
        InviteOutcome::Rejected { raw_response: "{\"ok\":false}".to_string() }
    );
    assert_eq!(
        classify(InviteReply::Malformed { error: "bad json".to_string() }),
        InviteOutcome::RequestFailed { error: "bad json".to_string() }
    );
}

#[test]
fn report_lines() {
    let ok = InviteOutcome::Invited { channel_id: "C7".to_string(), channel_name: "general".to_string() };
    assert_eq!(report_line("U1", "C1", &ok), "Invited U1 to general: C7");
    let rej = InviteOutcome::Rejected { raw_response: "{\"ok\":false}".to_string() };
    assert_eq!(report_line("U1", "C1", &rej), "result: {\"ok\":false}\nFailed to invite U1 to C1");
    let failed = InviteOutcome::RequestFailed { error: "timeout".to_string() };
    assert_eq!(report_line("U1", "C1", &failed), "Failed to invite U1 to C1\ntimeout");
}

#[test]
fn commands() {
    let s = |x: &str| x.to_string();
    assert_eq!(parse_command(s("list"), s(""), s("dev")), Command::List { filter: s("dev") });
    assert_eq!(parse_command(s("channels"), s(""), s("")), Command::List { filter: s("") });
    assert_eq!(parse_command(s("invite"), s("U1"), s("")), Command::Invite { user_id: s("U1") });
    assert_eq!(parse_command(s("purge"), s("U1"), s("")), Command::Unknown { name: s("purge") });
    assert_eq!(unknown_command_message("purge"), "purge: unknown command\nRun 'chinviter help' for usage.");
}

fn loaded_run(rows: Vec<ChannelRecord>) -> InviteRun {
    let mut run = InviteRun::start("U1".to_string(), None);
    assert_eq!(run.next_action(), Action::Stage);
    run.on_event(Event::Staged);
    assert_eq!(run.next_action(), Action::LoadTargets);
    run.on_event(Event::TargetsLoaded(rows));
    run
}

#[test]
fn invite_loop_continues_past_a_transport_error() {
    let mut run = loaded_run(vec![rec("C1", "a"), rec("C2", "b"), rec("C3", "c")]);
    let mut replies = vec![
        parsed(true, "C1", "a", "{}"),
        InviteReply::TransportFailed { error: "connection reset".to_string() },
        parsed(true, "C3", "c", "{}"),
    ]
    .into_iter();
    let mut invited: Vec<String> = Vec::new();
    while let Action::Invite { channel_id } = run.next_action() {
        invited.push(channel_id);
        run.on_event(Event::Replied(replies.next().unwrap()));
    }
    assert_eq!(invited, vec!["C1".to_string(), "C2".to_string(), "C3".to_string()]);
    let outcomes = run.outcomes();
    assert_eq!(outcomes.len(), 3);
    assert!(matches!(outcomes[0], InviteOutcome::Invited { .. }));
    assert_eq!(outcomes[1], InviteOutcome::RequestFailed { error: "connection reset".to_string() });
    assert!(matches!(outcomes[2], InviteOutcome::Invited { .. }));
    assert_eq!(run.next_action(), Action::RemoveSource);
}

#[test]
fn cleanup_follows_a_completed_loop_whatever_the_outcomes() {
    let mut run = loaded_run(vec![rec("C1", "a"), rec("C2", "b")]);
    run.on_event(Event::Replied(parsed(false, "C1", "a", "{\"ok\":false}")));
    assert_ne!(run.next_action(), Action::RemoveSource);
    run.on_event(Event::Replied(InviteReply::Malformed { error: "eof".to_string() }));
    assert_eq!(run.next_action(), Action::RemoveSource);
    run.on_event(Event::SourceRemoved);
    assert_eq!(run.next_action(), Action::Finish);
    assert_eq!(run.phase(), Phase::Finished);
}

#[test]
fn no_cleanup_after_a_fatal_error() {
    let mut run = InviteRun::start("U1".to_string(), None);
    run.on_event(Event::Staged);
    run.on_event(Event::LoadFailed(StoreError::Unparsable));
    assert_eq!(run.next_action(), Action::Fail(RunError::Store(StoreError::Unparsable)));
    run.on_event(Event::SourceRemoved);
    run.on_event(Event::TargetsLoaded(vec![rec("C1", "a")]));
    assert_eq!(run.next_action(), Action::Fail(RunError::Store(StoreError::Unparsable)));
}

#[test]
fn empty_staging_goes_straight_to_cleanup() {
    let run = loaded_run(vec![]);
    assert_eq!(run.next_action(), Action::RemoveSource);
}

#[test]
fn gate_rejects_foreign_domain_before_staging() {
    let mut run = InviteRun::start("U1".to_string(), Some("@example.com".to_string()));
    assert_eq!(run.next_action(), Action::LookupEmail);
    run.on_event(Event::EmailFound("mallory@evil.test".to_string()));
    assert_eq!(run.next_action(), Action::Fail(RunError::DomainRejected));
    run.on_event(Event::Staged);
    run.on_event(Event::TargetsLoaded(vec![rec("C1", "a")]));
    assert_eq!(run.next_action(), Action::Fail(RunError::DomainRejected));
}

#[test]
fn gate_admits_matching_domain() {
    let mut run = InviteRun::start("U1".to_string(), Some("@example.com".to_string()));
    run.on_event(Event::EmailFound("alice@example.com".to_string()));
    assert_eq!(run.next_action(), Action::Stage);
    let mut failed = InviteRun::start("U1".to_string(), Some("@example.com".to_string()));
    failed.on_event(Event::EmailLookupFailed);
    assert_eq!(failed.next_action(), Action::Fail(RunError::LookupFailed));
}

#[test]
fn missing_user_stops_before_any_work() {
    let run = InviteRun::start(String::new(), Some("@example.com".to_string()));
    assert_eq!(run.next_action(), Action::Fail(RunError::MissingUser));
    assert_eq!(run.user_id(), "");
}

#[test]
fn stage_and_remove_failures() {
    let mut run = InviteRun::start("U1".to_string(), None);
    run.on_event(Event::StageFailed(StoreError::MalformedRow { index: 2 }));
    assert_eq!(run.next_action(), Action::Fail(RunError::Store(StoreError::MalformedRow { index: 2 })));
    let mut run = loaded_run(vec![]);
    run.on_event(Event::RemoveFailed);
    assert_eq!(run.next_action(), Action::Fail(RunError::RemoveFailed));
}

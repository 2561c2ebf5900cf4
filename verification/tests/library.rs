use telegram_group_scraper::auth::{auth_step, AuthState, PendingToken};
use telegram_group_scraper::client::{run_job, ClientModel, FileSink, GroupModel};
use telegram_group_scraper::export::export_csv;
use telegram_group_scraper::jobs::{Job, Outcome};
use telegram_group_scraper::member::MemberRecord;
use telegram_group_scraper::page::{drain, PageEvent};

const HEADER: &str = "username,first_name,last_name,scam,phone,verified,is_bot,is_support,role\n";

fn member(first_name: &str) -> MemberRecord {
    MemberRecord {
        username: Some(format!("u_{first_name}")),
        first_name: first_name.to_string(),
        last_name: Some("Smith".to_string()),
        scam: false,
        phone: Some("+15551234".to_string()),
        verified: true,
        is_bot: false,
        is_support: false,
        role: "member".to_string(),
    }
}

fn fake_client(authorized: bool) -> ClientModel {
    ClientModel {
        online: true,
        authorized,
        password_required: false,
        accepted_code: "12345".to_string(),
        next_token_id: 0,
        persist_ok: true,
        session_persisted: false,
        groups: vec![GroupModel {
            name: "examplegroup".to_string(),
            total: 3,
            events: vec![
                PageEvent::Item(member("Alice")),
                PageEvent::Item(member("Bob")),
                PageEvent::Item(member("Carol")),
                PageEvent::End,
            ],
        }],
    }
}

fn empty_sink() -> FileSink {
    FileSink { ok: true, writes: Vec::new() }
}

#[test]
fn drain_stops_at_end_signal() {
    // The source claims five elements but signals end-of-sequence after two.
    let events = vec![
        PageEvent::Item(member("Alice")),
        PageEvent::Item(member("Bob")),
        PageEvent::End,
        PageEvent::Item(member("Carol")),
        PageEvent::Item(member("Dave")),
    ];
    let records = drain(&events);
    assert_eq!(records.len(), 2);
    assert_eq!(records[0].first_name, "Alice");
    assert_eq!(records[1].first_name, "Bob");
}

#[test]
fn drain_stops_at_failure() {
    let events = vec![
        PageEvent::Item(member("Alice")),
        PageEvent::Item(member("Bob")),
        PageEvent::Fail,
        PageEvent::Item(member("Carol")),
    ];
    let records = drain(&events);
    assert_eq!(records.len(), 2);
    assert_eq!(records[0].first_name, "Alice");
    assert_eq!(records[1].first_name, "Bob");
}

#[test]
fn drain_of_immediate_end_is_empty() {
    let records = drain(&vec![PageEvent::End]);
    assert!(records.is_empty());
}

#[test]
fn drain_keeps_every_item_before_the_signal() {
    let events = vec![
        PageEvent::Item(member("Alice")),
        PageEvent::Item(member("Bob")),
        PageEvent::Item(member("Carol")),
        PageEvent::End,
    ];
    let records = drain(&events);
    assert_eq!(records.len(), 3);
    assert_eq!(records[2].first_name, "Carol");
}

#[test]
fn export_of_no_records_is_header_only() {
    let out = export_csv(&Vec::new());
    assert_eq!(out, HEADER);
}

#[test]
fn export_renders_one_plain_row() {
    let out = export_csv(&vec![member("Alice")]);
    let expected = format!("{HEADER}u_Alice,Alice,Smith,false,+15551234,true,false,false,member\n");
    assert_eq!(out, expected);
}

#[test]
fn export_renders_absent_fields_empty() {
    let record = MemberRecord {
        username: None,
        first_name: "Alice".to_string(),
        last_name: None,
        scam: true,
        phone: None,
        verified: false,
        is_bot: true,
        is_support: true,
        role: "admin".to_string(),
    };
    let out = export_csv(&vec![record]);
    let expected = format!("{HEADER},Alice,,true,,false,true,true,admin\n");
    assert_eq!(out, expected);
}

#[test]
fn export_quotes_special_fields() {
    let record = MemberRecord {
        username: Some("a\nb".to_string()),
        first_name: "Ann,Lee".to_string(),
        last_name: None,
        scam: false,
        phone: None,
        verified: false,
        is_bot: false,
        is_support: false,
        role: "the \"boss\"".to_string(),
    };
    let out = export_csv(&vec![record]);
    let expected = format!("{HEADER}\"a\nb\",\"Ann,Lee\",,false,,false,false,false,\"the \"\"boss\"\"\"\n");
    assert_eq!(out, expected);
}

#[test]
fn export_keeps_text_outside_the_basic_range() {
    let record = MemberRecord {
        username: None,
        first_name: "Žofia".to_string(),
        last_name: Some("Müller, née Đặng".to_string()),
        scam: false,
        phone: None,
        verified: false,
        is_bot: false,
        is_support: false,
        role: "člen".to_string(),
    };
    let out = export_csv(&vec![record]);
    let expected = format!("{HEADER},Žofia,\"Müller, née Đặng\",false,,false,false,false,člen\n");
    assert_eq!(out, expected);
}

#[test]
fn export_is_idempotent() {
    let records = vec![member("Alice"), member("Bob")];
    let first = export_csv(&records);
    let second = export_csv(&records);
    assert_eq!(first, second);

    // Re-running the export job truncates and rewrites the same file with
    // byte-identical content.
    let mut client = fake_client(true);
    let mut sink = empty_sink();
    let job = Job::ExportMembers("examplegroup".to_string(), vec![member("Alice")]);
    let out1 = run_job(&mut client, &mut sink, job);
    let job = Job::ExportMembers("examplegroup".to_string(), vec![member("Alice")]);
    let out2 = run_job(&mut client, &mut sink, job);
    assert_eq!(out1, Outcome::Exported("examplegroup".to_string(), true));
    assert_eq!(out2, Outcome::Exported("examplegroup".to_string(), true));
    assert_eq!(sink.writes.len(), 2);
    assert_eq!(sink.writes[0].name, sink.writes[1].name);
    assert_eq!(sink.writes[0].content, sink.writes[1].content);
}

#[test]
fn export_failure_when_sink_cannot_open() {
    let mut client = fake_client(true);
    let mut sink = FileSink { ok: false, writes: Vec::new() };
    let job = Job::ExportMembers("examplegroup".to_string(), vec![member("Alice")]);
    let out = run_job(&mut client, &mut sink, job);
    assert_eq!(out, Outcome::Exported("examplegroup".to_string(), false));
    assert!(sink.writes.is_empty());
}

#[test]
fn login_and_fetch_end_to_end() {
    // An unauthenticated client: requesting a code yields a token.
    let mut client = fake_client(false);
    let mut sink = empty_sink();
    let out = run_job(&mut client, &mut sink, Job::RequestCode("+15550001111".to_string()));
    let token = match out {
        Outcome::CodeRequested(Some(Some(token))) => token,
        other => panic!("expected a token, got {other:?}"),
    };

    // Submitting the accepted code against the same client signs in.
    let out = run_job(&mut client, &mut sink, Job::SubmitCode(token, "12345".to_string()));
    assert_eq!(out, Outcome::CodeSubmitted(Some(())));
    assert!(client.authorized);

    // A fetch against the three-member page source returns exactly the
    // three records, in page order.
    let out = run_job(&mut client, &mut sink, Job::FetchMembers("examplegroup".to_string()));
    match out {
        Outcome::MembersFetched(name, Some((records, total))) => {
            assert_eq!(name, "examplegroup");
            assert_eq!(total, 3);
            assert_eq!(records.len(), 3);
            assert_eq!(records[0].first_name, "Alice");
            assert_eq!(records[1].first_name, "Bob");
            assert_eq!(records[2].first_name, "Carol");
        }
        other => panic!("expected fetched members, got {other:?}"),
    }
}

#[test]
fn request_code_when_already_authorized_needs_no_token() {
    let mut client = fake_client(true);
    let mut sink = empty_sink();
    let out = run_job(&mut client, &mut sink, Job::RequestCode("+15550001111".to_string()));
    assert_eq!(out, Outcome::CodeRequested(Some(None)));

    // The caller's state machine moves straight to Authenticated.
    let next = auth_step(AuthState::AwaitingPhoneNumber, &out);
    assert_eq!(next, AuthState::Authenticated);
}

#[test]
fn request_code_fails_while_offline() {
    let mut client = fake_client(false);
    client.online = false;
    let mut sink = empty_sink();
    let out = run_job(&mut client, &mut sink, Job::RequestCode("+15550001111".to_string()));
    assert_eq!(out, Outcome::CodeRequested(None));

    // A failed step leaves the caller where it was.
    let next = auth_step(AuthState::AwaitingPhoneNumber, &out);
    assert_eq!(next, AuthState::AwaitingPhoneNumber);
}

#[test]
fn wrong_code_is_rejected_and_state_kept() {
    let mut client = fake_client(false);
    let mut sink = empty_sink();
    let out = run_job(&mut client, &mut sink, Job::RequestCode("+15550001111".to_string()));
    let token = match out {
        Outcome::CodeRequested(Some(Some(token))) => token,
        other => panic!("expected a token, got {other:?}"),
    };
    let out = run_job(&mut client, &mut sink, Job::SubmitCode(token, "99999".to_string()));
    assert_eq!(out, Outcome::CodeSubmitted(None));
    assert!(!client.authorized);
    let next = auth_step(AuthState::AwaitingCode(token), &out);
    assert_eq!(next, AuthState::AwaitingCode(token));
}

#[test]
fn forged_token_is_rejected() {
    let mut client = fake_client(false);
    let mut sink = empty_sink();
    let token = PendingToken { id: 7 };
    let out = run_job(&mut client, &mut sink, Job::SubmitCode(token, "12345".to_string()));
    assert_eq!(out, Outcome::CodeSubmitted(None));
    assert!(!client.authorized);
}

#[test]
fn fetch_of_unknown_group_reports_absence() {
    let mut client = fake_client(true);
    let mut sink = empty_sink();
    let out = run_job(&mut client, &mut sink, Job::FetchMembers("nosuchgroup".to_string()));
    assert_eq!(out, Outcome::MembersFetched("nosuchgroup".to_string(), None));
}

#[test]
fn fetch_trusts_end_signal_over_stale_total() {
    // The source claims one hundred members but ends after two: the fetch
    // returns the two records and passes the stale count on as a hint.
    let mut client = fake_client(true);
    client.groups[0].total = 100;
    client.groups[0].events = vec![
        PageEvent::Item(member("Alice")),
        PageEvent::Item(member("Bob")),
        PageEvent::End,
    ];
    let mut sink = empty_sink();
    let out = run_job(&mut client, &mut sink, Job::FetchMembers("examplegroup".to_string()));
    match out {
        Outcome::MembersFetched(_, Some((records, total))) => {
            assert_eq!(records.len(), 2);
            assert_eq!(total, 100);
        }
        other => panic!("expected fetched members, got {other:?}"),
    }
}

#[test]
fn session_persistence_failure_does_not_block_sign_in() {
    let mut client = fake_client(false);
    client.persist_ok = false;
    let mut sink = empty_sink();
    let out = run_job(&mut client, &mut sink, Job::RequestCode("+15550001111".to_string()));
    let token = match out {
        Outcome::CodeRequested(Some(Some(token))) => token,
        other => panic!("expected a token, got {other:?}"),
    };
    let out = run_job(&mut client, &mut sink, Job::SubmitCode(token, "12345".to_string()));
    assert_eq!(out, Outcome::CodeSubmitted(Some(())));
    assert!(client.authorized);
    assert!(!client.session_persisted);
}

#[test]
fn issued_tokens_are_distinct() {
    let mut client = fake_client(false);
    let mut sink = empty_sink();
    let out1 = run_job(&mut client, &mut sink, Job::RequestCode("+15550001111".to_string()));
    let out2 = run_job(&mut client, &mut sink, Job::RequestCode("+15550001111".to_string()));
    let t1 = match out1 {
        Outcome::CodeRequested(Some(Some(token))) => token,
        other => panic!("expected a token, got {other:?}"),
    };
    let t2 = match out2 {
        Outcome::CodeRequested(Some(Some(token))) => token,
        other => panic!("expected a token, got {other:?}"),
    };
    assert_ne!(t1, t2);
}

#[test]
fn auth_step_walks_the_login_flow() {
    let token = PendingToken { id: 0 };
    let got_token = Outcome::CodeRequested(Some(Some(token)));
    let state = auth_step(AuthState::AwaitingPhoneNumber, &got_token);
    assert_eq!(state, AuthState::AwaitingCode(token));

    let signed_in = Outcome::CodeSubmitted(Some(()));
    let state = auth_step(state, &signed_in);
    assert_eq!(state, AuthState::Authenticated);
}

#[test]
fn auth_step_ignores_unrelated_outcomes() {
    let fetched = Outcome::MembersFetched("examplegroup".to_string(), None);
    let state = auth_step(AuthState::AwaitingPhoneNumber, &fetched);
    assert_eq!(state, AuthState::AwaitingPhoneNumber);

    let exported = Outcome::Exported("examplegroup".to_string(), true);
    let state = auth_step(AuthState::Authenticated, &exported);
    assert_eq!(state, AuthState::Authenticated);
}

#[test]
fn row_fields_keep_the_fixed_order() {
    let fields = member("Alice").row_fields();
    let expected = vec![
        "u_Alice", "Alice", "Smith", "false", "+15551234", "true", "false", "false", "member",
    ];
    assert_eq!(fields, expected);
}

#[test]
fn cloned_records_carry_the_same_content() {
    let original = member("Alice");
    let copy = original.clone();
    assert_eq!(copy, original);
}

use level_engine::level::{assemble_level, parse_level_file, Level};
use level_engine::script::{BindingError, MetadataOutcome};
use level_engine::session::{
    bindings, conclude, evaluate, publish_captures, CaptureOutcome, ChangeKind, Directive, Event,
    Phase, Session, SessionError,
};
use mlua::Lua;

fn level(completion: &str, captures: &[(&str, &str)]) -> Level {
    let outcome = MetadataOutcome::Declared {
        completion: completion.to_string(),
        captures: Some(captures.iter().map(|(n, p)| (n.to_string(), p.to_string())).collect()),
    };
    assemble_level("Edit the file.".to_string(), outcome).unwrap()
}

fn instruct(instructions: &str, source_id: Option<&str>) -> Directive {
    Directive::Instruct {
        instructions: instructions.to_string(),
        source_id: source_id.map(|id| id.to_string()),
    }
}

fn watching(level: Level) -> Session {
    let mut session = Session::new(level);
    assert_eq!(session.step(Event::Start), instruct("Edit the file.", None));
    assert_eq!(session.phase(), Phase::Watching);
    session
}

fn no_match(name: &str, pattern: &str) -> CaptureOutcome {
    CaptureOutcome::NoMatch { name: name.to_string(), pattern: pattern.to_string() }
}

fn content(text: &str) -> Event {
    Event::Content(text.to_string())
}

fn bound(name: &str, value: &str) -> CaptureOutcome {
    CaptureOutcome::Bound { name: name.to_string(), value: value.to_string() }
}

fn global(lua: &Lua, name: &str) -> Option<String> {
    lua.globals().get::<Option<String>>(name).unwrap()
}

#[test]
fn a_session_begins_by_instructing() {
    let mut session = Session::new(level("done", &[]));
    assert_eq!(session.phase(), Phase::Instructing);
    assert_eq!(session.level().instructions(), "Edit the file.");
    assert_eq!(session.step(Event::Changed(ChangeKind::Modify)), Directive::Wait);
    assert_eq!(session.step(content("done")), Directive::Wait);
    assert_eq!(session.phase(), Phase::Instructing);
    assert_eq!(session.step(Event::Start), instruct("Edit the file.", None));
    assert_eq!(session.phase(), Phase::Watching);
}

#[test]
fn the_instructions_to_write_are_those_of_the_level() {
    let level = level("done", &[]).with_source_id("content/welcome.txt".to_string());
    let mut session = Session::new(level);
    assert_eq!(
        session.step(Event::Start),
        instruct("Edit the file.", Some("content/welcome.txt"))
    );
}

#[test]
fn only_a_modification_has_the_target_read() {
    let mut session = watching(level("done", &[]));
    assert_eq!(session.step(Event::Changed(ChangeKind::Modify)), Directive::ReadTarget);
    let others = [
        ChangeKind::Any,
        ChangeKind::Access,
        ChangeKind::Create,
        ChangeKind::Remove,
        ChangeKind::Other,
    ];
    for kind in others {
        assert_eq!(session.step(Event::Changed(kind)), Directive::Wait);
        assert_eq!(session.phase(), Phase::Watching);
    }
}

#[test]
fn a_line_that_matches_completes_the_level() {
    let mut session = watching(level("done", &[]));
    assert_eq!(session.step(content("done")), Directive::Complete(vec![]));
    assert_eq!(session.phase(), Phase::Completed);
}

#[test]
fn any_single_line_is_enough() {
    let mut session = watching(level("^done$", &[]));
    assert_eq!(session.step(content("first\r\ndone\r\nlast\r\n")), Directive::Complete(vec![]));
    assert_eq!(session.phase(), Phase::Completed);
}

#[test]
fn content_that_does_not_match_keeps_the_session_watching() {
    let mut session = watching(level("^done$", &[]));
    assert_eq!(session.step(content("not done")), Directive::KeepTrying);
    assert_eq!(session.phase(), Phase::Watching);
    assert_eq!(session.step(content("do\nne")), Directive::KeepTrying);
    assert_eq!(session.phase(), Phase::Watching);
    assert_eq!(session.step(content("done")), Directive::Complete(vec![]));
}

#[test]
fn blank_content_is_retried_and_never_evaluated() {
    for text in ["", " ", "\n", " \t\r\n\n", "\u{a0}\u{3000}"] {
        for pattern in ["done", "", "^$", r"^\s*$", ".*"] {
            let mut session = watching(level(pattern, &[("v", "(.*)")]));
            assert_eq!(session.step(content(text)), Directive::RetryEmptyFile);
            assert_eq!(session.phase(), Phase::EmptyFileRetry);
        }
    }
}

#[test]
fn a_retry_goes_on_with_the_same_level() {
    let mut session = watching(level("done", &[]));
    assert_eq!(session.step(content("  ")), Directive::RetryEmptyFile);
    assert_eq!(session.phase(), Phase::EmptyFileRetry);
    assert_eq!(session.level().completion().pattern(), "done");
    assert_eq!(session.step(Event::Changed(ChangeKind::Modify)), Directive::ReadTarget);
    assert_eq!(session.phase(), Phase::Watching);
    assert_eq!(session.step(content("  ")), Directive::RetryEmptyFile);
    assert_eq!(session.step(content("done")), Directive::Complete(vec![]));
    assert_eq!(session.phase(), Phase::Completed);
}

#[test]
fn a_watch_fault_is_reported_and_the_session_goes_on() {
    let mut session = watching(level("done", &[]));
    assert_eq!(
        session.step(Event::WatchFault("queue overflow".to_string())),
        Directive::ReportFault("queue overflow".to_string())
    );
    assert_eq!(session.phase(), Phase::Watching);
    assert_eq!(session.step(content("done")), Directive::Complete(vec![]));
}

#[test]
fn a_closed_channel_is_fatal() {
    let mut session = watching(level("done", &[]));
    assert_eq!(session.step(Event::ChannelClosed), Directive::Abort(SessionError::Watch));
    assert_eq!(session.phase(), Phase::WatchError);
    assert_eq!(session.step(content("done")), Directive::Abort(SessionError::Watch));
    assert_eq!(session.step(Event::Start), Directive::Abort(SessionError::Watch));
    assert_eq!(session.phase(), Phase::WatchError);
}

#[test]
fn a_subscription_that_cannot_be_established_is_fatal() {
    let mut session = watching(level("done", &[]));
    assert_eq!(
        session.step(Event::SetupFailed("no inotify instance".to_string())),
        Directive::Abort(SessionError::WatchSetup("no inotify instance".to_string()))
    );
    assert_eq!(session.phase(), Phase::WatchError);
}

#[test]
fn a_target_that_cannot_be_written_or_read_is_fatal() {
    let mut session = watching(level("done", &[]));
    assert_eq!(session.step(Event::Changed(ChangeKind::Modify)), Directive::ReadTarget);
    assert_eq!(
        session.step(Event::TargetFailed("permission denied".to_string())),
        Directive::Abort(SessionError::Io("permission denied".to_string()))
    );
    assert_eq!(session.phase(), Phase::WatchError);
}

#[test]
fn failures_before_the_start_are_ignored() {
    let mut session = Session::new(level("done", &[]));
    assert_eq!(session.step(Event::ChannelClosed), Directive::Wait);
    assert_eq!(session.step(Event::SetupFailed("early".to_string())), Directive::Wait);
    assert_eq!(session.step(Event::TargetFailed("early".to_string())), Directive::Wait);
    assert_eq!(session.step(Event::WatchFault("early".to_string())), Directive::Wait);
    assert_eq!(session.phase(), Phase::Instructing);
}

#[test]
fn a_completed_session_stays_completed() {
    let mut session = watching(level("done", &[("v", "(d)")]));
    assert_eq!(session.step(content("done")), Directive::Complete(vec![bound("v", "d")]));
    assert_eq!(session.step(content("nothing")), Directive::Complete(vec![]));
    assert_eq!(session.step(Event::ChannelClosed), Directive::Complete(vec![]));
    assert_eq!(session.phase(), Phase::Completed);
}

#[test]
fn a_second_start_changes_nothing() {
    let mut session = watching(level("done", &[]));
    assert_eq!(session.step(Event::Start), Directive::Wait);
    assert_eq!(session.phase(), Phase::Watching);
}

#[test]
fn the_first_matching_line_determines_the_capture() {
    let level = level("ready", &[("v", r"(\w+)=ok")]);
    let d = evaluate(&level, "zero=no\none=ok\ntwo=ok\nready\n");
    assert_eq!(d, Directive::Complete(vec![bound("v", "one")]));
}

#[test]
fn each_capture_has_its_outcome_in_the_order_of_declaration() {
    let level = level(
        "ready",
        &[("missing", "(never)"), ("plain", "ready"), ("word", r"^(\w+)$"), ("opt", "(x)?ready")],
    );
    let d = evaluate(&level, "two words\nready");
    assert_eq!(
        d,
        Directive::Complete(vec![
            no_match("missing", "(never)"),
            CaptureOutcome::EmptyGroup { name: "plain".to_string() },
            bound("word", "ready"),
            CaptureOutcome::EmptyGroup { name: "opt".to_string() },
        ])
    );
}

#[test]
fn a_capture_without_a_match_does_not_prevent_completion() {
    let lua = Lua::new();
    let mut session = watching(level("ready", &[("v", r"(\w+)=ok")]));
    let d = session.advance(&lua, content("ready"));
    assert_eq!(d, Directive::Complete(vec![no_match("v", r"(\w+)=ok")]));
    assert_eq!(session.phase(), Phase::Completed);
    assert_eq!(global(&lua, "v"), None);
}

#[test]
fn captures_are_not_looked_for_before_completion() {
    let lua = Lua::new();
    let mut session = watching(level("ready", &[("v", r"(\w+)=ok")]));
    let d = session.advance(&lua, content("name=ok"));
    assert_eq!(d, Directive::KeepTrying);
    assert_eq!(global(&lua, "v"), None);
}

#[test]
fn evaluation_does_not_depend_on_the_phase() {
    let level = level("done", &[]);
    assert_eq!(evaluate(&level, ""), Directive::RetryEmptyFile);
    assert_eq!(evaluate(&level, "   \n"), Directive::RetryEmptyFile);
    assert_eq!(evaluate(&level, "almost"), Directive::KeepTrying);
    assert_eq!(evaluate(&level, "well done"), Directive::Complete(vec![]));
}

#[test]
fn bound_values_are_published() {
    let lua = Lua::new();
    let outcomes = vec![
        bound("first", "1"),
        no_match("second", "(2)"),
        CaptureOutcome::EmptyGroup { name: "third".to_string() },
        bound("fourth", ""),
        bound("first", "2"),
    ];
    assert!(publish_captures(&lua, &outcomes).is_ok());
    assert_eq!(global(&lua, "first"), Some("2".to_string()));
    assert_eq!(global(&lua, "second"), None);
    assert_eq!(global(&lua, "third"), None);
    assert_eq!(global(&lua, "fourth"), Some(String::new()));
}

#[test]
fn a_definition_is_instructed_and_completed() {
    let lua = Lua::new();
    let level = parse_level_file(&lua, "completion = \"done\"\n---\nDo the thing.").unwrap();
    let mut session = Session::new(level);
    assert_eq!(session.advance(&lua, Event::Start), instruct("Do the thing.", None));
    assert_eq!(session.level().instructions(), "Do the thing.");
    let d = session.advance(&lua, Event::Changed(ChangeKind::Modify));
    assert_eq!(d, Directive::ReadTarget);
    let d = session.advance(&lua, content("done"));
    assert_eq!(d, Directive::Complete(vec![]));
    assert_eq!(session.phase(), Phase::Completed);
}

#[test]
fn a_captured_value_becomes_a_global() {
    let lua = Lua::new();
    let text = "capture = { name = \"(\\\\w+)=ok\" }\ncompletion = \"ready\"\n---\nSay who is ok.";
    let level = parse_level_file(&lua, text).unwrap();
    let mut session = Session::new(level);
    assert_eq!(session.advance(&lua, Event::Start), instruct("Say who is ok.", None));
    assert_eq!(global(&lua, "name"), None);
    let d = session.advance(&lua, content("name=ok\nready"));
    assert_eq!(d, Directive::Complete(vec![bound("name", "name")]));
    assert_eq!(global(&lua, "name"), Some("name".to_string()));
}

#[test]
fn the_first_group_is_the_value_that_is_bound() {
    let lua = Lua::new();
    let text = "capture = { name = \"\\\\w+=(\\\\w+)\" }\ncompletion = \"ready\"\n---\nGo.";
    let level = parse_level_file(&lua, text).unwrap();
    let mut session = Session::new(level);
    assert_eq!(session.advance(&lua, Event::Start), instruct("Go.", None));
    let d = session.advance(&lua, content("name=ok\nready"));
    assert_eq!(d, Directive::Complete(vec![bound("name", "ok")]));
    assert_eq!(global(&lua, "name"), Some("ok".to_string()));
}

#[test]
fn a_capture_is_visible_to_the_next_level() {
    let lua = Lua::new();
    let first = parse_level_file(&lua, "completion = 'ready'\ncapture = { who = '^I am (\\\\w+)$' }\n---\nOne.").unwrap();
    let mut session = Session::new(first);
    session.advance(&lua, Event::Start);
    let d = session.advance(&lua, content("I am Ada\nready"));
    assert_eq!(d, Directive::Complete(vec![bound("who", "Ada")]));
    let second = parse_level_file(&lua, "completion = 'hello ' .. who\ncapture = nil\n---\nTwo.").unwrap();
    assert_eq!(second.completion().pattern(), "hello Ada");
    let mut session = Session::new(second);
    session.advance(&lua, Event::Start);
    assert_eq!(session.advance(&lua, content("hello Bob")), Directive::KeepTrying);
    assert_eq!(session.advance(&lua, content("hello Ada")), Directive::Complete(vec![]));
}

#[test]
fn a_write_that_the_engine_refuses_is_an_error() {
    let lua = Lua::new();
    let text = "completion = 'ready'\ncapture = { v = '(r)' }\n\
        setmetatable(_G, { __newindex = function(t, k, v) error('globals are locked') end })\n\
        ---\nGo.";
    let level = parse_level_file(&lua, text).unwrap();
    let mut session = Session::new(level);
    assert_eq!(session.advance(&lua, Event::Start), instruct("Go.", None));
    assert_eq!(session.advance(&lua, content("not yet")), Directive::KeepTrying);
    match session.advance(&lua, content("ready")) {
        Directive::Abort(SessionError::Binding { name, message }) => {
            assert_eq!(name, "v");
            assert!(message.contains("globals are locked"), "{}", message);
        }
        other => panic!("{:?}", other),
    }
    assert_eq!(session.phase(), Phase::Completed);
}

#[test]
fn publishing_stops_at_the_first_refusal() {
    let lua = Lua::new();
    lua.load(
        "setmetatable(_G, { __newindex = function(t, k, v)\n\
            if k == 'b' then error('no b') end\n\
            rawset(t, k, v)\n\
        end })",
    )
    .exec()
    .unwrap();
    let outcomes = vec![bound("a", "1"), bound("b", "2"), bound("c", "3")];
    let error = publish_captures(&lua, &outcomes).unwrap_err();
    assert_eq!(error.name, "b");
    assert_eq!(global(&lua, "a"), Some("1".to_string()));
    assert_eq!(global(&lua, "b"), None);
    assert_eq!(global(&lua, "c"), None);
}

#[test]
fn nothing_to_bind_cannot_fail() {
    let lua = Lua::new();
    lua.load("setmetatable(_G, { __newindex = function() error('locked') end })").exec().unwrap();
    let outcomes = vec![
        no_match("a", "(a)"),
        CaptureOutcome::EmptyGroup { name: "b".to_string() },
    ];
    assert!(publish_captures(&lua, &outcomes).is_ok());
    assert!(publish_captures(&lua, &vec![]).is_ok());
}

#[test]
fn a_refused_write_turns_completion_into_giving_up() {
    let refused = BindingError { name: "v".to_string(), message: "locked".to_string() };
    let giving_up = Directive::Abort(SessionError::Binding {
        name: "v".to_string(),
        message: "locked".to_string(),
    });
    let complete = Directive::Complete(vec![bound("v", "1")]);
    assert_eq!(conclude(complete.clone(), Ok(())), complete);
    assert_eq!(conclude(complete, Err(refused.clone())), giving_up);
    assert_eq!(conclude(Directive::KeepTrying, Ok(())), Directive::KeepTrying);
    assert_eq!(conclude(Directive::KeepTrying, Err(refused.clone())), Directive::KeepTrying);
    assert_eq!(conclude(Directive::ReadTarget, Err(refused)), Directive::ReadTarget);
}

#[test]
fn the_text_to_write_is_the_instructions_byte_for_byte() {
    let lua = Lua::new();
    let text = "completion = 'done'\n---\n\n  Liné one.\r\n\tline two \u{1f600}\n\n";
    let level = parse_level_file(&lua, text).unwrap();
    let mut session = Session::new(level);
    let written = match session.step(Event::Start) {
        Directive::Instruct { instructions, .. } => instructions,
        other => panic!("{:?}", other),
    };
    assert_eq!(written.as_bytes(), "Liné one.\r\n\tline two \u{1f600}".as_bytes());
    assert_eq!(written.as_bytes(), session.level().instructions().as_bytes());
}

#[test]
fn only_bound_captures_ask_for_a_write() {
    let outcomes = vec![
        bound("first", "1"),
        no_match("second", "(2)"),
        CaptureOutcome::EmptyGroup { name: "third".to_string() },
        bound("fourth", ""),
        bound("first", "2"),
    ];
    let expected = vec![
        ("first".to_string(), "1".to_string()),
        ("fourth".to_string(), String::new()),
        ("first".to_string(), "2".to_string()),
    ];
    assert_eq!(bindings(&outcomes), expected);
    assert!(bindings(&vec![no_match("a", "(a)")]).is_empty());
    assert!(bindings(&vec![]).is_empty());
}

#[test]
fn the_writes_are_made_in_the_order_of_the_outcomes() {
    let lua = Lua::new();
    lua.load(
        "order = ''\n\
        setmetatable(_G, { __newindex = function(t, k, v)\n\
            rawset(t, 'order', rawget(t, 'order') .. k .. '=' .. v .. ';')\n\
        end })",
    )
    .exec()
    .unwrap();
    let outcomes = vec![bound("z", "1"), no_match("m", "(m)"), bound("a", "2"), bound("k", "3")];
    assert!(publish_captures(&lua, &outcomes).is_ok());
    assert_eq!(global(&lua, "order"), Some("z=1;a=2;k=3;".to_string()));
}

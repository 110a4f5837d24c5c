//! Whole reviews, from the command line to the released text, with a child, a
//! clock and a file system that are played by the test.

use std::collections::VecDeque;

use pee::args::parse;
use pee::config::{Config, Environment};
use pee::inject::{Ctx, Report, Stroke, Task};
use pee::lifecycle::{within_deadline, Emitter, Outcome, Phase};
use pee::processes::{descendant_processes, parse_table};
use pee::session::{Action, Event, Session};
use pee::startup::{outcome_code, plan, Plan};
use pee::text::OsText;
use pee::time::Duration;
use pee::transcript::{run_observed, Observation, Step, Tailer};

const CHECKING: &str = "{\"type\":\"assistant\",\"message\":{\"type\":\"message\",\"stop_reason\":\"tool_use\",\"content\":[{\"type\":\"text\",\"text\":\"Checking\"},{\"type\":\"tool_use\",\"name\":\"Read\"}]}}\n";
const COMPLETED: &str = "{\"type\":\"assistant\",\"message\":{\"type\":\"message\",\"stop_reason\":\"end_turn\",\"content\":[{\"type\":\"text\",\"text\":\"Completed review\"}]}}\n";

const ROOT: u32 = 100;
const DESCENDANT: u32 = 101;

struct World {
    mode: String,
    with_descendant: bool,
    now_ms: u64,
    ctx: Ctx,
    typed: String,
    announced: bool,
    screen_us: u64,
    tailer: Tailer,
    found: bool,
    tail_done: bool,
    written: bool,
    unread: VecDeque<String>,
    observations: VecDeque<Observation>,
    sentinel: bool,
    child_alive: bool,
    descendant_alive: bool,
    descendant_started: bool,
    stop: bool,
}

impl World {
    fn now(&self) -> Duration {
        Duration::from_millis(self.now_ms)
    }

    fn tick(&mut self, ms: u64) {
        for _ in 0..ms / 10 {
            self.now_ms += 10;
            if self.mode == "never-quiescent" && self.child_alive {
                self.screen_us = self.now_ms * 1_000;
            }
            self.inject();
            self.tail();
        }
    }

    fn inject(&mut self) {
        loop {
            let report = match self.ctx.task {
                Task::WatchScreen => Report::Screen {
                    stopped: self.stop,
                    last_us: self.screen_us,
                    now_us: self.now_ms * 1_000,
                },
                Task::TypePrompt | Task::TypeExit => {
                    for stroke in self.ctx.strokes() {
                        if let Stroke::Write(text) = stroke {
                            self.typed.push_str(&text);
                        }
                    }
                    self.child_reads();
                    Report::Typed
                }
                Task::Announce => {
                    self.announced = true;
                    Report::Announced
                }
                Task::WatchSentinel => Report::Sentinel {
                    exists: self.sentinel,
                    stopped: self.stop,
                },
                Task::Done => return,
            };
            if pee::inject::run(&mut self.ctx, report) {
                return;
            }
        }
    }

    fn child_reads(&mut self) {
        if self.typed == "review this\r" {
            match self.mode.as_str() {
                "no-output" => return,
                "exit-early" => {
                    self.child_alive = false;
                    return;
                }
                _ => {}
            }
            self.written = true;
            self.unread.push_back(CHECKING.to_owned());
            self.unread.push_back(COMPLETED.to_owned());
            if self.with_descendant {
                self.descendant_alive = true;
                self.descendant_started = true;
            }
            match self.mode.as_str() {
                "exit-after-output" => self.child_alive = false,
                "normal" | "ignored-exit" => self.sentinel = true,
                _ => {}
            }
        } else if self.typed == "review this\r/exit\r\n" && self.mode == "normal" {
            self.child_alive = false;
        }
    }

    fn tail(&mut self) {
        if self.tail_done {
            return;
        }
        if !self.found {
            match self.tailer.searched(self.written, self.stop) {
                Step::Read => self.found = true,
                Step::Finish => self.tail_done = true,
                _ => {}
            }
        }
        while self.found && !self.tail_done {
            let chunk = self.unread.pop_front().unwrap_or_default();
            match self.tailer.tail(&chunk, self.stop, Duration::from_millis(self.now_ms)) {
                Step::Read => {}
                Step::Deliver(observation) => self.observations.push_back(observation),
                Step::Finish => self.tail_done = true,
                Step::ReadAgain => return,
                other => panic!("{other:?}"),
            }
        }
    }

    fn table(&self) -> String {
        let mut table = format!("{ROOT} 1\n");
        if self.descendant_alive {
            table.push_str(&format!("{DESCENDANT} {ROOT}\n"));
        }
        table
    }

    fn alive(&self, pid: u32) -> bool {
        (pid == ROOT && self.child_alive) || (pid == DESCENDANT && self.descendant_alive)
    }

    fn perform(&mut self, action: Action, known: &[u32]) -> Event {
        match action {
            Action::CheckPrompt => {
                let ready = self.announced;
                self.announced = false;
                Event::Prompt(ready)
            }
            Action::AwaitPrompt => {
                if !self.announced {
                    self.tick(50);
                }
                let ready = self.announced;
                self.announced = false;
                Event::Prompt(ready)
            }
            Action::Receive => Event::Observation(self.observations.pop_front()),
            Action::ListDescendants => {
                if self.mode == "cleanup-probe-failure" {
                    return Event::Descendants(None);
                }
                let table = parse_table(&self.table()).unwrap();
                Event::Descendants(Some(descendant_processes(ROOT, &table)))
            }
            Action::PollChild => Event::Exit(!self.child_alive),
            Action::ProbeTree => {
                Event::Tree(!self.alive(ROOT) && known.iter().all(|pid| !self.alive(*pid)))
            }
            Action::SignalStop => {
                self.stop = true;
                self.tick(120);
                Event::Settled
            }
            Action::Terminate => {
                self.child_alive = false;
                if known.contains(&DESCENDANT) {
                    self.descendant_alive = false;
                }
                Event::Terminated(true)
            }
            Action::Sleep => {
                self.tick(20);
                Event::Woke
            }
            Action::Finish => unreachable!(),
        }
    }
}

struct Output {
    success: bool,
    stdout: String,
}

fn invoke(mode: &str, descendant: bool, quiesce_ms: u64) -> (Output, String, Duration, Option<bool>) {
    let argv = [
        "--second-opinion-run-id",
        "run-test",
        "--second-opinion-lifecycle",
        "/tmp/lifecycle.jsonl",
        "--second-opinion-inference-seconds",
        "2",
        "--second-opinion-normal-cleanup-seconds",
        "1",
        "--second-opinion-forced-cleanup-seconds",
        "1",
        "-p",
        "review this",
    ];
    let parsed = parse(argv.iter().map(|arg| OsText::from_text(arg)).collect()).unwrap();
    assert_eq!(plan(&parsed), Plan::Run);
    let config = Config::build(
        parsed,
        Environment {
            wrapper: "tool-pee".to_owned(),
            temp_dir: OsText::from_text("/tmp"),
            char_delay: Some(OsText::from_text("0")),
            quiesce: Some(OsText::from_text(&quiesce_ms.to_string())),
        },
    );
    let policy = config.second_opinion.unwrap();
    let mut world = World {
        mode: mode.to_owned(),
        with_descendant: descendant,
        now_ms: 0,
        ctx: Ctx::new(config.inject_payload.unwrap(), config.char_delay, config.quiesce),
        typed: String::new(),
        announced: false,
        screen_us: 1,
        tailer: run_observed(),
        found: false,
        tail_done: false,
        written: false,
        unread: VecDeque::new(),
        observations: VecDeque::new(),
        sentinel: false,
        child_alive: true,
        descendant_alive: false,
        descendant_started: false,
        stop: false,
    };
    let mut session = Session::start(&policy, world.now());
    let mut lines: Vec<String> = session.lines(0);
    while session.action() != Action::Finish {
        let event = world.perform(session.action(), session.known());
        session.step(event, world.now());
        lines.extend(session.lines(lines.len()));
        assert!(world.now_ms < 60_000);
    }
    let outcome = session.outcome().unwrap();
    let stdout = match session.into_review() {
        Some(text) => format!("{text}\n"),
        None => String::new(),
    };
    let output = Output {
        success: outcome_code(outcome) == 0,
        stdout,
    };
    let survivor = if world.descendant_started {
        Some(world.descendant_alive)
    } else {
        None
    };
    (output, lines.concat(), world.now(), survivor)
}

fn under(elapsed: Duration, secs: u64) -> bool {
    elapsed.nanos < Duration::from_secs(secs).nanos
}

#[test]
fn normal_hook_completion_returns_one_review_and_clean_outcome() {
    let (output, records, elapsed, _) = invoke("normal", false, 20);
    assert!(output.success, "lifecycle={records}");
    assert_eq!(output.stdout, "Completed review\n");
    assert!(records.contains("\"phase\":\"prompt_submitted\""));
    assert!(records.contains("\"phase\":\"output_complete\""));
    assert!(records.contains("\"outcome\":\"completed_clean\""));
    assert!(under(elapsed, 3));
}

#[test]
fn missing_hook_forces_cleanup_and_preserves_completed_review() {
    let (output, records, elapsed, _) = invoke("missing-hook", false, 20);
    assert!(output.success, "lifecycle={records}");
    assert_eq!(output.stdout, "Completed review\n");
    assert!(records.contains("\"outcome\":\"completed_forced_cleanup\""));
    assert!(under(elapsed, 5));
}

#[test]
fn silent_inference_is_bounded_and_returns_no_review() {
    let (output, records, elapsed, _) = invoke("no-output", false, 20);
    assert!(!output.success);
    assert!(output.stdout.is_empty());
    assert!(records.contains("\"reason\":\"inference_deadline\""));
    assert!(records.contains("\"outcome\":\"failed_incomplete\""));
    assert!(under(elapsed, 5));
}

#[test]
fn pre_prompt_wait_is_cancelled_by_launch_relative_deadline() {
    let (output, records, elapsed, _) = invoke("never-quiescent", false, 5_000);
    assert!(!output.success);
    assert!(output.stdout.is_empty());
    assert!(
        !records.contains("\"phase\":\"prompt_submitted\""),
        "lifecycle={records}"
    );
    assert!(records.contains("\"outcome\":\"failed_incomplete\""));
    assert!(under(elapsed, 5));
}

#[test]
fn surviving_descendant_is_killed_before_review_is_released() {
    let (output, records, elapsed, survivor) = invoke("normal", true, 20);
    assert!(output.success, "lifecycle={records}");
    assert_eq!(output.stdout, "Completed review\n");
    assert!(
        records.contains("\"outcome\":\"completed_forced_cleanup\""),
        "lifecycle={records}"
    );
    let alive = survivor.expect("fake descendant pid");
    assert!(!alive, "descendant {DESCENDANT} survived cleanup");
    assert!(under(elapsed, 5));
}

#[test]
fn ignored_exit_is_forced_without_duplicating_review() {
    let (output, records, elapsed, _) = invoke("ignored-exit", false, 20);
    assert!(output.success, "lifecycle={records}");
    assert_eq!(output.stdout, "Completed review\n");
    assert!(records.contains("\"outcome\":\"completed_forced_cleanup\""));
    assert!(under(elapsed, 5));
}

#[test]
fn child_exit_before_output_is_incomplete_and_content_free() {
    let (output, records, elapsed, _) = invoke("exit-early", false, 20);
    assert!(!output.success);
    assert!(output.stdout.is_empty());
    assert!(records.contains("\"outcome\":\"failed_incomplete\""));
    assert!(under(elapsed, 5));
}

#[test]
fn final_drain_recovers_terminal_output_written_immediately_before_exit() {
    let (output, records, elapsed, _) = invoke("exit-after-output", false, 20);
    assert!(output.success, "lifecycle={records}");
    assert_eq!(output.stdout, "Completed review\n");
    assert!(records.contains("\"outcome\":\"completed_clean\""));
    let output_complete = records
        .find("\"phase\":\"output_complete\"")
        .expect("output_complete record");
    let cleanup_started = records
        .find("\"phase\":\"cleanup_started\"")
        .expect("cleanup_started record");
    assert!(output_complete < cleanup_started);
    assert!(under(elapsed, 5));
}

#[test]
fn cleanup_verification_failure_is_bounded_and_withholds_review() {
    let (output, records, elapsed, _) = invoke("cleanup-probe-failure", false, 20);
    assert!(!output.success);
    assert!(output.stdout.is_empty());
    assert!(records.contains("\"outcome\":\"cleanup_failed\""));
    assert!(under(elapsed, 5));
}

#[test]
fn deadline_equality_counts_as_complete() {
    let deadline = Duration::from_secs(300);
    assert!(within_deadline(Duration::from_millis(299_999), deadline));
    assert!(within_deadline(deadline, deadline));
    assert!(!within_deadline(Duration::from_millis(300_001), deadline));
}

#[test]
fn records_are_one_json_object_per_line() {
    let mut emitter = Emitter::open("run-1".to_owned());
    emitter.emit(Phase::Launched, None, "", Duration::from_millis(2));
    emitter.emit(
        Phase::Terminated,
        Some(Outcome::CompletedClean),
        "process_group_absent",
        Duration { nanos: 1_500_999_999 },
    );
    assert_eq!(
        emitter.lines(0),
        vec![
            "{\"elapsed_ms\":2,\"phase\":\"launched\",\"run_id\":\"run-1\",\"schema_version\":1}\n"
                .to_owned(),
            "{\"elapsed_ms\":1500,\"outcome\":\"completed_clean\",\"phase\":\"terminated\",\"reason\":\"process_group_absent\",\"run_id\":\"run-1\",\"schema_version\":1}\n"
                .to_owned(),
        ]
    );
    assert_eq!(emitter.lines(1).len(), 1);
    assert!(emitter.lines(2).is_empty());
    assert!(emitter.lines(3).is_empty());
}

#[test]
fn a_record_reads_back() {
    let mut emitter = Emitter::open("line\nbreak \"quoted\"".to_owned());
    emitter.emit(Phase::CleanupStarted, None, "child_exited", Duration::from_millis(u64::MAX));
    let line = emitter.lines(0).remove(0);
    assert_eq!(line.matches('\n').count(), 1);
    assert!(line.ends_with('\n'));
    let value = serde_json::from_str::<serde_json::Value>(line.trim_end()).unwrap();
    assert_eq!(value["run_id"].as_str(), Some("line\nbreak \"quoted\""));
    assert_eq!(value["elapsed_ms"].as_u64(), Some(u64::MAX));
    assert_eq!(value["phase"].as_str(), Some("cleanup_started"));
    assert_eq!(value["reason"].as_str(), Some("child_exited"));
    assert!(value.get("outcome").is_none());
}

#[test]
fn phases_and_outcomes_have_names() {
    let phases = [
        (Phase::Launched, "launched"),
        (Phase::PromptSubmitted, "prompt_submitted"),
        (Phase::OutputObserved, "output_observed"),
        (Phase::OutputComplete, "output_complete"),
        (Phase::CleanupStarted, "cleanup_started"),
        (Phase::Terminated, "terminated"),
    ];
    for (phase, name) in phases {
        assert_eq!(phase.as_str(), name);
    }
    let outcomes = [
        (Outcome::CompletedClean, "completed_clean"),
        (Outcome::CompletedForcedCleanup, "completed_forced_cleanup"),
        (Outcome::FailedIncomplete, "failed_incomplete"),
        (Outcome::CleanupFailed, "cleanup_failed"),
    ];
    for (outcome, name) in outcomes {
        assert_eq!(outcome.as_str(), name);
    }
}

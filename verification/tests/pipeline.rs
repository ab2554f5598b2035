use std::cell::{Cell, RefCell};
use std::sync::Arc;
use willow::action::ActionConfig;
use willow::actions::{
    Action, ActionError, ActionOutcome, ExecPlan, ExecReport, Launcher, LogAction, MoveAction,
    MoveOverwritePolicy,
};
use willow::condition::ConditionConfig;
use willow::conditions::{Condition, ContainsCondition, ExtensionCondition, SizeGtCondition};
use willow::engine::pipeline::{retain, share_all};
use willow::engine::stages::sink::ActionReport;
use willow::engine::{
    gather_rules, ActionSink, EngineCtx, IoFilterStage, PipelineMsg, StabilityStage,
    StaticFilterStage,
};
use willow::error::ConfigError;
use willow::fs::{dry_create_line, dry_move_line, DryRunFs, FileStat, Fs, FsError};
use willow::models::{Event, EventInfo, FileMeta, Rule, RuntimeRule, RuntimeWatcher, Watcher};
use willow::watcher::{map_kind, RawEvent, RawKind};

/// A file system in memory: files with their text, and a note of every
/// change it was asked for.
#[derive(Default)]
struct Disk {
    files: RefCell<Vec<(String, String)>>,
    dirs: RefCell<Vec<String>>,
    renames: RefCell<Vec<(String, String)>>,
    reads: Cell<u32>,
    stats: Cell<u32>,
}

impl Disk {
    fn write(&self, path: &str, text: &str) {
        let mut files = self.files.borrow_mut();
        files.retain(|(p, _)| p != path);
        files.push((path.to_string(), text.to_string()));
    }

    fn remove(&self, path: &str) {
        self.files.borrow_mut().retain(|(p, _)| p != path);
    }

    fn renames(&self) -> Vec<(String, String)> {
        self.renames.borrow().clone()
    }
}

impl Fs for Disk {
    fn metadata(&self, path: &str) -> Result<FileStat, FsError> {
        self.stats.set(self.stats.get() + 1);
        if self.dirs.borrow().iter().any(|d| d == path) {
            return Ok(FileStat { len: 0, mtime: Some(1), is_dir: true });
        }
        match self.files.borrow().iter().find(|(p, _)| p == path) {
            Some((_, text)) => {
                Ok(FileStat { len: text.len() as u64, mtime: Some(1), is_dir: false })
            }
            None => Err(FsError { message: "no such file".to_string() }),
        }
    }
    fn create_dir_all(&self, path: &str) -> Result<(), FsError> {
        let mut dirs = self.dirs.borrow_mut();
        if !dirs.iter().any(|d| d == path) {
            dirs.push(path.to_string());
        }
        Ok(())
    }
    fn rename(&self, from: &str, to: &str) -> Result<(), FsError> {
        let held = self.files.borrow().iter().position(|(p, _)| p == from);
        match held {
            Some(i) => {
                let (_, text) = self.files.borrow_mut().remove(i);
                self.write(to, &text);
                self.renames.borrow_mut().push((from.to_string(), to.to_string()));
                Ok(())
            }
            None => Err(FsError { message: "no such file".to_string() }),
        }
    }
    fn path_exists(&self, path: &str) -> bool {
        self.dirs.borrow().iter().any(|d| d == path)
            || self.files.borrow().iter().any(|(p, _)| p == path)
    }
    fn read_to_string(&self, path: &str) -> Result<String, FsError> {
        self.reads.set(self.reads.get() + 1);
        match self.files.borrow().iter().find(|(p, _)| p == path) {
            Some((_, text)) => Ok(text.clone()),
            None => Err(FsError { message: "no such file".to_string() }),
        }
    }
}

/// A launcher that notes the commands and lets each end with its code.
#[derive(Default)]
struct Notes {
    commands: RefCell<Vec<String>>,
    code: i32,
}

impl Launcher for Notes {
    fn launch(&self, plan: &ExecPlan) -> ExecReport {
        self.commands.borrow_mut().push(format!("{} {}", plan.command, plan.args.join(" ")));
        ExecReport::Exited { success: self.code == 0, code: Some(self.code) }
    }
}

fn ext(value: &str) -> Condition {
    Condition::Extension(ExtensionCondition::new(value.to_string()))
}

fn size_gt(value: i64) -> Condition {
    Condition::SizeGt(SizeGtCondition::new(value))
}

fn holds(text: &str) -> Condition {
    Condition::Contains(ContainsCondition::new(text.to_string()))
}

fn rule(event: Event, conditions: Vec<Condition>, actions: Vec<Action>) -> Arc<RuntimeRule> {
    Arc::new(RuntimeRule { event, conditions, actions })
}

fn msg(path: &str, event: Event, rules: Vec<Arc<RuntimeRule>>) -> PipelineMsg {
    PipelineMsg { event: EventInfo { path: path.to_string(), event, meta: None }, rules }
}

fn log(text: &str) -> Action {
    Action::Log(LogAction::new(text.to_string()))
}

fn move_to(destination: &str, policy: Option<MoveOverwritePolicy>) -> Action {
    Action::Move(MoveAction::new(destination.to_string(), policy))
}

fn outcome(report: &ActionReport) -> String {
    match &report.result {
        Ok(ActionOutcome::Moved { from, to }) => format!("moved {from} -> {to}"),
        Ok(ActionOutcome::Skipped { target }) => format!("skipped {target}"),
        Ok(ActionOutcome::Renamed { from, to }) => format!("renamed {from} -> {to}"),
        Ok(ActionOutcome::Logged { message }) => format!("log {message}"),
        Ok(ActionOutcome::Executed { .. }) => "executed".to_string(),
        Err(ActionError::DestinationExists { target }) => format!("exists {target}"),
        Err(e) => format!("failed {:?}", e),
    }
}

fn same_rules(kept: &[Arc<RuntimeRule>], expected: &[&Arc<RuntimeRule>]) -> bool {
    kept.len() == expected.len() && kept.iter().zip(expected).all(|(a, b)| Arc::ptr_eq(a, b))
}

#[test]
fn the_static_filter_keeps_rules_of_the_kind_whose_static_conditions_hold() {
    let ctx = EngineCtx::new(Disk::default());
    let any_jpg = rule(Event::Any, vec![ext("jpg")], vec![]);
    let created_jpg = rule(Event::Created, vec![ext("jpg")], vec![]);
    let modified_jpg = rule(Event::Modified, vec![ext("jpg")], vec![]);
    let created_png = rule(Event::Created, vec![ext("png")], vec![]);
    let created_any = rule(Event::Created, vec![], vec![]);
    let all =
        vec![any_jpg.clone(), created_jpg.clone(), modified_jpg, created_png, created_any.clone()];
    let out = StaticFilterStage::new()
        .process(msg("/d/img.jpg", Event::Created, all), &ctx)
        .expect("three rules are candidates");
    assert_eq!(out.event.path, "/d/img.jpg");
    assert_eq!(out.event.event, Event::Created);
    assert!(same_rules(&out.rules, &[&any_jpg, &created_jpg, &created_any]));
}

#[test]
fn the_static_filter_does_not_ask_the_other_conditions() {
    let ctx = EngineCtx::new(Disk::default());
    // The file does not exist: a condition on the size or the text would
    // fail if it were asked.
    let r = rule(Event::Any, vec![size_gt(1), ext("jpg"), holds("abc")], vec![]);
    let out = StaticFilterStage::new().process(msg("/d/img.jpg", Event::Deleted, vec![r]), &ctx);
    assert!(out.is_some());
    assert_eq!(ctx.fs.stats.get(), 0);
    assert_eq!(ctx.fs.reads.get(), 0);
}

#[test]
fn a_message_that_keeps_no_rule_is_dropped() {
    let ctx = EngineCtx::new(Disk::default());
    let png = rule(Event::Any, vec![ext("png")], vec![]);
    let stage = StaticFilterStage::new();
    assert!(stage.process(msg("/d/img.jpg", Event::Created, vec![png]), &ctx).is_none());
    assert!(stage.process(msg("/d/img.jpg", Event::Created, vec![]), &ctx).is_none());
    let io = IoFilterStage::new();
    let big = rule(Event::Any, vec![size_gt(100)], vec![]);
    assert!(io.process(msg("/d/img.jpg", Event::Created, vec![big]), &ctx).is_none());
    assert!(io.process(msg("/d/img.jpg", Event::Created, vec![]), &ctx).is_none());
}

#[test]
fn unsupported_events_are_selected_by_any_only() {
    let ctx = EngineCtx::new(Disk::default());
    let any = rule(Event::Any, vec![], vec![]);
    let created = rule(Event::Created, vec![], vec![]);
    let out = StaticFilterStage::new()
        .process(msg("/d/a", Event::Unsupported, vec![created.clone(), any.clone()]), &ctx)
        .unwrap();
    assert!(same_rules(&out.rules, &[&any]));
    // An event of kind `Any` is selected by rules for `Any` only.
    let out = StaticFilterStage::new()
        .process(msg("/d/a", Event::Any, vec![created, any.clone()]), &ctx)
        .unwrap();
    assert!(same_rules(&out.rules, &[&any]));
    assert!(any.is_for(Event::Deleted));
}

#[test]
fn the_io_filter_asks_only_the_conditions_that_are_not_static() {
    let disk = Disk::default();
    disk.write("/d/img.jpg", "abcd");
    let ctx = EngineCtx::new(disk);
    // The extension does not fit, and is not asked again.
    let odd = rule(Event::Any, vec![ext("png"), size_gt(1)], vec![]);
    let small = rule(Event::Any, vec![size_gt(4)], vec![]);
    let text = rule(Event::Any, vec![holds("bc"), size_gt(3)], vec![]);
    let other = rule(Event::Any, vec![holds("x")], vec![]);
    let free = rule(Event::Created, vec![ext("png")], vec![]);
    let out = IoFilterStage::new()
        .process(
            msg(
                "/d/img.jpg",
                Event::Modified,
                vec![odd.clone(), small, text.clone(), other, free.clone()],
            ),
            &ctx,
        )
        .unwrap();
    assert!(same_rules(&out.rules, &[&odd, &text, &free]));
    assert_eq!(out.event.path, "/d/img.jpg");
    assert_eq!(out.event.event, Event::Modified);
}

#[test]
fn the_size_that_came_with_the_event_spares_the_file_system() {
    let ctx = EngineCtx::new(Disk::default());
    let big = rule(Event::Any, vec![size_gt(10)], vec![]);
    let event = EventInfo {
        path: "/d/nowhere.bin".to_string(),
        event: Event::Modified,
        meta: Some(FileMeta { size: Some(11), modified: None, name: None, ext: None }),
    };
    let stage = IoFilterStage::new();
    let m = PipelineMsg { event, rules: vec![big.clone()] };
    assert_eq!(stage.examine(&m, &ctx), vec![true]);
    assert_eq!(ctx.fs.stats.get(), 0);
    let out = stage.narrow(m, &vec![true]).unwrap();
    assert!(same_rules(&out.rules, &[&big]));
}

#[test]
fn narrowing_keeps_the_marked_rules_in_order() {
    let a = rule(Event::Any, vec![], vec![]);
    let b = rule(Event::Any, vec![], vec![]);
    let c = rule(Event::Any, vec![], vec![]);
    let all = vec![a.clone(), b.clone(), c.clone()];
    assert!(same_rules(&retain(share_all(&all), &vec![true, false, true]), &[&a, &c]));
    assert!(same_rules(&retain(share_all(&all), &vec![false, true]), &[&b]));
    assert!(same_rules(&retain(share_all(&all), &vec![true, true, true, true]), &[&a, &b, &c]));
    assert!(retain(share_all(&all), &vec![]).is_empty());
    assert!(same_rules(&share_all(&all), &[&a, &b, &c]));
    let stage = IoFilterStage::new();
    assert!(stage.narrow(msg("/a", Event::Any, all.clone()), &vec![false, false, false]).is_none());
    let out = stage.narrow(msg("/a", Event::Any, all), &vec![false, false, true]).unwrap();
    assert!(same_rules(&out.rules, &[&c]));
}

#[test]
fn the_sink_runs_every_action_of_every_rule_in_order() {
    let disk = Disk::default();
    disk.write("/d/a.txt", "text");
    let ctx = EngineCtx::new(disk);
    let launcher = Notes::default();
    let first = rule(Event::Any, vec![], vec![log("one {name}"), log("two {ext}")]);
    let none = rule(Event::Any, vec![], vec![]);
    let last = rule(Event::Any, vec![], vec![move_to("/out/", None), log("three")]);
    let reports = ActionSink::new().run(
        &msg("/d/a.txt", Event::Modified, vec![first, none, last]),
        &ctx,
        &launcher,
    );
    let places: Vec<(usize, usize)> = reports.iter().map(|r| (r.rule, r.action)).collect();
    assert_eq!(places, vec![(0, 0), (0, 1), (2, 0), (2, 1)]);
    let told: Vec<String> = reports.iter().map(outcome).collect();
    assert_eq!(told, vec!["log one a", "log two txt", "moved /d/a.txt -> /out/a.txt", "log three"]);
    assert_eq!(ctx.fs.renames(), vec![("/d/a.txt".to_string(), "/out/a.txt".to_string())]);
}

#[test]
fn a_failed_action_stops_neither_its_rule_nor_the_next() {
    let disk = Disk::default();
    disk.write("/d/img.jpg", "new");
    disk.write("/out/img.jpg", "old");
    let ctx = EngineCtx::new(disk);
    let launcher = Notes::default();
    let strict = rule(
        Event::Any,
        vec![],
        vec![move_to("/out/", Some(MoveOverwritePolicy::Error)), log("after the failure")],
    );
    let next = rule(Event::Any, vec![], vec![log("next rule")]);
    let reports = ActionSink::new().run(
        &msg("/d/img.jpg", Event::Modified, vec![strict, next]),
        &ctx,
        &launcher,
    );
    let told: Vec<String> = reports.iter().map(outcome).collect();
    assert_eq!(told, vec!["exists /out/img.jpg", "log after the failure", "log next rule"]);
    // The file remains at its source, and the destination as it was.
    assert!(ctx.fs.renames().is_empty());
    assert_eq!(ctx.fs.read_to_string("/d/img.jpg").unwrap(), "new");
    assert_eq!(ctx.fs.read_to_string("/out/img.jpg").unwrap(), "old");
}

#[test]
fn commands_run_in_their_place_among_the_actions() {
    let disk = Disk::default();
    disk.write("/d/a.txt", "text");
    let ctx = EngineCtx::new(disk);
    let launcher = Notes { code: 2, ..Default::default() };
    let exec = ActionConfig::Exec {
        command: "stat".into(),
        args: Some(vec!["{path}".into()]),
        cwd: None,
        env: None,
        timeout_secs: None,
    };
    let r = rule(
        Event::Any,
        vec![],
        vec![exec.to_action(), move_to("/out/", None), exec.to_action()],
    );
    let reports =
        ActionSink::new().run(&msg("/d/a.txt", Event::Modified, vec![r]), &ctx, &launcher);
    assert_eq!(reports.len(), 3);
    assert!(matches!(reports[0].result, Err(ActionError::ProcessExit { code: Some(2) })));
    assert!(matches!(reports[1].result, Ok(ActionOutcome::Moved { .. })));
    assert!(matches!(reports[2].result, Err(ActionError::ProcessExit { code: Some(2) })));
    assert_eq!(*launcher.commands.borrow(), vec!["stat /d/a.txt", "stat /d/a.txt"]);
}

#[test]
fn a_batch_collapses_to_the_last_notification_of_each_path() {
    let watcher = RuntimeWatcher {
        path: "/d".to_string(),
        recursive: false,
        ignore: None,
        rules: vec![rule(Event::Any, vec![], vec![])],
    };
    let raw = |kind, paths: &[&str]| RawEvent {
        kind,
        paths: paths.iter().map(|p| p.to_string()).collect(),
    };
    let batch = vec![
        raw(RawKind::Create, &["/d/a.txt"]),
        raw(RawKind::Modify, &["/d/b.txt"]),
        raw(RawKind::Modify, &["/d/a.txt"]),
        raw(RawKind::Other, &["/d/c.txt"]),
        raw(RawKind::Remove, &["/d/d.txt", "/d/e.txt"]),
        raw(RawKind::Create, &[]),
        raw(RawKind::Create, &["/d/f.txt"]),
        raw(RawKind::Other, &["/d/f.txt"]),
    ];
    let out = watcher.collapse(&batch);
    let told: Vec<(String, Event)> = out.iter().map(|m| (m.event.path.clone(), m.event.event)).collect();
    assert_eq!(
        told,
        vec![
            ("/d/b.txt".to_string(), Event::Modified),
            ("/d/a.txt".to_string(), Event::Modified),
            ("/d/d.txt".to_string(), Event::Deleted),
        ]
    );
    for m in &out {
        assert!(m.event.meta.is_none());
        assert!(same_rules(&m.rules, &[&watcher.rules[0]]));
    }
    assert_eq!(watcher.survivor(&batch, 0), None);
    assert_eq!(watcher.survivor(&batch, 2), Some(Event::Modified));
    assert!(watcher.collapse(&Vec::new()).is_empty());
}

#[test]
fn raw_kinds_map_to_events() {
    assert_eq!(map_kind(RawKind::Create), Some(Event::Created));
    assert_eq!(map_kind(RawKind::Modify), Some(Event::Modified));
    assert_eq!(map_kind(RawKind::Remove), Some(Event::Deleted));
    assert_eq!(map_kind(RawKind::Other), None);
}

#[test]
fn ignored_extensions_and_unwanted_kinds_are_pruned() {
    let watcher = RuntimeWatcher {
        path: "/d".to_string(),
        recursive: true,
        ignore: Some(vec!["LOG".to_string(), "swp".to_string()]),
        rules: vec![rule(Event::Created, vec![], vec![]), rule(Event::Deleted, vec![], vec![])],
    };
    assert!(watcher.is_ignored("/d/a.log"));
    assert!(watcher.is_ignored("/d/a.Log"));
    assert!(watcher.is_ignored("/d/.a.txt.SWP"));
    assert!(!watcher.is_ignored("/d/a.txt"));
    assert!(!watcher.is_ignored("/d/log"));
    assert!(watcher.is_wanted(Event::Created));
    assert!(watcher.is_wanted(Event::Deleted));
    assert!(!watcher.is_wanted(Event::Modified));
    let raw = |kind, path: &str| RawEvent { kind, paths: vec![path.to_string()] };
    let batch = vec![
        raw(RawKind::Create, "/d/a.log"),
        raw(RawKind::Modify, "/d/b.txt"),
        raw(RawKind::Create, "/d/c.txt"),
        raw(RawKind::Remove, "/d/d.swp"),
        raw(RawKind::Remove, "/d/e.txt"),
    ];
    let told: Vec<String> = watcher.collapse(&batch).into_iter().map(|m| m.event.path).collect();
    assert_eq!(told, vec!["/d/c.txt", "/d/e.txt"]);
    // A rule for `Any` wants every kind.
    let open = RuntimeWatcher {
        path: "/d".to_string(),
        recursive: true,
        ignore: Some(vec![String::new()]),
        rules: vec![rule(Event::Any, vec![], vec![])],
    };
    assert!(open.is_wanted(Event::Modified));
    // The empty extension on the list stands for files without one.
    assert!(open.is_ignored("/d/Makefile"));
    assert!(!open.is_ignored("/d/a.c"));
}

#[test]
fn a_watcher_without_rules_reports_nothing() {
    let watcher =
        RuntimeWatcher { path: "/d".to_string(), recursive: true, ignore: None, rules: vec![] };
    let batch = vec![
        RawEvent { kind: RawKind::Create, paths: vec!["/d/a.txt".to_string()] },
        RawEvent { kind: RawKind::Modify, paths: vec!["/d/b.txt".to_string()] },
        RawEvent { kind: RawKind::Remove, paths: vec!["/d/c.txt".to_string()] },
    ];
    assert!(watcher.collapse(&batch).is_empty());
    assert!(!watcher.is_wanted(Event::Created));
    assert!(!watcher.is_wanted(Event::Any));
    // And a message without rules does not get past the first stage.
    let ctx = EngineCtx::new(Disk::default());
    assert!(StaticFilterStage::new().process(msg("/d/a.txt", Event::Created, vec![]), &ctx).is_none());
}

#[test]
fn declared_rules_are_built_in_order() {
    let jpg = Rule {
        event: Event::Any,
        conditions: vec![
            ConditionConfig::Extension { value: "jpg".into() },
            ConditionConfig::SizeGt { value: 1 },
        ],
        actions: vec![
            ActionConfig::Log { message: "processing {filename}".into() },
            ActionConfig::Move { destination: "/out/".into(), overwrite: None },
        ],
    };
    let logs = Rule {
        event: Event::Deleted,
        conditions: vec![ConditionConfig::Regex { value: "\\.log$".into() }],
        actions: vec![],
    };
    let watcher = Watcher {
        path: "/d".into(),
        recursive: true,
        ignore: Some(vec!["tmp".into()]),
        rules: vec![jpg, logs],
    };
    let rules = gather_rules(&watcher).unwrap();
    assert_eq!(rules.len(), 2);
    assert_eq!(rules[0].event, Event::Any);
    assert_eq!(rules[0].conditions.len(), 2);
    assert!(matches!(rules[0].conditions[0], Condition::Extension(_)));
    assert!(matches!(rules[0].conditions[1], Condition::SizeGt(_)));
    assert_eq!(rules[0].actions.len(), 2);
    assert!(matches!(rules[0].actions[0], Action::Log(_)));
    assert!(matches!(rules[0].actions[1], Action::Move(_)));
    assert_eq!(rules[1].event, Event::Deleted);
    assert!(matches!(rules[1].conditions[0], Condition::Regex(_)));
    let built = RuntimeWatcher::from_config(&watcher).unwrap();
    assert_eq!(built.path, "/d");
    assert!(built.recursive);
    assert_eq!(built.ignore, Some(vec!["tmp".to_string()]));
    assert_eq!(built.rules.len(), 2);
    // The declaration is left as it was.
    assert_eq!(watcher.rules[0].conditions.len(), 2);
}

#[test]
fn a_pattern_that_does_not_compile_stops_the_build() {
    let bad = Rule {
        event: Event::Any,
        conditions: vec![
            ConditionConfig::Extension { value: "jpg".into() },
            ConditionConfig::Glob { value: "[".into() },
            ConditionConfig::Regex { value: "(".into() },
        ],
        actions: vec![],
    };
    assert!(matches!(bad.build(), Err(ConfigError::InvalidGlob { .. })));
    let watcher = Watcher { path: "/d".into(), recursive: false, ignore: None, rules: vec![bad] };
    match gather_rules(&watcher) {
        Err(ConfigError::InvalidGlob { pattern }) => assert_eq!(pattern, "["),
        _ => panic!("the glob was built"),
    }
    assert!(RuntimeWatcher::from_config(&watcher).is_err());
}

/// Runs what is handed in through the three stages after the static filter,
/// sweeping once a second up to `until`, and gathers the reports of the sink
/// with the second in which they were made.
fn settle<F: Fs>(
    stability: &mut StabilityStage,
    ctx: &EngineCtx<F>,
    launcher: &Notes,
    from: u64,
    until: u64,
) -> Vec<(u64, String)> {
    let mut told = Vec::new();
    for s in from..=until {
        for emitted in stability.poll(s * 1000, ctx).emitted {
            if let Some(passed) = IoFilterStage::new().process(emitted, ctx) {
                for report in ActionSink::new().run(&passed, ctx, launcher) {
                    told.push((s, outcome(&report)));
                }
            }
        }
    }
    told
}

#[test]
fn a_download_is_moved_once_it_has_settled() {
    let disk = Disk::default();
    disk.dirs.borrow_mut().push("/d".to_string());
    let ctx = EngineCtx::new(disk);
    let launcher = Notes::default();
    let watcher = RuntimeWatcher {
        path: "/d".to_string(),
        recursive: false,
        ignore: None,
        rules: vec![rule(Event::Any, vec![ext("jpg"), size_gt(1)], vec![move_to("/out/", None)])],
    };
    let filter = StaticFilterStage::new();
    let mut stability = StabilityStage::new(0);
    let mut told = Vec::new();
    let feed = |kind: RawKind,
                    path: &str,
                    at: u64,
                    stability: &mut StabilityStage,
                    ctx: &EngineCtx<Disk>| {
        let batch = vec![RawEvent { kind, paths: vec![path.to_string()] }];
        for m in watcher.collapse(&batch) {
            if let Some(passed) = filter.process(m, ctx) {
                stability.on_event(passed, at);
            }
        }
    };
    // The browser writes the part file for two seconds.
    ctx.fs.write("/d/img.jpg.part", "");
    feed(RawKind::Create, "/d/img.jpg.part", 0, &mut stability, &ctx);
    for i in 1..=5u64 {
        ctx.fs.write("/d/img.jpg.part", &"x".repeat(200 * i as usize));
        feed(RawKind::Modify, "/d/img.jpg.part", i * 400, &mut stability, &ctx);
        told.extend(settle(&mut stability, &ctx, &launcher, i * 400 / 1000, i * 400 / 1000));
    }
    // Then it puts the file in place.
    ctx.fs.remove("/d/img.jpg.part");
    ctx.fs.write("/d/img.jpg", &"x".repeat(1024));
    feed(RawKind::Create, "/d/img.jpg", 2_100, &mut stability, &ctx);
    feed(RawKind::Modify, "/d/img.jpg", 2_200, &mut stability, &ctx);
    assert_eq!(stability.pending_len(), 1);
    told.extend(settle(&mut stability, &ctx, &launcher, 3, 60));
    // The last event came at 2.2 s; the first sweep after three seconds of
    // quiet is that of second 6, and two more make the samples agree.
    assert_eq!(told, vec![(8, "moved /d/img.jpg -> /out/img.jpg".to_string())]);
    assert_eq!(ctx.fs.renames(), vec![("/d/img.jpg".to_string(), "/out/img.jpg".to_string())]);
    assert_eq!(stability.pending_len(), 0);
}

#[test]
fn e2e_move_with_static_and_io_conditions_and_logs() {
    let disk = Disk::default();
    disk.dirs.borrow_mut().push("/work/e2e_move/out".to_string());
    disk.write("/work/e2e_move/image.jpg", "abc");
    let ctx = EngineCtx::new(disk);
    let launcher = Notes::default();
    let filter = StaticFilterStage::new();
    let mut stability = StabilityStage::new(0);

    let input = "/work/e2e_move/image.jpg";
    ctx.fs.write(input, "abc!");

    let rule = Arc::new(RuntimeRule {
        event: Event::Any,
        conditions: vec![
            ConditionConfig::Extension { value: "jpg".into() }.into_condition().unwrap(),
            ConditionConfig::SizeGt { value: 1 }.into_condition().unwrap(),
        ],
        actions: vec![
            ActionConfig::Log { message: "processing {filename}".into() }.into_action(),
            ActionConfig::Move { destination: "/work/e2e_move/out/".into(), overwrite: None }
                .into_action(),
        ],
    });

    let created = filter.process(msg(input, Event::Created, vec![rule.clone()]), &ctx).unwrap();
    stability.on_event(created, 0);
    let modified = filter.process(msg(input, Event::Modified, vec![rule.clone()]), &ctx).unwrap();
    stability.on_event(modified, 200);

    let told = settle(&mut stability, &ctx, &launcher, 0, 8);
    let moved_path = "/work/e2e_move/out/image.jpg";
    assert!(ctx.fs.path_exists(moved_path), "expected file to be moved to {}", moved_path);
    assert!(!ctx.fs.path_exists(input));

    let log_dump: Vec<&str> = told.iter().map(|(_, line)| line.as_str()).collect();
    let log_dump = log_dump.join("\n");
    assert!(log_dump.contains("processing image.jpg"), "missing custom log in: {}", log_dump);
    assert!(
        log_dump.contains("moved") && log_dump.contains("image.jpg"),
        "missing move log in: {}",
        log_dump
    );
    assert_eq!(told.len(), 2);
}

#[test]
fn a_dry_run_moves_nothing_and_reports_the_move_once() {
    let disk = Disk::default();
    disk.write("/d/img.jpg", "picture");
    let ctx = EngineCtx::new(DryRunFs::new(disk));
    let launcher = Notes::default();
    let r = rule(Event::Any, vec![ext("jpg"), size_gt(1)], vec![move_to("/out/", None)]);
    let mut stability = StabilityStage::new(0);
    let passed = StaticFilterStage::new()
        .process(msg("/d/img.jpg", Event::Modified, vec![r]), &ctx)
        .unwrap();
    stability.on_event(passed, 0);
    let told = settle(&mut stability, &ctx, &launcher, 1, 10);
    assert_eq!(told, vec![(5, "moved /d/img.jpg -> /out/img.jpg".to_string())]);
    // The disk below was asked nothing but questions: the file is where it
    // was, and no directory was made.
    let disk = ctx.fs.below();
    assert!(disk.renames().is_empty());
    assert!(disk.dirs.borrow().is_empty());
    assert!(ctx.fs.path_exists("/d/img.jpg"));
    assert!(!ctx.fs.path_exists("/out/img.jpg"));
    assert!(!ctx.fs.path_exists("/out"));
    assert_eq!(ctx.fs.read_to_string("/d/img.jpg").unwrap(), "picture");
    assert_eq!(ctx.fs.metadata("/d/img.jpg").unwrap().len, 7);
    assert!(ctx.fs.metadata("/out/img.jpg").is_err());
    assert!(ctx.fs.rename("/d/img.jpg", "/elsewhere").is_ok());
    assert!(ctx.fs.create_dir_all("/made").is_ok());
    assert!(!ctx.fs.path_exists("/elsewhere"));
    assert!(!ctx.fs.path_exists("/made"));
    // What the host logs for the move, once for each move that is reported.
    assert_eq!(dry_move_line("/d/img.jpg", "/out/img.jpg"), "[dry-run] move /d/img.jpg -> /out/img.jpg");
    assert_eq!(dry_create_line("/out"), "[dry-run] create_dir_all /out");
}

#[test]
fn what_reaches_the_sink_has_passed_both_filters() {
    let disk = Disk::default();
    disk.write("/d/notes.txt", "remember the milk");
    let ctx = EngineCtx::new(disk);
    let launcher = Notes::default();
    let both = rule(Event::Any, vec![ext("txt"), holds("milk")], vec![log("both")]);
    let static_only = rule(Event::Any, vec![ext("txt"), holds("bread")], vec![log("static only")]);
    let io_only = rule(Event::Any, vec![ext("md"), holds("milk")], vec![log("io only")]);
    let wrong_kind = rule(Event::Deleted, vec![ext("txt")], vec![log("wrong kind")]);
    let neither = rule(Event::Any, vec![ext("md"), size_gt(1000)], vec![log("neither")]);
    let all = vec![static_only, both.clone(), io_only, wrong_kind, neither];
    let mut stability = StabilityStage::new(0);
    let passed = StaticFilterStage::new()
        .process(msg("/d/notes.txt", Event::Modified, all), &ctx)
        .expect("two rules are candidates");
    assert_eq!(passed.rules.len(), 2);
    stability.on_event(passed, 0);
    let mut seen = Vec::new();
    for s in 1..=10u64 {
        for emitted in stability.tick(s * 1000, &ctx).emitted {
            assert_eq!(emitted.rules.len(), 2);
            if let Some(last) = IoFilterStage::new().process(emitted, &ctx) {
                assert!(same_rules(&last.rules, &[&both]));
                for report in ActionSink::new().run(&last, &ctx, &launcher) {
                    seen.push(outcome(&report));
                }
            }
        }
    }
    assert_eq!(seen, vec!["log both"]);
    // A file for which no rule passes both filters does not reach the sink.
    ctx.fs.write("/d/list.txt", "bread");
    let lonely = rule(Event::Any, vec![ext("txt"), holds("milk")], vec![log("never")]);
    let passed = StaticFilterStage::new()
        .process(msg("/d/list.txt", Event::Modified, vec![lonely]), &ctx)
        .unwrap();
    stability.on_event(passed, 20_000);
    assert!(settle(&mut stability, &ctx, &launcher, 21, 40).is_empty());
    assert_eq!(stability.pending_len(), 0);
}

use willow::action::ActionConfig;
use willow::actions::exec::{PollStep, POLL_INTERVAL_MS};
use willow::actions::move_action::{Placement, MAX_SUFFIX};
use willow::actions::{
    Action, ActionError, ActionOutcome, ExecAction, ExecActionConfig, ExecPlan, ExecReport,
    Launcher, LogAction, MoveAction, MoveOverwritePolicy, RenameAction,
};
use willow::engine::EngineCtx;
use willow::fs::{FileStat, Fs, FsError};
use std::cell::{Cell, RefCell};
use willow::template::Stamps;

/// A file system that notes what it is asked to change.
#[derive(Default)]
struct MockFs {
    renames: RefCell<Vec<(String, String)>>,
    created_dirs: RefCell<Vec<String>>,
    existing: Vec<String>,
    /// Everything exists.
    crowded: bool,
    /// `/out/img.jpg` exists, and so does `/out/img_<i>.jpg` for each `i` from
    /// 1 up to this number.
    numbered: u32,
    refuse_rename: bool,
    refuse_create: bool,
}

impl Fs for MockFs {
    fn metadata(&self, _path: &str) -> Result<FileStat, FsError> {
        Err(FsError { message: "not used".to_string() })
    }
    fn create_dir_all(&self, path: &str) -> Result<(), FsError> {
        if self.refuse_create {
            return Err(FsError { message: "read-only".to_string() });
        }
        self.created_dirs.borrow_mut().push(path.to_string());
        Ok(())
    }
    fn rename(&self, from: &str, to: &str) -> Result<(), FsError> {
        if self.refuse_rename {
            return Err(FsError { message: "cross-device".to_string() });
        }
        self.renames.borrow_mut().push((from.to_string(), to.to_string()));
        Ok(())
    }
    fn path_exists(&self, path: &str) -> bool {
        if self.numbered > 0 {
            if path == "/out/img.jpg" {
                return true;
            }
            let number = path.strip_prefix("/out/img_").and_then(|rest| rest.strip_suffix(".jpg"));
            if let Some(i) = number.and_then(|n| n.parse::<u32>().ok()) {
                return 1 <= i && i <= self.numbered;
            }
        }
        self.crowded || self.existing.iter().any(|p| p == path)
    }
    fn read_to_string(&self, _path: &str) -> Result<String, FsError> {
        Err(FsError { message: "not used".to_string() })
    }
}

/// A launcher that starts nothing: it watches a command that takes
/// `runs_for_ms` and then ends with `code`.
struct Rehearsal {
    runs_for_ms: u64,
    code: i32,
    launched: RefCell<Vec<ExecPlan>>,
    kills: Cell<u32>,
}

impl Rehearsal {
    fn new(runs_for_ms: u64, code: i32) -> Self {
        Rehearsal { runs_for_ms, code, launched: RefCell::new(Vec::new()), kills: Cell::new(0) }
    }
}

impl Launcher for Rehearsal {
    fn launch(&self, plan: &ExecPlan) -> ExecReport {
        self.launched.borrow_mut().push(plan.clone());
        if plan.command.is_empty() {
            return ExecReport::Failed { message: "no such file".to_string() };
        }
        let mut elapsed: u64 = 0;
        loop {
            match ExecAction::poll(plan.timeout_secs, elapsed, elapsed >= self.runs_for_ms) {
                PollStep::Done => {
                    return ExecReport::Exited { success: self.code == 0, code: Some(self.code) };
                }
                PollStep::Kill => {
                    self.kills.set(self.kills.get() + 1);
                    return ExecReport::TimedOut;
                }
                PollStep::Wait => elapsed += POLL_INTERVAL_MS,
                PollStep::WaitForEnd => elapsed = self.runs_for_ms,
            }
        }
    }
}

fn ctx(fs: MockFs) -> EngineCtx<MockFs> {
    EngineCtx::new(fs)
}

fn existing(paths: &[&str]) -> MockFs {
    MockFs { existing: paths.iter().map(|p| p.to_string()).collect(), ..Default::default() }
}

fn stamps() -> Stamps {
    Stamps {
        date: "2024-02-29".to_string(),
        time: "23:59:58".to_string(),
        datetime: "2024-02-29_23:59:58".to_string(),
    }
}

#[test]
fn moves_into_directory_when_destination_ends_with_slash() {
    let ctx = ctx(MockFs::default());
    let action = MoveAction::new("/dest/dir/".to_string(), None);

    action.run("/src/path/file.txt", &ctx).unwrap();

    let dirs = ctx.fs.created_dirs.borrow().clone();
    let renames = ctx.fs.renames.borrow().clone();
    assert_eq!(dirs, vec!["/dest/dir".to_string()]);
    assert_eq!(renames.len(), 1);
    assert_eq!(renames[0].0, "/src/path/file.txt");
    assert_eq!(renames[0].1, "/dest/dir/file.txt");
}

#[test]
fn moves_to_exact_destination_when_path_given() {
    let ctx = ctx(MockFs::default());
    let action = MoveAction::new("/dest/final/name.txt".to_string(), None);

    action.run("/src/path/file.txt", &ctx).unwrap();

    let dirs = ctx.fs.created_dirs.borrow().clone();
    let renames = ctx.fs.renames.borrow().clone();
    assert_eq!(dirs, vec!["/dest/final".to_string()]);
    assert_eq!(renames.len(), 1);
    assert_eq!(renames[0].0, "/src/path/file.txt");
    assert_eq!(renames[0].1, "/dest/final/name.txt");
}

#[test]
fn skip_when_destination_exists() {
    let ctx = ctx(existing(&["/dest/dir/file.txt"]));
    let action = MoveAction::new("/dest/dir/".to_string(), Some(MoveOverwritePolicy::Skip));
    action.run("/src/path/file.txt", &ctx).unwrap();
    assert!(ctx.fs.renames.borrow().is_empty());
}

#[test]
fn suffix_when_destination_exists() {
    let ctx = ctx(existing(&["/dest/dir/file.txt", "/dest/dir/file_1.txt"]));
    let action = MoveAction::new("/dest/dir/".to_string(), Some(MoveOverwritePolicy::Suffix));
    action.run("/src/path/file.txt", &ctx).unwrap();
    let renames = ctx.fs.renames.borrow().clone();
    assert_eq!(renames.len(), 1);
    assert_eq!(renames[0].1, "/dest/dir/file_2.txt");
}

#[test]
fn error_when_destination_exists() {
    let ctx = ctx(existing(&["/dest/dir/file.txt"]));
    let action = MoveAction::new("/dest/dir/".to_string(), Some(MoveOverwritePolicy::Error));
    let res = action.run("/src/path/file.txt", &ctx);
    assert!(res.is_err());
    assert!(ctx.fs.renames.borrow().is_empty());
}

#[test]
fn overwrite_when_destination_exists() {
    let ctx = ctx(existing(&["/dest/dir/file.txt"]));
    let action = MoveAction::new("/dest/dir/".to_string(), Some(MoveOverwritePolicy::Overwrite));
    action.run("/src/path/file.txt", &ctx).unwrap();
    let renames = ctx.fs.renames.borrow().clone();
    assert_eq!(renames.len(), 1);
    assert_eq!(renames[0].1, "/dest/dir/file.txt");
}

#[test]
fn renames_with_template_in_same_dir() {
    let ctx = ctx(MockFs::default());
    let action = RenameAction::new("{name}_renamed.{ext}".to_string());

    action.run("/tmp/dir/file.txt", &ctx).unwrap();

    let renames = ctx.fs.renames.borrow().clone();
    assert_eq!(renames.len(), 1);
    assert_eq!(renames[0].0, "/tmp/dir/file.txt");
    assert_eq!(renames[0].1, "/tmp/dir/file_renamed.txt");
}

#[test]
fn exec_echo_succeeds() {
    let action = ExecAction::new(ExecActionConfig {
        command: "/bin/echo".into(),
        args: Some(vec!["Hello".into(), "{filename}".into()]),
        cwd: None,
        env: None,
        timeout_secs: Some(3),
    });
    let launcher = Rehearsal::new(100, 0);
    action.run("/tmp/file.txt", &launcher).unwrap();
    assert_eq!(launcher.launched.borrow().len(), 1);
    assert_eq!(launcher.launched.borrow()[0].command, "/bin/echo");
    assert_eq!(launcher.launched.borrow()[0].args, vec!["Hello".to_string(), "file.txt".to_string()]);
    assert_eq!(launcher.kills.get(), 0);
}

#[test]
fn exec_timeout_errors() {
    let action = ExecAction::new(ExecActionConfig {
        command: "/bin/sleep".into(),
        args: Some(vec!["2".into()]),
        cwd: None,
        env: None,
        timeout_secs: Some(0),
    });
    let launcher = Rehearsal::new(2000, 0);
    let res = action.run("/tmp/file.txt", &launcher);
    assert!(res.is_err());
    assert!(matches!(res, Err(ActionError::Timeout { secs: 0 })));
    assert_eq!(launcher.kills.get(), 1);
}

#[test]
fn the_default_policy_is_to_fail() {
    assert_eq!(MoveOverwritePolicy::default(), MoveOverwritePolicy::Error);
    let ctx = ctx(existing(&["/dest/file.txt"]));
    let action = MoveAction::new("/dest/".to_string(), None);
    match action.run("/src/file.txt", &ctx) {
        Err(ActionError::DestinationExists { target }) => assert_eq!(target, "/dest/file.txt"),
        other => panic!("expected a refusal, got {:?}", other),
    }
    assert!(ctx.fs.renames.borrow().is_empty());
    assert_eq!(*ctx.fs.created_dirs.borrow(), vec!["/dest".to_string()]);
}

#[test]
fn a_move_reports_where_the_file_went() {
    let ctx = ctx(MockFs::default());
    let action = MoveAction::new("/out/{date}/{name}.bak".to_string(), None);
    match action.run_at("/in/report.txt", &ctx, &stamps()) {
        Ok(ActionOutcome::Moved { from, to }) => {
            assert_eq!(from, "/in/report.txt");
            assert_eq!(to, "/out/2024-02-29/report.bak");
        }
        other => panic!("expected a move, got {:?}", other),
    }
    assert_eq!(*ctx.fs.created_dirs.borrow(), vec!["/out/2024-02-29".to_string()]);
    assert_eq!(
        *ctx.fs.renames.borrow(),
        vec![("/in/report.txt".to_string(), "/out/2024-02-29/report.bak".to_string())]
    );
}

#[test]
fn skipping_is_a_success_that_names_the_target() {
    let ctx = ctx(existing(&["/dest/dir/file.txt"]));
    let action = MoveAction::new("/dest/dir/".to_string(), Some(MoveOverwritePolicy::Skip));
    match action.run("/src/path/file.txt", &ctx) {
        Ok(ActionOutcome::Skipped { target }) => assert_eq!(target, "/dest/dir/file.txt"),
        other => panic!("expected a skip, got {:?}", other),
    }
}

#[test]
fn a_backslash_names_a_directory_too() {
    assert_eq!(
        MoveAction::target_for("out\\", "/src/file.txt").unwrap(),
        "out\\/file.txt".to_string()
    );
    assert_eq!(MoveAction::target_for("/out", "/src/file.txt").unwrap(), "/out".to_string());
    assert_eq!(MoveAction::target_for("", "/src/file.txt").unwrap(), "".to_string());
}

#[test]
fn a_source_without_file_name_cannot_go_into_a_directory() {
    let ctx = ctx(MockFs::default());
    let action = MoveAction::new("/dest/".to_string(), None);
    match action.run("/", &ctx) {
        Err(ActionError::NoFileName { path }) => assert_eq!(path, "/"),
        other => panic!("expected NoFileName, got {:?}", other),
    }
    assert!(matches!(action.run("/a/..", &ctx), Err(ActionError::NoFileName { .. })));
    assert!(ctx.fs.renames.borrow().is_empty());
    assert!(ctx.fs.created_dirs.borrow().is_empty());
    // To an exact path such a source can go.
    let exact = MoveAction::new("/dest/name".to_string(), None);
    assert!(exact.run("/", &ctx).is_ok());
}

#[test]
fn numbered_names_stand_before_the_extension() {
    assert_eq!(MoveAction::numbered_name("/out/img.jpg", 1), "/out/img_1.jpg");
    assert_eq!(MoveAction::numbered_name("/out/img.jpg", 10_000), "/out/img_10000.jpg");
    assert_eq!(MoveAction::numbered_name("/out/img", 2), "/out/img_2");
    assert_eq!(MoveAction::numbered_name("/out/a.tar.gz", 3), "/out/a.tar_3.gz");
    assert_eq!(MoveAction::numbered_name("/out/.rc", 4), "/out/.rc_4");
    assert_eq!(MoveAction::numbered_name("img.jpg", 5), "img_5.jpg");
    assert_eq!(MoveAction::numbered_name("/img.jpg", 6), "/img_6.jpg");
}

#[test]
fn the_first_free_numbered_name_is_taken() {
    let ctx = ctx(existing(&["/out/img.jpg", "/out/img_1.jpg", "/out/img_3.jpg"]));
    let action = MoveAction::new("/out/".to_string(), Some(MoveOverwritePolicy::Suffix));
    match action.run("/d/img.jpg", &ctx) {
        Ok(ActionOutcome::Moved { from, to }) => {
            assert_eq!(from, "/d/img.jpg");
            assert_eq!(to, "/out/img_2.jpg");
        }
        other => panic!("expected a move, got {:?}", other),
    }
    // Nothing in the way: no number.
    let free = self::ctx(MockFs::default());
    match action.run("/d/img.jpg", &free) {
        Ok(ActionOutcome::Moved { to, .. }) => assert_eq!(to, "/out/img.jpg"),
        other => panic!("expected a move, got {:?}", other),
    }
}

#[test]
fn numbering_gives_up_after_ten_thousand_names() {
    assert_eq!(MAX_SUFFIX, 10_000);
    let ctx = ctx(MockFs { crowded: true, ..Default::default() });
    let action = MoveAction::new("/out/".to_string(), Some(MoveOverwritePolicy::Suffix));
    match action.run("/d/img.jpg", &ctx) {
        Err(ActionError::Collision { target }) => assert_eq!(target, "/out/img.jpg"),
        other => panic!("expected a collision, got {:?}", other),
    }
    assert!(ctx.fs.renames.borrow().is_empty());
    // The last name that is tried is the ten-thousandth.
    let all_but_last = MockFs { numbered: MAX_SUFFIX - 1, ..Default::default() };
    let ctx = self::ctx(all_but_last);
    match action.run("/d/img.jpg", &ctx) {
        Ok(ActionOutcome::Moved { to, .. }) => assert_eq!(to, "/out/img_10000.jpg"),
        other => panic!("expected a move, got {:?}", other),
    }
}

#[test]
fn placement_follows_the_policy() {
    let policies = [
        (MoveOverwritePolicy::Error, Placement::Refuse),
        (MoveOverwritePolicy::Skip, Placement::Leave),
        (MoveOverwritePolicy::Overwrite, Placement::Place),
        (MoveOverwritePolicy::Suffix, Placement::Number),
    ];
    for (policy, taken) in policies {
        let action = MoveAction::new("/out/".to_string(), Some(policy));
        assert_eq!(action.place(false), Placement::Place);
        assert_eq!(action.place(true), taken);
    }
}

#[test]
fn refusals_of_the_file_system_are_reported() {
    let action = MoveAction::new("/out/".to_string(), None);
    let ctx = ctx(MockFs { refuse_rename: true, ..Default::default() });
    match action.run("/d/a.txt", &ctx) {
        Err(ActionError::IoFailure { message }) => assert_eq!(message, "cross-device"),
        other => panic!("expected a failure, got {:?}", other),
    }
    let ctx = self::ctx(MockFs { refuse_create: true, ..Default::default() });
    match action.run("/d/a.txt", &ctx) {
        Err(ActionError::IoFailure { message }) => assert_eq!(message, "read-only"),
        other => panic!("expected a failure, got {:?}", other),
    }
    assert!(ctx.fs.renames.borrow().is_empty());
    let rename = RenameAction::new("b.txt".to_string());
    let ctx = self::ctx(MockFs { refuse_rename: true, ..Default::default() });
    assert!(matches!(rename.run("/d/a.txt", &ctx), Err(ActionError::IoFailure { .. })));
}

#[test]
fn a_rename_needs_a_parent() {
    let action = RenameAction::new("new".to_string());
    let ctx = ctx(MockFs::default());
    match action.run("/", &ctx) {
        Err(ActionError::NoParent { path }) => assert_eq!(path, "/"),
        other => panic!("expected NoParent, got {:?}", other),
    }
    assert!(matches!(action.run("", &ctx), Err(ActionError::NoParent { .. })));
    assert!(ctx.fs.renames.borrow().is_empty());
    match action.run("file.txt", &ctx) {
        Ok(ActionOutcome::Renamed { from, to }) => {
            assert_eq!(from, "file.txt");
            assert_eq!(to, "new");
        }
        other => panic!("expected a rename, got {:?}", other),
    }
    assert_eq!(action.target_at("/a/b", &stamps()).unwrap(), "/a/new");
}

#[test]
fn a_log_action_never_fails() {
    let action = LogAction::new("processing {filename} on {date}".to_string());
    match action.run_at("/d/image.jpg", &stamps()) {
        Ok(ActionOutcome::Logged { message }) => {
            assert_eq!(message, "processing image.jpg on 2024-02-29")
        }
        other => panic!("expected a line, got {:?}", other),
    }
    assert!(matches!(action.run("/"), Ok(ActionOutcome::Logged { .. })));
}

#[test]
fn a_command_is_filled_in_part_by_part() {
    let action = ExecAction::new(ExecActionConfig {
        command: "/opt/{ext}/convert".into(),
        args: Some(vec!["{path}".into(), "--out".into(), "{parent}/{name}.png".into()]),
        cwd: Some("{parent}".into()),
        env: Some(vec![("FILE_{ext}".into(), "{filename}".into()), ("DAY".into(), "{date}".into())]),
        timeout_secs: Some(7),
    });
    let plan = action.prepare_at("/d/img.jpg", &stamps());
    assert_eq!(plan.command, "/opt/jpg/convert");
    assert_eq!(
        plan.args,
        vec!["/d/img.jpg".to_string(), "--out".to_string(), "/d/img.png".to_string()]
    );
    assert_eq!(plan.cwd, Some("/d".to_string()));
    assert_eq!(
        plan.env,
        vec![
            ("FILE_jpg".to_string(), "img.jpg".to_string()),
            ("DAY".to_string(), "2024-02-29".to_string())
        ]
    );
    assert_eq!(plan.timeout_secs, Some(7));
    let bare = ExecAction::new(ExecActionConfig {
        command: "true".into(),
        args: None,
        cwd: None,
        env: None,
        timeout_secs: None,
    });
    let plan = bare.prepare_at("/d/img.jpg", &stamps());
    assert_eq!(plan.command, "true");
    assert!(plan.args.is_empty());
    assert_eq!(plan.cwd, None);
    assert!(plan.env.is_empty());
    assert_eq!(plan.timeout_secs, None);
}

#[test]
fn polling_waits_until_the_deadline_and_then_kills() {
    assert_eq!(POLL_INTERVAL_MS, 50);
    assert_eq!(ExecAction::poll(Some(2), 0, false), PollStep::Wait);
    assert_eq!(ExecAction::poll(Some(2), 1_999, false), PollStep::Wait);
    assert_eq!(ExecAction::poll(Some(2), 2_000, false), PollStep::Kill);
    assert_eq!(ExecAction::poll(Some(2), 2_001, false), PollStep::Kill);
    assert_eq!(ExecAction::poll(Some(0), 0, false), PollStep::Kill);
    assert_eq!(ExecAction::poll(None, u64::MAX, false), PollStep::WaitForEnd);
    assert_eq!(ExecAction::poll(None, 0, false), PollStep::WaitForEnd);
    assert_eq!(ExecAction::poll(Some(u64::MAX), u64::MAX, false), PollStep::Wait);
    assert_eq!(ExecAction::poll(Some(u64::MAX / 1000), u64::MAX, false), PollStep::Kill);
    // A command that has ended is done, deadline or not.
    assert_eq!(ExecAction::poll(Some(0), 0, true), PollStep::Done);
    assert_eq!(ExecAction::poll(Some(2), 5_000, true), PollStep::Done);
    assert_eq!(ExecAction::poll(None, 0, true), PollStep::Done);
}

#[test]
fn the_end_of_a_command_decides_the_result() {
    let action = ExecAction::new(ExecActionConfig {
        command: "x".into(),
        args: None,
        cwd: None,
        env: None,
        timeout_secs: Some(9),
    });
    assert!(matches!(
        action.conclude(ExecReport::Exited { success: true, code: Some(0) }),
        Ok(ActionOutcome::Executed { code: Some(0) })
    ));
    assert!(matches!(
        action.conclude(ExecReport::Exited { success: false, code: Some(3) }),
        Err(ActionError::ProcessExit { code: Some(3) })
    ));
    assert!(matches!(
        action.conclude(ExecReport::Exited { success: false, code: None }),
        Err(ActionError::ProcessExit { code: None })
    ));
    assert!(matches!(
        action.conclude(ExecReport::TimedOut),
        Err(ActionError::Timeout { secs: 9 })
    ));
    match action.conclude(ExecReport::Failed { message: "no such file".into() }) {
        Err(ActionError::IoFailure { message }) => assert_eq!(message, "no such file"),
        other => panic!("expected a failure, got {:?}", other),
    }
}

#[test]
fn a_command_that_fails_or_cannot_start_is_an_error() {
    let action = ExecAction::new(ExecActionConfig {
        command: "/bin/false".into(),
        args: None,
        cwd: None,
        env: None,
        timeout_secs: None,
    });
    let launcher = Rehearsal::new(0, 1);
    assert!(matches!(
        action.run("/tmp/file.txt", &launcher),
        Err(ActionError::ProcessExit { code: Some(1) })
    ));
    let missing = ExecAction::new(ExecActionConfig {
        command: "".into(),
        args: None,
        cwd: None,
        env: None,
        timeout_secs: None,
    });
    assert!(matches!(
        missing.run("/tmp/file.txt", &launcher),
        Err(ActionError::IoFailure { .. })
    ));
}

#[test]
fn declared_actions_build_what_they_declare() {
    let launcher = Rehearsal::new(0, 0);
    let ctx = ctx(existing(&["/out/a.txt"]));
    let built = ActionConfig::Move {
        destination: "/out/".into(),
        overwrite: Some(MoveOverwritePolicy::Suffix),
    }
    .into_action();
    assert!(matches!(built, Action::Move(_)));
    match built.run("/in/a.txt", &ctx, &launcher) {
        Ok(ActionOutcome::Moved { to, .. }) => assert_eq!(to, "/out/a_1.txt"),
        other => panic!("expected a move, got {:?}", other),
    }
    let built = ActionConfig::Move { destination: "/out/".into(), overwrite: None }.to_action();
    assert!(matches!(
        built.run("/in/a.txt", &ctx, &launcher),
        Err(ActionError::DestinationExists { .. })
    ));
    let built = ActionConfig::Log { message: "seen {name}".into() }.into_action();
    match built.run("/in/a.txt", &ctx, &launcher) {
        Ok(ActionOutcome::Logged { message }) => assert_eq!(message, "seen a"),
        other => panic!("expected a line, got {:?}", other),
    }
    let built = ActionConfig::Exec {
        command: "touch".into(),
        args: Some(vec!["{path}".into()]),
        cwd: None,
        env: None,
        timeout_secs: None,
    }
    .to_action();
    assert!(matches!(
        built.run("/in/a.txt", &ctx, &launcher),
        Ok(ActionOutcome::Executed { code: Some(0) })
    ));
    assert_eq!(launcher.launched.borrow().last().unwrap().args, vec!["/in/a.txt".to_string()]);
    let built = Action::Rename(RenameAction::new("b.txt".into()));
    assert!(matches!(
        built.run_at("/in/a.txt", &ctx, &launcher, &stamps()),
        Ok(ActionOutcome::Renamed { .. })
    ));
}

#[test]
fn free_names_are_looked_for_in_order() {
    let ctx = ctx(existing(&["/out/a_1", "/out/a_2", "/out/a_4"]));
    assert_eq!(MoveAction::free_name("/out/a", &ctx), Some("/out/a_3".to_string()));
    let empty = self::ctx(MockFs::default());
    assert_eq!(MoveAction::free_name("/out/a", &empty), Some("/out/a_1".to_string()));
    let crowded = self::ctx(MockFs { crowded: true, ..Default::default() });
    assert_eq!(MoveAction::free_name("/out/a", &crowded), None);
}

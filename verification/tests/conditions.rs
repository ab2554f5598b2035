use willow::condition::ConditionConfig;
use willow::conditions::contains::MAX_CONTENT_BYTES;
use willow::conditions::{
    Condition, ConditionKind, ContainsCondition, ExtensionCondition, GlobCondition,
    RegexCondition, SizeGtCondition, SizeLtCondition,
};
use willow::engine::EngineCtx;
use willow::error::ConfigError;
use willow::fs::{FileStat, Fs, FsError};
use willow::models::{Event, EventInfo, FileMeta};

/// A file system that holds one text and a list of sizes.
#[derive(Default)]
struct MockFs {
    content: String,
    err: bool,
    sizes: Vec<(String, u64)>,
}

fn refused(what: &str) -> FsError {
    FsError { message: what.to_string() }
}

impl Fs for MockFs {
    fn metadata(&self, path: &str) -> Result<FileStat, FsError> {
        match self.sizes.iter().find(|(p, _)| p == path) {
            Some((_, len)) => Ok(FileStat { len: *len, mtime: None, is_dir: false }),
            None => Err(refused("unused")),
        }
    }
    fn create_dir_all(&self, _path: &str) -> Result<(), FsError> {
        Ok(())
    }
    fn rename(&self, _from: &str, _to: &str) -> Result<(), FsError> {
        Ok(())
    }
    fn path_exists(&self, _path: &str) -> bool {
        false
    }
    fn read_to_string(&self, _path: &str) -> Result<String, FsError> {
        if self.err {
            Err(refused("boom"))
        } else {
            Ok(self.content.clone())
        }
    }
}

fn ctx() -> EngineCtx<MockFs> {
    EngineCtx::new(MockFs::default())
}

fn ctx_with(content: &str, err: bool) -> EngineCtx<MockFs> {
    EngineCtx::new(MockFs { content: content.into(), err, sizes: Vec::new() })
}

fn event(path: &str, event: Event) -> EventInfo {
    EventInfo { path: path.to_string(), event, meta: None }
}

fn sized(path: &str, size: u64) -> EventInfo {
    EventInfo {
        path: path.to_string(),
        event: Event::Any,
        meta: Some(FileMeta { size: Some(size), modified: None, name: None, ext: None }),
    }
}

#[test]
fn finds_substring_when_present() {
    let ctx = ctx_with("hello world", false);
    let cond = ContainsCondition::new("world".into());
    let ev = event("/tmp/file.txt", Event::Any);
    assert!(cond.matches(&ev, &ctx));
}

#[test]
fn returns_false_when_absent_or_error() {
    let ctx = ctx_with("hello", false);
    let cond = ContainsCondition::new("world".into());
    let ev = event("/tmp/file.txt", Event::Any);
    assert!(!cond.matches(&ev, &ctx));

    let ctx_err = ctx_with("ignored", true);
    assert!(!cond.matches(&ev, &ctx_err));
}

#[test]
fn matches_exact_extension() {
    let cond = ExtensionCondition::new("txt".into());
    let ev = event("/x/file.txt", Event::Any);
    assert!(cond.matches(&ev, &ctx()));
}

#[test]
fn does_not_match_when_extension_differs() {
    let cond = ExtensionCondition::new("txt".into());
    let ev = event("/x/file.md", Event::Any);
    assert!(!cond.matches(&ev, &ctx()));
}

#[test]
fn matches_glob_on_filename() {
    let cond = GlobCondition::new("*.jpeg".to_string()).unwrap();
    let ev = event("/tmp/pic.jpeg", Event::Created);
    assert!(cond.matches(&ev, &ctx()));
}

#[test]
fn non_match_for_other_extensions() {
    let cond = GlobCondition::new("*.jpeg".to_string()).unwrap();
    let ev = event("/tmp/doc.pdf", Event::Created);
    assert!(!cond.matches(&ev, &ctx()));
}

#[test]
fn matches_filename_against_regex() {
    let cond = RegexCondition::new("^file_\\d+\\.txt$".to_string()).unwrap();
    let ev = event("/tmp/dir/file_123.txt", Event::Modified);
    assert!(cond.matches(&ev, &ctx()));
}

#[test]
fn does_not_match_non_matching_filename() {
    let cond = RegexCondition::new("^file_\\d+\\.txt$".to_string()).unwrap();
    let ev = event("/tmp/dir/other.log", Event::Modified);
    assert!(!cond.matches(&ev, &ctx()));
}

#[test]
fn size_gt_with_meta_short_circuits() {
    let cond = SizeGtCondition::new(10);
    let ev = sized("/tmp/a", 11);
    assert!(cond.matches(&ev, &ctx()));
    let ev2 = sized("/tmp/a", 9);
    assert!(!cond.matches(&ev2, &ctx()));
}

#[test]
fn size_lt_with_meta_short_circuits() {
    let cond = SizeLtCondition::new(10);
    let ev = sized("/tmp/a", 9);
    assert!(cond.matches(&ev, &ctx()));
    let ev2 = sized("/tmp/a", 11);
    assert!(!cond.matches(&ev2, &ctx()));
}

#[test]
fn size_checks_fallback_to_fs_metadata() {
    let ctx = EngineCtx::new(MockFs {
        sizes: vec![
            ("target/test_size/small.bin".to_string(), 5),
            ("target/test_size/big.bin".to_string(), 20),
        ],
        ..Default::default()
    });
    let ev = event("target/test_size/small.bin", Event::Any);
    assert!(SizeLtCondition::new(10).matches(&ev, &ctx));
    assert!(!SizeGtCondition::new(10).matches(&ev, &ctx));

    let ev2 = event("target/test_size/big.bin", Event::Any);
    assert!(SizeGtCondition::new(10).matches(&ev2, &ctx));
    assert!(!SizeLtCondition::new(10).matches(&ev2, &ctx));
}

#[test]
fn size_conditions_fail_when_the_file_cannot_be_read() {
    let ev = event("/gone", Event::Any);
    assert!(!SizeGtCondition::new(0).matches(&ev, &ctx()));
    assert!(!SizeLtCondition::new(100).matches(&ev, &ctx()));
    assert!(!SizeGtCondition::new(0).judge(&Err(refused("gone"))));
    assert!(SizeGtCondition::new(0).judge(&Ok(FileStat { len: 1, mtime: None, is_dir: false })));
}

#[test]
fn size_bounds_are_strict_and_read_as_numbers() {
    assert!(!SizeGtCondition::new(10).admits(10));
    assert!(SizeGtCondition::new(10).admits(11));
    assert!(!SizeLtCondition::new(10).admits(10));
    assert!(SizeLtCondition::new(10).admits(9));
    assert!(SizeGtCondition::new(-1).admits(0));
    assert!(!SizeLtCondition::new(-1).admits(0));
    assert!(!SizeLtCondition::new(0).admits(0));
    assert!(SizeGtCondition::new(i64::MAX).admits(u64::MAX));
    assert!(!SizeLtCondition::new(i64::MAX).admits(u64::MAX));
}

#[test]
fn extension_is_lowered_before_it_is_compared() {
    let cond = ExtensionCondition::new("txt".into());
    assert!(cond.matches(&event("/x/FILE.TXT", Event::Any), &ctx()));
    assert!(cond.matches(&event("/x/file.Txt", Event::Any), &ctx()));
    let upper = ExtensionCondition::new("TXT".into());
    assert!(!upper.matches(&event("/x/file.TXT", Event::Any), &ctx()));
    assert!(!upper.matches(&event("/x/file.txt", Event::Any), &ctx()));
    assert!(!cond.matches(&event("/x/txt", Event::Any), &ctx()));
    assert!(!cond.matches(&event("/x/.txt", Event::Any), &ctx()));
}

#[test]
fn regex_and_glob_read_the_file_name_only() {
    let re = RegexCondition::new("^tmp".to_string()).unwrap();
    assert!(!re.matches(&event("/tmp/file.txt", Event::Any), &ctx()));
    assert!(re.matches(&event("/var/tmpfile", Event::Any), &ctx()));
    let glob = GlobCondition::new("file.*".to_string()).unwrap();
    assert!(glob.matches(&event("/tmp/file.txt", Event::Any), &ctx()));
    assert!(!glob.matches(&event("/file.d/other", Event::Any), &ctx()));
    assert!(!re.matches(&event("/", Event::Any), &ctx()));
    assert!(!glob.matches(&event("/tmp/..", Event::Any), &ctx()));
}

#[test]
fn a_regex_matches_anywhere_and_a_glob_the_whole_name() {
    let re = RegexCondition::new("ile".to_string()).unwrap();
    assert!(re.matches(&event("/tmp/file.txt", Event::Any), &ctx()));
    let glob = GlobCondition::new("ile".to_string()).unwrap();
    assert!(!glob.matches(&event("/tmp/file.txt", Event::Any), &ctx()));
    let exact = GlobCondition::new("f?le.[st]xt".to_string()).unwrap();
    assert!(exact.matches(&event("/tmp/file.txt", Event::Any), &ctx()));
    assert!(!exact.matches(&event("/tmp/file.bxt", Event::Any), &ctx()));
}

#[test]
fn invalid_patterns_are_refused_when_built() {
    match RegexCondition::new("(unclosed".to_string()) {
        Err(ConfigError::InvalidRegex { pattern }) => assert_eq!(pattern, "(unclosed"),
        _ => panic!("an unclosed group compiled"),
    }
    match GlobCondition::new("a***b".to_string()) {
        Err(ConfigError::InvalidGlob { pattern }) => assert_eq!(pattern, "a***b"),
        _ => panic!("three stars compiled"),
    }
    assert!(GlobCondition::new("[unclosed".to_string()).is_err());
    assert_eq!(RegexCondition::new("a+".to_string()).unwrap().source(), "a+");
    assert_eq!(GlobCondition::new("*.c".to_string()).unwrap().source(), "*.c");
}

#[test]
fn kinds_tell_cheap_conditions_from_the_rest() {
    assert_eq!(RegexCondition::new("a".to_string()).unwrap().kind(), ConditionKind::Static);
    assert_eq!(GlobCondition::new("a".to_string()).unwrap().kind(), ConditionKind::Static);
    assert_eq!(ExtensionCondition::new("a".to_string()).kind(), ConditionKind::Static);
    assert_eq!(SizeGtCondition::new(1).kind(), ConditionKind::Io);
    assert_eq!(SizeLtCondition::new(1).kind(), ConditionKind::Io);
    assert_eq!(ContainsCondition::new("a".to_string()).kind(), ConditionKind::Io);
}

#[test]
fn declared_conditions_build_what_they_declare() {
    let built = ConditionConfig::Extension { value: "jpg".into() }.into_condition().unwrap();
    assert_eq!(built.kind(), ConditionKind::Static);
    assert!(built.matches(&event("/d/img.jpg", Event::Any), &ctx()));
    let built = ConditionConfig::SizeGt { value: 1 }.into_condition().unwrap();
    assert_eq!(built.kind(), ConditionKind::Io);
    assert!(built.matches(&sized("/d/img.jpg", 2), &ctx()));
    assert!(!built.matches(&sized("/d/img.jpg", 1), &ctx()));
    let built = ConditionConfig::SizeLt { value: 1 }.into_condition().unwrap();
    assert!(built.matches(&sized("/d/img.jpg", 0), &ctx()));
    let built = ConditionConfig::Contains { value: "ell".into() }.into_condition().unwrap();
    assert!(built.matches(&event("/d/a", Event::Any), &ctx_with("hello", false)));
    let built = ConditionConfig::Regex { value: "^img".into() }.into_condition().unwrap();
    assert!(matches!(built, Condition::Regex(_)));
    let built = ConditionConfig::Glob { value: "img.*".into() }.into_condition().unwrap();
    assert!(matches!(built, Condition::Glob(_)));
    assert!(matches!(
        ConditionConfig::Regex { value: "[".into() }.into_condition(),
        Err(ConfigError::InvalidRegex { .. })
    ));
    assert!(matches!(
        ConditionConfig::Glob { value: "[".into() }.into_condition(),
        Err(ConfigError::InvalidGlob { .. })
    ));
}

#[test]
fn the_empty_text_is_found_in_every_file_that_can_be_read() {
    let cond = ContainsCondition::new(String::new());
    assert!(cond.matches(&event("/a", Event::Any), &ctx_with("", false)));
    assert!(cond.matches(&event("/a", Event::Any), &ctx_with("x", false)));
    assert!(!cond.matches(&event("/a", Event::Any), &ctx_with("x", true)));
    assert!(cond.judge(&Ok("anything".to_string())));
    assert!(!cond.judge(&Err(refused("none"))));
}

#[test]
fn a_file_known_to_be_too_large_is_not_read() {
    let cond = ContainsCondition::new("a".into());
    let ctx = ctx_with("aaa", false);
    assert!(cond.matches(&sized("/big", MAX_CONTENT_BYTES), &ctx));
    assert!(!cond.matches(&sized("/big", MAX_CONTENT_BYTES + 1), &ctx));
    let listed = EngineCtx::new(MockFs {
        content: "aaa".into(),
        err: false,
        sizes: vec![("/big".to_string(), MAX_CONTENT_BYTES + 1), ("/small".to_string(), 3)],
    });
    assert!(!cond.matches(&event("/big", Event::Any), &listed));
    assert!(cond.matches(&event("/small", Event::Any), &listed));
}

use save_mirror::clock::{read_clock, Moment};
use save_mirror::config::validate_arg;
use save_mirror::model::{
    name_has_extension, EventFile, EventFileError, EventTracker, RestoreFile, ScratchRule,
};
use save_mirror::watch::{handle_event, ChangeKind, Step};

fn at(secs: i64, hour: u32, minute: u32, second: u32) -> Moment {
    Moment::from_parts(secs * 1000, 2024, 3, 9, hour, minute, second).unwrap()
}

fn paths(p: &str) -> Vec<String> {
    vec![p.to_string()]
}

fn copy_target(step: Step) -> String {
    match step {
        Step::Copy(f) => f.target_path,
        _ => panic!("expected a copy"),
    }
}

#[test]
fn cycle_id_is_zero_padded() {
    let m = Moment::from_parts(0, 987, 1, 2, 3, 4, 5).unwrap();
    assert_eq!(m.cycle_id(), "09870102_030405");
    assert_eq!(at(0, 12, 30, 59).cycle_id(), "20240309_123059");
}

#[test]
fn from_parts_rejects_out_of_range() {
    assert!(Moment::from_parts(0, 10000, 1, 1, 0, 0, 0).is_none());
    assert!(Moment::from_parts(0, -1, 1, 1, 0, 0, 0).is_none());
    assert!(Moment::from_parts(0, 2024, 13, 1, 0, 0, 0).is_none());
    assert!(Moment::from_parts(0, 2024, 1, 0, 0, 0, 0).is_none());
    assert!(Moment::from_parts(0, 2024, 1, 1, 24, 0, 0).is_none());
    assert!(Moment::from_parts(0, 2024, 1, 1, 0, 60, 0).is_none());
    assert!(Moment::from_parts(0, 2024, 1, 1, 0, 0, 60).is_none());
    assert!(Moment::from_parts(0, 9999, 12, 31, 23, 59, 59).is_some());
}

#[test]
fn extension_rule() {
    assert!(name_has_extension("draft.txt.stmp"));
    assert!(name_has_extension("notes.txt"));
    assert!(name_has_extension("a."));
    assert!(!name_has_extension("notes"));
    assert!(!name_has_extension(".bashrc"));
    assert!(!name_has_extension(""));
}

#[test]
fn event_file_builds_in_steps() {
    let f = EventFile::new(&vec!["/w/sub/deep/report".to_string(), "/w/other".to_string()]);
    assert_eq!(f.source_path, "");
    let f = f.build_source().ok().unwrap();
    assert_eq!(f.source_path, "/w/sub/deep/report");
    let f = f.build_file_name_and_extension().ok().unwrap();
    assert_eq!(f.file_name, "report");
    assert!(!f.is_temp_file);
    let f = f.build_target("backup/20240309_120000").ok().unwrap();
    assert_eq!(f.target_path, "backup/20240309_120000/report");
    assert_eq!(f.target_dir, "backup/20240309_120000");
}

#[test]
fn event_file_errors() {
    let e = EventFile::new(&Vec::new()).build_source().err().unwrap();
    assert_eq!(e, EventFileError::NoPaths);
    let f = EventFile::new(&paths("/")).build_source().ok().unwrap();
    assert_eq!(f.build_file_name_and_extension().err().unwrap(), EventFileError::NoFileName);
    let f = EventFile::new(&paths("/w/..")).build_source().ok().unwrap();
    assert_eq!(f.build_target("b").err().unwrap(), EventFileError::NoFileName);
}

#[test]
fn restore_file_targets_save_dir() {
    let r = RestoreFile::new("/home/me/saves", "backup/20240309_120000/notes").ok().unwrap();
    assert_eq!(r.source_path, "backup/20240309_120000/notes");
    assert_eq!(r.target_path, "/home/me/saves/notes");
    assert_eq!(RestoreFile::new("s", "/").err().unwrap(), EventFileError::NoFileName);
}

#[test]
fn tracker_push_pop_last() {
    let mut t = EventTracker::new(at(0, 12, 0, 0));
    assert!(t.is_idle());
    assert!(t.last().is_none());
    t.push("a".to_string());
    assert_eq!(t.last().unwrap(), "a");
    t.pop();
    assert!(t.last().is_none());
    t.pop();
    assert!(t.last().is_none());
    t.start_cycle(at(10, 12, 0, 10));
    assert!(!t.is_idle());
    assert_eq!(t.current_cycle.millis, 10000);
    t.update_last_backup(at(15, 12, 0, 15));
    assert_eq!(t.duration_since_last_backup(at(20, 12, 0, 20)), 5000);
    assert_eq!(t.current_cycle.millis, 10000);
}

#[test]
fn validate_arg_accepts_two_commands() {
    assert!(validate_arg("monitor").is_ok());
    assert!(validate_arg("restore").is_ok());
    assert_eq!(validate_arg("monitors").err().unwrap(), "Invalid command");
    assert!(validate_arg("").is_err());
    assert!(validate_arg("Monitor").is_err());
}

#[test]
fn single_rename_is_only_held() {
    let mut t = EventTracker::new(at(0, 12, 0, 0));
    let s = handle_event(&mut t, ChangeKind::Rename, &paths("/w/notes"), at(1, 12, 0, 1), "backup", 30, &ScratchRule::AnyExtension);
    assert!(matches!(s, Step::Pending));
    assert_eq!(t.last().unwrap(), "/w/notes");
}

#[test]
fn second_rename_copies_once_and_empties() {
    let mut t = EventTracker::new(at(0, 12, 0, 0));
    handle_event(&mut t, ChangeKind::Rename, &paths("/w/notes"), at(1, 12, 0, 1), "backup", 30, &ScratchRule::AnyExtension);
    let s = handle_event(&mut t, ChangeKind::Rename, &paths("/w/notes"), at(1, 12, 0, 1), "backup", 30, &ScratchRule::AnyExtension);
    assert!(matches!(s, Step::Copy(_)));
    assert!(t.last().is_none());
    let s = handle_event(&mut t, ChangeKind::Rename, &paths("/w/notes"), at(2, 12, 0, 2), "backup", 30, &ScratchRule::AnyExtension);
    assert!(matches!(s, Step::Pending));
}

#[test]
fn other_kinds_are_ignored() {
    let mut t = EventTracker::new(at(0, 12, 0, 0));
    let s = handle_event(&mut t, ChangeKind::Modify, &paths("/w/notes"), at(1, 12, 0, 1), "backup", 30, &ScratchRule::AnyExtension);
    assert!(matches!(s, Step::Ignored));
    let s = handle_event(&mut t, ChangeKind::Other, &paths("/w/notes"), at(1, 12, 0, 1), "backup", 30, &ScratchRule::AnyExtension);
    assert!(matches!(s, Step::Ignored));
    assert!(t.last().is_none());
}

#[test]
fn empty_event_is_rejected() {
    let mut t = EventTracker::new(at(0, 12, 0, 0));
    let s = handle_event(&mut t, ChangeKind::Rename, &Vec::new(), at(1, 12, 0, 1), "backup", 30, &ScratchRule::AnyExtension);
    assert!(matches!(s, Step::Rejected(EventFileError::NoPaths)));
    let s = handle_event(&mut t, ChangeKind::Rename, &paths("/"), at(1, 12, 0, 1), "backup", 30, &ScratchRule::AnyExtension);
    assert!(matches!(s, Step::Rejected(EventFileError::NoFileName)));
    assert!(t.last().is_none());
}

#[test]
fn save_while_idle_copies_into_new_cycle() {
    let mut t = EventTracker::new(at(0, 12, 0, 0));
    let s = handle_event(&mut t, ChangeKind::Rename, &paths("/w/notes"), at(1, 12, 0, 1), "backup", 30, &ScratchRule::AnyExtension);
    assert!(matches!(s, Step::Pending));
    let s = handle_event(&mut t, ChangeKind::Rename, &paths("/w/notes"), at(1, 12, 0, 1), "backup", 30, &ScratchRule::AnyExtension);
    assert_eq!(copy_target(s), "backup/20240309_120001/notes");
    assert!(t.last().is_none());
    assert!(!t.is_idle());
}

#[test]
fn saves_five_seconds_apart_share_cycle() {
    let mut t = EventTracker::new(at(0, 12, 0, 0));
    let n = paths("/w/notes");
    handle_event(&mut t, ChangeKind::Rename, &n, at(1, 12, 0, 1), "backup", 30, &ScratchRule::AnyExtension);
    let a = copy_target(handle_event(&mut t, ChangeKind::Rename, &n, at(1, 12, 0, 1), "backup", 30, &ScratchRule::AnyExtension));
    handle_event(&mut t, ChangeKind::Rename, &n, at(6, 12, 0, 6), "backup", 30, &ScratchRule::AnyExtension);
    let b = copy_target(handle_event(&mut t, ChangeKind::Rename, &n, at(6, 12, 0, 6), "backup", 30, &ScratchRule::AnyExtension));
    assert_eq!(a, "backup/20240309_120001/notes");
    assert_eq!(a, b);
}

#[test]
fn saves_forty_seconds_apart_open_later_cycle() {
    let mut t = EventTracker::new(at(0, 12, 0, 0));
    let n = paths("/w/notes");
    handle_event(&mut t, ChangeKind::Rename, &n, at(1, 12, 0, 1), "backup", 30, &ScratchRule::AnyExtension);
    let a = copy_target(handle_event(&mut t, ChangeKind::Rename, &n, at(1, 12, 0, 1), "backup", 30, &ScratchRule::AnyExtension));
    handle_event(&mut t, ChangeKind::Rename, &n, at(41, 12, 0, 41), "backup", 30, &ScratchRule::AnyExtension);
    let b = copy_target(handle_event(&mut t, ChangeKind::Rename, &n, at(41, 12, 0, 41), "backup", 30, &ScratchRule::AnyExtension));
    assert_eq!(a, "backup/20240309_120001/notes");
    assert_eq!(b, "backup/20240309_120041/notes");
    assert!(a < b);
}

#[test]
fn cycle_continues_while_saves_keep_coming() {
    let mut t = EventTracker::new(at(0, 12, 0, 0));
    let n = paths("/w/notes");
    let mut targets = Vec::new();
    let mut s: i64 = 1;
    while s <= 100 {
        let m = at(s, 12, (s / 60) as u32, (s % 60) as u32);
        handle_event(&mut t, ChangeKind::Rename, &n, m, "backup", 30, &ScratchRule::AnyExtension);
        targets.push(copy_target(handle_event(&mut t, ChangeKind::Rename, &n, m, "backup", 30, &ScratchRule::AnyExtension)));
        s += 20;
    }
    for x in &targets {
        assert_eq!(x, "backup/20240309_120001/notes");
    }
}

#[test]
fn temporary_file_is_never_pending() {
    let mut t = EventTracker::new(at(0, 12, 0, 0));
    let s = handle_event(&mut t, ChangeKind::Rename, &paths("/w/draft.txt.stmp"), at(1, 12, 0, 1), "backup", 30, &ScratchRule::AnyExtension);
    assert!(matches!(s, Step::Temporary));
    assert!(t.last().is_none());
    t.push("/w/notes".to_string());
    let s = handle_event(&mut t, ChangeKind::Rename, &paths("/w/draft.txt.stmp"), at(1, 12, 0, 1), "backup", 30, &ScratchRule::AnyExtension);
    assert!(matches!(s, Step::Temporary));
    assert_eq!(t.last().unwrap(), "/w/notes");
}

#[test]
fn file_with_extension_counts_as_temporary() {
    let mut t = EventTracker::new(at(0, 12, 0, 0));
    let s = handle_event(&mut t, ChangeKind::Rename, &paths("/w/notes.txt"), at(1, 12, 0, 1), "backup", 30, &ScratchRule::AnyExtension);
    assert!(matches!(s, Step::Temporary));
    assert!(t.last().is_none());
}

#[test]
fn target_ignores_source_depth() {
    let mut t = EventTracker::new(at(0, 12, 0, 0));
    handle_event(&mut t, ChangeKind::Rename, &paths("/w/a/b/c/notes"), at(1, 12, 0, 1), "/var/bk/", 30, &ScratchRule::AnyExtension);
    let a = copy_target(handle_event(&mut t, ChangeKind::Rename, &paths("/w/a/b/c/notes"), at(1, 12, 0, 1), "/var/bk/", 30, &ScratchRule::AnyExtension));
    handle_event(&mut t, ChangeKind::Rename, &paths("/w/notes"), at(2, 12, 0, 2), "/var/bk/", 30, &ScratchRule::AnyExtension);
    let b = copy_target(handle_event(&mut t, ChangeKind::Rename, &paths("/w/notes"), at(2, 12, 0, 2), "/var/bk/", 30, &ScratchRule::AnyExtension));
    assert_eq!(a, "/var/bk/20240309_120001/notes");
    assert_eq!(a, b);
}

fn stmp() -> ScratchRule {
    ScratchRule::Suffixes(vec![".stmp".to_string()])
}

fn save(t: &mut EventTracker, path: &str, secs: i64, rule: &ScratchRule) -> Step {
    let m = at(secs, 12, (secs / 60) as u32, (secs % 60) as u32);
    handle_event(t, ChangeKind::Rename, &paths(path), m, "backup", 30, rule)
}

#[test]
fn suffix_rule_matches_listed_suffixes() {
    let r = ScratchRule::Suffixes(vec![".stmp".to_string(), "~".to_string()]);
    assert!(r.is_scratch("draft.txt.stmp"));
    assert!(r.is_scratch("notes.txt~"));
    assert!(!r.is_scratch("notes.txt"));
    assert!(!r.is_scratch("stmp"));
    assert!(!ScratchRule::Suffixes(Vec::new()).is_scratch("a.stmp"));
    assert!(ScratchRule::AnyExtension.is_scratch("notes.txt"));
}

#[test]
fn scenario_save_notes_txt_while_idle() {
    let rule = stmp();
    let mut t = EventTracker::new(at(0, 12, 0, 0));
    assert!(matches!(save(&mut t, "/w/notes.txt", 1, &rule), Step::Pending));
    assert_eq!(t.last().unwrap(), "/w/notes.txt");
    let target = copy_target(save(&mut t, "/w/notes.txt", 1, &rule));
    assert_eq!(target, "backup/20240309_120001/notes.txt");
    assert!(t.last().is_none());
}

#[test]
fn scenario_two_saves_five_seconds_apart() {
    let rule = stmp();
    let mut t = EventTracker::new(at(0, 12, 0, 0));
    save(&mut t, "/w/notes.txt", 1, &rule);
    let a = copy_target(save(&mut t, "/w/notes.txt", 1, &rule));
    save(&mut t, "/w/notes.txt", 6, &rule);
    let b = copy_target(save(&mut t, "/w/notes.txt", 6, &rule));
    assert_eq!(a, "backup/20240309_120001/notes.txt");
    assert_eq!(a, b);
}

#[test]
fn scenario_two_saves_forty_seconds_apart() {
    let rule = stmp();
    let mut t = EventTracker::new(at(0, 12, 0, 0));
    save(&mut t, "/w/notes.txt", 1, &rule);
    let a = copy_target(save(&mut t, "/w/notes.txt", 1, &rule));
    save(&mut t, "/w/notes.txt", 41, &rule);
    let b = copy_target(save(&mut t, "/w/notes.txt", 41, &rule));
    assert_eq!(a, "backup/20240309_120001/notes.txt");
    assert_eq!(b, "backup/20240309_120041/notes.txt");
    assert!(a < b);
}

#[test]
fn scenario_scratch_file_is_dropped() {
    for rule in [stmp(), ScratchRule::AnyExtension] {
        let mut t = EventTracker::new(at(0, 12, 0, 0));
        assert!(matches!(save(&mut t, "/w/draft.txt.stmp", 1, &rule), Step::Temporary));
        assert!(t.last().is_none());
        assert!(matches!(save(&mut t, "/w/draft.txt.stmp", 2, &rule), Step::Temporary));
        assert!(t.last().is_none());
    }
}

#[test]
fn cycle_ids_sort_in_time_order() {
    let a = Moment::from_parts(0, 2024, 12, 31, 23, 59, 59).unwrap().cycle_id();
    let b = Moment::from_parts(0, 2025, 1, 1, 0, 0, 0).unwrap().cycle_id();
    let c = Moment::from_parts(0, 2025, 1, 1, 0, 0, 1).unwrap().cycle_id();
    assert!(a < b);
    assert!(b < c);
}

#[test]
fn clock_reading_is_usable() {
    let m = read_clock().unwrap();
    assert!(m.millis > 1_600_000_000_000);
    assert!(m.stamp.year >= 2020);
    assert_eq!(m.cycle_id().len(), 15);
}

#[test]
fn copied_file_is_not_marked_temporary() {
    let rule = stmp();
    let mut t = EventTracker::new(at(0, 12, 0, 0));
    save(&mut t, "/w/notes.txt", 1, &rule);
    match save(&mut t, "/w/notes.txt", 1, &rule) {
        Step::Copy(f) => {
            assert!(!f.is_temp_file);
            assert_eq!(f.file_name, "notes.txt");
            assert_eq!(f.source_path, "/w/notes.txt");
            assert_eq!(f.target_dir, "backup/20240309_120001");
        }
        _ => panic!("expected a copy"),
    }
}

#[test]
fn run_of_saves_copies_every_second_half() {
    let rule = stmp();
    let mut t = EventTracker::new(at(0, 12, 0, 0));
    let mut copies = 0;
    let names = ["/w/a", "/w/b.stmp", "/w/c", "/w/d", "/w/e.stmp", "/w/f", "/w/g"];
    let mut secs: i64 = 1;
    for n in names {
        if let Step::Copy(_) = save(&mut t, n, secs, &rule) {
            copies += 1;
        }
        secs += 1;
    }
    assert_eq!(copies, 2);
    assert_eq!(t.last().unwrap(), "/w/g");
}

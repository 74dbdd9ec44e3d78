use viletech::data::{count_all, resolve_mount_kind, LoadOutcome, MountChild, MountFormat, MountKind, MountMeta};
use viletech::interface;
use viletech::prep::{any_fatal_errors, pass_work, prep_pass1_file, Outcome, PassWork, PrepAction, PrepDriver, PrepError, PrepErrorKind, PrepPass};
use viletech::vfs::{File, VirtualFs};
use viletech::tracker::{progress_reached, LoadTracker};

fn child(name: &str, prefix: &str, is_text: bool) -> MountChild {
    MountChild { file_name: name.to_string(), file_prefix: prefix.to_string(), is_text }
}

#[test]
fn mount_kinds_follow_their_precedence() {
    assert_eq!(resolve_mount_kind(MountFormat::Wad, false, &[]), MountKind::Wad);
    assert_eq!(resolve_mount_kind(MountFormat::PlainFile, true, &[]), MountKind::Misc);
    let vt = [child("ZSCRIPT.txt", "ZSCRIPT", true), child("Meta.TOML", "Meta", true)];
    assert_eq!(resolve_mount_kind(MountFormat::Directory, false, &vt), MountKind::VileTech);
    let zd = [child("meta.toml", "meta", false), child("SndInfo.txt", "SndInfo", true)];
    assert_eq!(resolve_mount_kind(MountFormat::Zip, false, &zd), MountKind::ZDoom);
    let et = [child("EDFROOT.edf", "EDFROOT", true)];
    assert_eq!(resolve_mount_kind(MountFormat::Directory, false, &et), MountKind::Eternity);
    let plain = [child("readme.txt", "readme", true)];
    assert_eq!(resolve_mount_kind(MountFormat::Directory, false, &plain), MountKind::Misc);
    assert_eq!(resolve_mount_kind(MountFormat::Directory, false, &[]), MountKind::Misc);
}

#[test]
fn mount_meta_getters() {
    let m = MountMeta {
        version: Some("1.2".to_string()),
        name: None,
        description: Some("d".to_string()),
        authors: vec!["a".to_string()],
        copyright: None,
        links: vec!["l1".to_string(), "l2".to_string()],
    };
    assert_eq!(m.version(), Some("1.2"));
    assert_eq!(m.name(), None);
    assert_eq!(m.description(), Some("d"));
    assert_eq!(m.authors(), &["a".to_string()]);
    assert_eq!(m.copyright_info(), None);
    assert_eq!(m.public_links().len(), 2);
}

fn err(kind: PrepErrorKind) -> PrepError {
    PrepError { path: "/x".to_string(), kind }
}

#[test]
fn load_outcomes_count_their_errors() {
    let o: LoadOutcome<String> = LoadOutcome::Loaded {
        mount: vec![vec!["m".to_string()], vec![]],
        prep: vec![vec![err(PrepErrorKind::Flat), err(PrepErrorKind::Sprite)]],
    };
    assert_eq!(o.num_errs(), 3);
    let none: LoadOutcome<String> = LoadOutcome::Cancelled;
    assert_eq!(none.num_errs(), 0);
    assert_eq!(count_all(&vec![vec![1, 2], vec![3], vec![]]), 3);
}

#[test]
fn fatal_errors_are_io_and_script_ones() {
    assert!(err(PrepErrorKind::Io("disk".to_string())).is_fatal());
    assert!(err(PrepErrorKind::MissingVzsDir).is_fatal());
    assert!(err(PrepErrorKind::VzsParse("x".to_string())).is_fatal());
    assert!(!err(PrepErrorKind::PNames).is_fatal());
    assert!(!any_fatal_errors(&vec![vec![err(PrepErrorKind::Flat)], vec![]]));
    assert!(any_fatal_errors(&vec![vec![], vec![err(PrepErrorKind::Flat), err(PrepErrorKind::MissingVzsDir)]]));
}

#[test]
fn the_driver_runs_three_passes_then_completes() {
    let mut d = PrepDriver::new(2);
    let mut actions = Vec::new();
    loop {
        let a = d.step(false, false);
        actions.push(a);
        if a == PrepAction::Complete {
            break;
        }
    }
    assert_eq!(
        actions,
        vec![
            PrepAction::Run { pass: PrepPass::First, mount: 0 },
            PrepAction::Run { pass: PrepPass::First, mount: 1 },
            PrepAction::PassDone(PrepPass::First),
            PrepAction::Run { pass: PrepPass::Second, mount: 0 },
            PrepAction::Run { pass: PrepPass::Second, mount: 1 },
            PrepAction::PassDone(PrepPass::Second),
            PrepAction::Run { pass: PrepPass::Third, mount: 0 },
            PrepAction::Run { pass: PrepPass::Third, mount: 1 },
            PrepAction::Complete,
        ]
    );
}

#[test]
fn the_driver_stops_on_cancel_and_on_fatal_errors() {
    let mut d = PrepDriver::new(1);
    assert_eq!(d.step(true, false), PrepAction::Cancelled);
    assert!(d.stopped);
    let mut d = PrepDriver::new(1);
    assert_eq!(d.step(false, false), PrepAction::Run { pass: PrepPass::First, mount: 0 });
    assert_eq!(d.step(false, true), PrepAction::Failed);
}

#[test]
fn trackers_compare_progress_with_target() {
    assert!(progress_reached(3, 3));
    assert!(!progress_reached(2, 3));
    let t = LoadTracker::new();
    assert!(t.mount_done());
    t.set_mount_target(2);
    assert!(!t.mount_done());
    t.add_mount_progress(2);
    assert!(t.mount_done());
    t.add_to_prep_target(5);
    t.add_prep_progress(1);
    assert!(!t.prep_done());
    t.finish_prep();
    assert!(t.prep_done());
    assert_eq!(t.prep_progress(), 5);
    assert!(!t.is_cancelled());
    t.cancel();
    assert!(t.is_cancelled());

    let i = interface::LoadTracker::new();
    assert!(i.mount_done() && i.pproc_done());
    i.add_mount_progress(10);
    assert!(i.mount_done());
}

#[test]
fn pass1_of_a_single_file_skips_or_cancels() {
    let mut vfs = VirtualFs::default();
    vfs.insert("/notes.txt".to_string(), File::Text("hi".into()));
    vfs.insert("/blob".to_string(), File::Binary(vec![1u8, 2].into()));
    let tracker = LoadTracker::new();
    assert!(matches!(prep_pass1_file(vfs.get("/blob").unwrap(), &tracker), Outcome::Skipped));
    assert!(matches!(prep_pass1_file(vfs.get("/notes.txt").unwrap(), &tracker), Outcome::Skipped));
    tracker.cancel();
    assert!(matches!(prep_pass1_file(vfs.get("/notes.txt").unwrap(), &tracker), Outcome::Cancelled));
    assert!(matches!(prep_pass1_file(vfs.get("/blob").unwrap(), &tracker), Outcome::Skipped));
}

#[test]
fn each_pass_dispatches_by_mount_kind() {
    assert_eq!(pass_work(PrepPass::First, MountKind::VileTech), PassWork::Package);
    assert_eq!(pass_work(PrepPass::First, MountKind::ZDoom), PassWork::ZDoomPackage);
    assert_eq!(pass_work(PrepPass::First, MountKind::Wad), PassWork::Wad);
    assert_eq!(pass_work(PrepPass::First, MountKind::Misc), PassWork::SingleFile);
    assert_eq!(pass_work(PrepPass::Second, MountKind::Wad), PassWork::Wad);
    assert_eq!(pass_work(PrepPass::Third, MountKind::VileTech), PassWork::Nothing);
}

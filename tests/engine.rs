use declarch::alias::{alias_token_end, is_alias_name, process_alias, AliasError};
use declarch::builder::{paths_process, Construct, Declared, Section, SymlinkCheck};
use declarch::cli::{Connect, Force, Mode, OptionError};
use declarch::gc::{key_select, paths_select, symlink_remove, Key, RemovalFacts};
use declarch::managers::{Arch, InstallError, Install, Manager, Service, Vsc};
use declarch::privilege::{check_perms, operations, parse_request, Dispatch, Owner};
use declarch::reconcile::{
    choose_copy, parent_of, Action, Canonical, Color, CopyAction, Link, LinkError, LinkFacts, Outcome,
    PathFacts, Record,
};
use declarch::store::{sort_descending, Store, TrackedLink, TrackedPath};
use declarch::structs::{Ops, Ownership, Setting, Title};
use declarch::tools::{calculate_hash, fixer};

fn absent() -> PathFacts {
    PathFacts { exists: false, is_file: false, is_symlink: false, device: 1, modified: 0 }
}

fn file(modified: i64) -> PathFacts {
    PathFacts { exists: true, is_file: true, is_symlink: false, device: 1, modified }
}

fn dir() -> PathFacts {
    PathFacts { exists: true, is_file: false, is_symlink: false, device: 1, modified: 5 }
}

fn symlink_to_file() -> PathFacts {
    PathFacts { exists: true, is_file: true, is_symlink: true, device: 1, modified: 7 }
}

fn facts(source: PathFacts, destination: PathFacts, recorded: Option<i64>) -> LinkFacts {
    LinkFacts {
        source,
        destination,
        parent_exists: true,
        destination_canonical: Canonical::Missing,
        source_canonical: Canonical::Failed,
        recorded,
    }
}

fn strings(items: &[&str]) -> Vec<String> {
    items.iter().map(|s| s.to_string()).collect()
}

fn copy_link(source: &str, destination: &str) -> Link {
    let mut c = Construct::new();
    c.set(Title::Backup, Setting::Copy);
    c.select(&Declared { source: source.to_string(), destination: destination.to_string(), hash: 9 });
    Link::new(&c, 0)
}

#[test]
fn fixer_normalises_slashes() {
    assert_eq!(fixer("a/b/"), "/a/b");
    assert_eq!(fixer("///x//"), "/x");
    assert_eq!(fixer("/already"), "/already");
    assert_eq!(fixer(""), "/");
}

#[test]
fn identity_is_deterministic_and_ordered() {
    let a = calculate_hash("/src/a", "/home/u/a");
    let b = calculate_hash("/src/a", "/home/u/a");
    assert_eq!(a, b);
    assert_ne!(calculate_hash("/src/a", "/home/u/a"), calculate_hash("/home/u/a", "/src/a"));
    assert_ne!(calculate_hash("/src/a", "/home/u/a"), calculate_hash("/src/b", "/home/u/a"));
}

#[test]
fn category_names_parse_ignoring_case() {
    assert_eq!(Title::from_str("SECURE_config"), Ok(Title::Secure_Config));
    assert_eq!(Title::from_str("backup"), Ok(Title::Backup));
    assert!(Title::from_str("nothing").is_err());
    assert_eq!(Title::Secure_Special_System.name(), "Secure_Special_System");
    assert_eq!(Title::into_iter().len(), 10);
}

#[test]
fn ownership_and_setting_names() {
    assert_eq!(Ownership::new("Home"), Some(Ownership::Home));
    assert_eq!(Ownership::new("GENERIC"), Some(Ownership::Generic));
    assert_eq!(Ownership::new("nobody"), None);
    assert_eq!(Setting::new("copy"), Ok(Setting::Copy));
    match Setting::new("mirror") {
        Err(declarch::structs::ConfigError::WrongSetting(name)) => assert_eq!(name, "mirror"),
        other => panic!("unexpected {:?}", other),
    }
    assert_eq!(Setting::into_iter(), vec![Setting::Link, Setting::Recursive, Setting::Secure_Link, Setting::Secure_Recursive]);
}

#[test]
fn operation_names_round_trip() {
    for op in [Ops::Copy, Ops::Symlink, Ops::Create_Dir, Ops::Create_Dir_All, Ops::Hardlink, Ops::Rm_File, Ops::Rm_Dir] {
        assert_eq!(Ops::from_str(&op.name()), Ok(op));
    }
    assert_eq!(Ops::from_str("Chmod"), Err(()));
}

#[test]
fn foreign_owner_goes_through_helper_once() {
    let action = Action { op: Ops::Symlink, args: strings(&["/etc/declarch/config/a", "/root/.config/a"]) };
    let me = Owner { uid: 1000, gid: 1000 };
    let root = Owner { uid: 0, gid: 0 };
    match operations(&action, root, me) {
        Dispatch::Helper(argv) => {
            assert_eq!(argv, strings(&["Symlink", "/etc/declarch/config/a", "/root/.config/a"]));
            assert_eq!(parse_request(&argv), Some(action.clone()));
        }
        Dispatch::InProcess => panic!("a foreign target must not be handled in process"),
    }
    assert_eq!(operations(&action, me, me), Dispatch::InProcess);
    assert!(!check_perms(Owner { uid: 1000, gid: 0 }, me));
}

#[test]
fn helper_refuses_malformed_requests() {
    assert_eq!(parse_request(&strings(&["Rm_File"])), None);
    assert_eq!(parse_request(&strings(&["Rm_File", "/a", "/b"])), None);
    assert_eq!(parse_request(&strings(&["Format", "/dev/sda"])), None);
    assert_eq!(parse_request(&Vec::new()), None);
    assert_eq!(
        parse_request(&strings(&["Rm_Dir", "/x"])),
        Some(Action { op: Ops::Rm_Dir, args: strings(&["/x"]) })
    );
}

#[test]
fn copy_monotonicity() {
    // The source moves past a destination still at the recorded time: one copy.
    assert_eq!(choose_copy(true, true, false, Some(100), 200, 100), CopyAction::Overwrite);
    let link = copy_link("/src/f", "/dst/f");
    let plan = link.copier(&facts(file(200), file(100), Some(100)));
    assert_eq!(plan.actions, vec![Action { op: Ops::Copy, args: strings(&["/src/f", "/dst/f"]) }]);
    assert_eq!(plan.record, Record::PathTimeAfter);
    // The destination changed on its own: conflict, no copy.
    assert_eq!(choose_copy(true, true, false, Some(100), 100, 150), CopyAction::Conflict);
    let plan = link.copier(&facts(file(100), file(150), Some(100)));
    assert!(plan.actions.is_empty());
    assert_eq!(plan.outcome, Outcome::Conflict);
    // Both changed: conflict rather than a guess.
    assert_eq!(choose_copy(true, true, false, Some(100), 300, 200), CopyAction::Conflict);
}

#[test]
fn copy_first_observation_and_convergence() {
    let link = copy_link("/src/f", "/dst/f");
    let plan = link.copier(&facts(file(50), file(70), None));
    assert_eq!(plan.record, Record::PathTime(70));
    assert_eq!(plan.outcome, Outcome::New);
    let plan = link.copier(&facts(file(80), file(80), Some(10)));
    assert_eq!(plan.outcome, Outcome::Converged);
    assert_eq!(plan.record, Record::PathTime(80));
    let plan = link.copier(&facts(file(80), file(80), Some(80)));
    assert_eq!(plan.outcome, Outcome::Unchanged);
    assert!(plan.actions.is_empty());
    let plan = link.copier(&facts(dir(), absent(), None));
    assert_eq!(plan.actions, vec![Action { op: Ops::Create_Dir, args: strings(&["/dst/f"]) }]);
    assert_eq!(plan.record, Record::PathTime(0));
    let mut source_link = facts(symlink_to_file(), absent(), None);
    source_link.source_canonical = Canonical::Resolved("/real/f".to_string());
    let plan = link.copier(&source_link);
    assert_eq!(plan.actions, vec![Action { op: Ops::Symlink, args: strings(&["/real/f", "/dst/f"]) }]);
}

#[test]
fn copy_records_new_destination_time() {
    let mut store = Store::new();
    let mut c = Construct::new();
    c.set(Title::Backup, Setting::Copy);
    c.select(&Declared { source: "/s/f".to_string(), destination: "/d/f".to_string(), hash: 4 });
    c.path = "/f".to_string();
    let link = Link::new(&c, 2);
    link.record(&mut store, Record::PathTimeAfter, 1234, "Default".to_string());
    assert_eq!(store.get_modified(4, "/f"), Some(1234));
    link.record(&mut store, Record::PathTime(99), 0, "Default".to_string());
    assert_eq!(store.get_modified(4, "/f"), Some(99));
    assert_eq!(store.secondary.len(), 1);
}

#[test]
fn missing_source_is_refused() {
    let mut c = Construct::new();
    c.set(Title::System, Setting::Link);
    c.select(&Declared { source: "/gone".to_string(), destination: "/d".to_string(), hash: 1 });
    let link = Link::new(&c, 0);
    match link.linker(&facts(absent(), absent(), None)) {
        Err(LinkError::NotFound(p)) => assert_eq!(p, "/gone"),
        other => panic!("unexpected {:?}", other),
    }
}

#[test]
fn link_creates_parents_then_symlink_or_hardlink() {
    let mut c = Construct::new();
    c.set(Title::System, Setting::Link);
    c.select(&Declared { source: "/etc/declarch/system/root/x".to_string(), destination: "/etc/x/y".to_string(), hash: 3 });
    let mut f = facts(file(5), absent(), None);
    f.parent_exists = false;
    let plan = Link::new(&c, 0).linker(&f).unwrap();
    assert_eq!(plan.actions[0], Action { op: Ops::Create_Dir_All, args: strings(&["/etc/x"]) });
    assert_eq!(plan.actions[1].op, Ops::Symlink);
    assert_eq!(plan.record, Record::Entity);
    c.set = Ownership::Root;
    let plan = Link::new(&c, 0).linker(&f).unwrap();
    assert_eq!(plan.actions[1], Action { op: Ops::Hardlink, args: strings(&["/etc/declarch/system/root/x", "/etc/x/y"]) });
    // An existing destination is only verified.
    let mut existing = facts(file(5), file(6), None);
    existing.destination_canonical = Canonical::Resolved("/elsewhere".to_string());
    c.set = Ownership::Default;
    let plan = Link::new(&c, 0).linker(&existing).unwrap();
    assert!(plan.actions.is_empty());
    assert_eq!(plan.outcome, Outcome::Conflict);
    existing.destination_canonical = Canonical::Resolved("/etc/declarch/system/root/x".to_string());
    assert_eq!(Link::new(&c, 0).linker(&existing).unwrap().outcome, Outcome::Unchanged);
}

#[test]
fn parent_paths() {
    assert_eq!(parent_of("/a/b/c"), "/a/b");
    assert_eq!(parent_of("/a"), "/");
    assert_eq!(parent_of("a"), "");
}

#[test]
fn entity_builder_prefix_rules() {
    let mut c = Construct::new();
    c.source_path = "/etc/declarch/system/home".to_string();
    c.set = Ownership::Home;
    let d = c.construct_system(&strings(&["/bashrc", "/.bashrc", "/.bashrc.bak"]), "/home/u");
    assert_eq!(d.len(), 2);
    assert_eq!(d[0].source, "/etc/declarch/system/home/bashrc");
    assert_eq!(d[0].destination, "/home/u/.bashrc");
    assert_eq!(d[1].destination, "/home/u/.bashrc.bak");
    assert_eq!(d[0].hash, calculate_hash("/etc/declarch/system/home/bashrc", "/home/u/.bashrc"));
    c.set = Ownership::Generic;
    let d = c.construct_system(&strings(&["/opt/tool", "/usr/local/tool"]), "/home/u");
    assert_eq!(d[0].source, "/opt/tool");
    assert_eq!(d[0].destination, "/usr/local/tool");
    assert!(c.construct_system(&Vec::new(), "/home/u").is_empty());
}

#[test]
fn locations_default_and_configured() {
    let mut c = Construct::new();
    c.set(Title::System, Setting::Link);
    assert_eq!(c.get_locations(None, None, "root", "/home/u/.config"), "/etc/declarch/system/root");
    assert_eq!(c.get_locations(None, Some("/srv/dots/"), "home", "/home/u/.config"), "/srv/dots/system/home");
    assert_eq!(c.get_locations(Some("mine/"), None, "home", "/c"), "/mine");
    assert_eq!(c.get_locations(None, None, "destination_config", "/home/u/.config"), "/home/u/.config");
    assert_eq!(c.title_lower(), "system");
}

#[test]
fn category_plans() {
    assert_eq!(paths_process(Title::Backup), Some((Setting::Copy, Section::PathTable)));
    assert_eq!(paths_process(Title::Special_Config), Some((Setting::Recursive, Section::ConfigDir)));
    assert_eq!(paths_process(Title::Unset), None);
}

#[test]
fn store_mark_and_sweep() {
    let mut store = Store::new();
    for (id, src) in [(1u64, "/s/a"), (2, "/s/b"), (3, "/s/c")] {
        store.upsert_primary(id, "Default".to_string(), Title::System, Setting::Link, src.to_string(), format!("/d{}", &src[2..]));
    }
    store.upsert_primary(7, "Default".to_string(), Title::Config, Setting::Link, "/o".to_string(), "/p".to_string());
    assert_eq!(store.primary.len(), 4);
    // Second run declares only 1 and 3.
    store.reset_keep(Title::System, Setting::Link);
    store.mark_declared(&vec![1, 3]);
    let stale = store.select_stale(Title::System, Setting::Link);
    assert_eq!(stale.len(), 1);
    assert_eq!(stale[0].hash, 2);
    let keys = key_select(&store, Setting::Link, Title::System);
    assert_eq!(keys.len(), 1);
    assert_eq!(keys[0].destination, "/d/b");
    store.delete_stale(Title::System, Setting::Link);
    let left: Vec<u64> = store.primary.iter().map(|r| r.hash).collect();
    assert_eq!(left, vec![1, 3, 7]);
    assert!(store.primary.iter().all(|r| r.keep));
}

#[test]
fn reconciling_twice_changes_nothing() {
    let mut store = Store::new();
    store.upsert_primary(1, "Default".to_string(), Title::System, Setting::Link, "/s".to_string(), "/d".to_string());
    let before: Vec<(u64, bool)> = store.primary.iter().map(|r| (r.hash, r.keep)).collect();
    for _ in 0..2 {
        store.reset_keep(Title::System, Setting::Link);
        store.mark_declared(&vec![1]);
        assert!(store.select_stale(Title::System, Setting::Link).is_empty());
        store.delete_stale(Title::System, Setting::Link);
    }
    let after: Vec<(u64, bool)> = store.primary.iter().map(|r| (r.hash, r.keep)).collect();
    assert_eq!(before, after);
    // And the reconciler plans nothing for a verified existing link.
    let mut c = Construct::new();
    c.set(Title::System, Setting::Link);
    c.select(&Declared { source: "/s".to_string(), destination: "/d".to_string(), hash: 1 });
    let mut f = facts(file(1), file(1), None);
    f.destination_canonical = Canonical::Resolved("/s".to_string());
    let plan = Link::new(&c, 0).linker(&f).unwrap();
    assert!(plan.actions.is_empty());
    assert_eq!(plan.record, Record::Nothing);
}

#[test]
fn stale_removal_respects_user_changes() {
    let key = Key { hash: 1, source: "/s/a".to_string(), destination: "/d/a".to_string(), category: "Default".to_string() };
    let link_home = RemovalFacts {
        source: file(3),
        destination: symlink_to_file(),
        canonical: Canonical::Resolved("/s/a".to_string()),
    };
    assert_eq!(key.removal(&link_home), Some(Action { op: Ops::Rm_File, args: strings(&["/d/a"]) }));
    let repointed = RemovalFacts { canonical: Canonical::Resolved("/mine".to_string()), ..link_home.clone() };
    assert_eq!(key.removal(&repointed), None);
    let dangling = RemovalFacts { canonical: Canonical::Missing, ..link_home.clone() };
    assert!(key.removal(&dangling).is_some());
    let edited = RemovalFacts { source: file(3), destination: file(4), canonical: Canonical::Failed };
    assert_eq!(key.removal(&edited), None);
    let same = RemovalFacts { source: file(4), destination: file(4), canonical: Canonical::Failed };
    assert!(key.removal(&same).is_some());
    assert!(symlink_remove("/x", &Canonical::Missing));
    assert!(!symlink_remove("/x", &Canonical::Failed));
}

#[test]
fn stale_paths_come_out_deepest_first() {
    let rows: Vec<TrackedPath> = [(0, "/t"), (3, "/t/b"), (1, "/t/a"), (2, "/t/a/f")]
        .iter()
        .map(|(o, p)| TrackedPath { hash: 5, path: p.to_string(), modified: 0, path_order: *o, keep: false })
        .collect();
    let sorted = sort_descending(rows);
    let orders: Vec<i64> = sorted.iter().map(|r| r.path_order).collect();
    assert_eq!(orders, vec![3, 2, 1, 0]);
}

#[test]
fn recursive_tree_end_to_end() {
    let mut store = Store::new();
    let walk = strings(&["/src/tree", "/src/tree/a", "/src/tree/a/f1", "/src/tree/a/f2", "/src/tree/b", "/src/tree/b/f3"]);
    let files = ["/tree/a/f1", "/tree/a/f2", "/tree/b/f3"];
    let run = |store: &mut Store, walk: &Vec<String>| -> Vec<Link> {
        let mut c = Construct::new();
        c.set(Title::Special_System, Setting::Recursive);
        c.set = Ownership::Generic;
        let declared = c.construct_entity("/src/tree", "/dst/tree", "/home/u");
        store.reset_group(Title::Special_System, Setting::Recursive);
        c.select(&declared);
        c.setting_match(store, walk, false).unwrap();
        c.linker
    };
    // First run: everything is created.
    let links = run(&mut store, &walk);
    assert_eq!(links.len(), 6);
    let orders: Vec<i64> = links.iter().map(|l| l.order).collect();
    assert_eq!(orders, vec![0, 1, 2, 3, 4, 5]);
    for l in &links {
        let is_file = l.source.contains("/f");
        let f = facts(if is_file { file(10) } else { dir() }, absent(), None);
        let plan = l.linker(&f).unwrap();
        assert_eq!(plan.outcome, Outcome::New);
        assert_eq!(plan.record, Record::PathTimeAfter);
        l.record(&mut store, plan.record, 10, "Generic".to_string());
    }
    assert_eq!(store.primary.len(), 1);
    assert_eq!(store.primary[0].source, "/src");
    assert_eq!(store.primary[0].destination, "/dst");
    for f in files {
        assert!(store.secondary.iter().any(|r| r.path == f && r.keep));
    }
    assert_eq!(store.secondary.len(), 6);
    assert!(store.secondary.iter().all(|r| r.keep));
    // Remove one file from the source tree and run again.
    let smaller = strings(&["/src/tree", "/src/tree/a", "/src/tree/a/f1", "/src/tree/b", "/src/tree/b/f3"]);
    run(&mut store, &smaller);
    let keys = key_select(&store, Setting::Recursive, Title::Special_System);
    assert_eq!(keys.len(), 1);
    let stale = paths_select(&store, &keys[0]);
    assert_eq!(stale.len(), 1);
    assert_eq!(stale[0].destination, "/dst/tree/a/f2");
    assert_eq!(stale[0].source, "/src/tree/a/f2");
    let dangling = RemovalFacts { source: absent(), destination: symlink_to_file(), canonical: Canonical::Missing };
    assert_eq!(stale[0].removal(&dangling), Some(Action { op: Ops::Rm_File, args: strings(&["/dst/tree/a/f2"]) }));
    store.delete_path(stale[0].hash, &stale[0].relative);
    store.settle_key(keys[0].hash);
    assert_eq!(store.secondary.len(), 5);
    assert_eq!(store.primary.len(), 1);
    assert!(store.secondary.iter().all(|r| r.keep));
    assert!(store.secondary.iter().any(|r| r.path == "/tree/a/f1"));
    assert!(store.secondary.iter().any(|r| r.path == "/tree/b/f3"));
}

#[test]
fn symlinked_tree_top_is_refused() {
    let mut store = Store::new();
    let mut c = Construct::new();
    c.set(Title::Special_System, Setting::Recursive);
    c.select(&Declared { source: "/src/tree".to_string(), destination: "/dst/tree".to_string(), hash: 2 });
    let r = c.setting_match(&mut store, &strings(&["/src/tree"]), true);
    assert_eq!(r, Err(SymlinkCheck::SymlinkError("/dst/tree".to_string())));
    assert!(store.primary.is_empty());
}

#[test]
fn report_headings_once() {
    let mut c = Construct::new();
    c.set(Title::Secure_Backup, Setting::Copy);
    c.set = Ownership::Home;
    c.select(&Declared { source: "/s".to_string(), destination: "/d/one".to_string(), hash: 1 });
    let mut link = Link::new(&c, 0);
    link.set_vec(&Color::Red);
    let texts: Vec<&str> = link.vec.lines.iter().map(|l| l.text.as_str()).collect();
    assert_eq!(texts, vec!["Secure Backup", "Home", "/d/one"]);
    assert_eq!(link.vec.lines[2].color, Color::Red);
    link.destination = "/d/two".to_string();
    link.set_vec(&Color::Blue);
    assert_eq!(link.vec.lines.len(), 4);
    assert_eq!(link.vec.lines[3].text, "/d/two");
}

#[test]
fn manager_selection() {
    let mut install = Install::new();
    assert_eq!(install.matches("Paru", strings(&["git"])), Ok(()));
    assert_eq!(install.gather[0].0, "Paru");
    assert_eq!(install.gather[0].1, Manager::Arch);
    assert_eq!(install.matches("VSCode", strings(&["rust-analyzer"])), Ok(()));
    assert_eq!(install.gather[1].0, "code");
    assert_eq!(install.matches("brew", Vec::new()), Err(InstallError::InvalidPackage));
    assert_eq!(install.gather.len(), 2);
    assert_eq!(install.matches("yay", Vec::new()), Err(InstallError::TooMany));
    let pacman = Arch::new("pacman");
    assert_eq!(pacman.prog.prog, "sudo");
    assert_eq!(pacman.prog.install, strings(&["pacman", "-S", "--noconfirm"]));
    assert_eq!(Arch::new("paru").prog.prog, "paru");
    assert_eq!(Vsc::new("vscodium").prog.prog, "vscodium");
    assert_eq!(Vsc::new("code").prog.prog, "code");
    let services = Service::new().match_service("SystemD");
    assert_eq!(services.len(), 2);
    assert_eq!(services[0].title, "SystemdUser");
    assert!(Service::new().match_service("runit").is_empty());
}

#[test]
fn command_line_options() {
    let mut connect = Connect::new();
    for arg in ["-l", "Config", "BACKUP", "-fc", "-f", "-c", "/tmp/mine.toml"] {
        connect.parse_arg(arg).unwrap();
    }
    assert!(connect.link.0);
    assert_eq!(connect.link.1, strings(&["config", "backup"]));
    assert_eq!(connect.force, Force::Confirm);
    assert_eq!(connect.mode, Mode::Config);
    assert_eq!(connect.config_path(), Ok("/tmp/mine.toml".to_string()));
    assert_eq!(connect.parse_arg("notes.txt"), Err(OptionError::InvalidConfigPath("notes.txt".to_string())));
    assert_eq!(connect.parse_arg("--bogus"), Err(OptionError::InvalidOption("--bogus".to_string())));
    let mut fresh = Connect::new();
    assert_eq!(fresh.parse_arg("stray"), Err(OptionError::InvalidOption("stray".to_string())));
    fresh.parse_arg("-c").unwrap();
    assert_eq!(fresh.config_path(), Err(OptionError::NoConfigPath));
    assert_eq!(Connect::new().config_path(), Ok("/etc/declarch/declarch.toml".to_string()));
}

#[test]
fn aliases_resolve_leading_tokens() {
    let aliases = vec![("[home]".to_string(), "/home/u/".to_string()), ("{etc}".to_string(), "etc".to_string())];
    assert_eq!(process_alias("[home]/.config/", &aliases), Ok("/home/u/.config".to_string()));
    assert_eq!(process_alias("{etc}pacman.conf", &aliases), Ok("/etc/pacman.conf".to_string()));
    assert_eq!(process_alias("plain/path/", &aliases), Ok("/plain/path".to_string()));
    assert_eq!(process_alias("(nope)/x", &aliases), Err(AliasError::NoMatch("(nope)".to_string())));
    // A fragment that is one whole token is only normalised.
    assert_eq!(process_alias("[home]", &aliases), Ok("/[home]".to_string()));
    assert_eq!(alias_token_end("[a]/b]/c"), Some(6));
    assert_eq!(alias_token_end("x[a]"), None);
    assert!(is_alias_name("[x]"));
    assert!(is_alias_name("(a b)"));
    assert!(!is_alias_name("x]"));
    assert!(!is_alias_name("[x"));
}

#[test]
fn loading_drops_repeated_keys() {

    let row = |hash: u64, src: &str| TrackedLink {
        hash,
        category: "Default".to_string(),
        title: Title::System,
        setting: Setting::Link,
        source: src.to_string(),
        destination: "/d".to_string(),
        keep: true,
    };
    let path = |hash: u64, p: &str, order: i64| TrackedPath { hash, path: p.to_string(), modified: 1, path_order: order, keep: true };
    let store = Store::from_rows(
        vec![row(1, "/a"), row(2, "/b"), row(1, "/c")],
        vec![path(1, "/x", 0), path(1, "/x", 5), path(1, "/y", 1)],
    );
    assert_eq!(store.primary.len(), 2);
    assert_eq!(store.primary[0].source, "/a");
    assert_eq!(store.secondary.len(), 2);
    assert_eq!(store.secondary[0].path_order, 0);
}

#[test]
fn settled_tree_entity_is_forgotten_only_when_empty() {
    let mut store = Store::new();
    store.upsert_primary(8, "Default".to_string(), Title::Backup, Setting::Copy, "/s".to_string(), "/d".to_string());
    store.record_path(8, "/f".to_string(), 0, 3);
    store.reset_group(Title::Backup, Setting::Copy);
    assert!(!store.primary[0].keep);
    assert!(!store.secondary[0].keep);
    store.settle_key(8);
    assert_eq!(store.primary.len(), 1);
    store.delete_path(8, "/f");
    store.settle_key(8);
    assert!(store.primary.is_empty());
}

#[test]
fn listings_match_whole_entries() {
    let prog = Arch::new("paru").prog;
    let listing: Vec<char> = format!("{:?}", "git 2.44-1\nfirefox 125.0\ngit-lfs 3.5\n").chars().collect();
    assert!(prog.installed(&listing, "git"));
    assert!(prog.installed(&listing, "firefox"));
    assert!(!prog.installed(&listing, "lfs"));
    assert!(!prog.installed(&listing, "fire"));
    assert_eq!(
        prog.to_install(&listing, &strings(&["git", "neovim", "git-lfs", "ripgrep"])),
        strings(&["neovim", "ripgrep"])
    );
    let units: Vec<char> = format!("{:?}", "UNIT FILE STATE\nsshd.service enabled\ncups.socket enabled\n").chars().collect();
    let user = Service::new().match_service("systemd");
    assert!(user[0].enabled(&units, "sshd"));
    assert!(!user[0].enabled(&units, "ssh"));
    assert!(!user[0].enabled(&units, "cups"));
}

#[test]
fn arch_managers_run_first() {
    let mut install = Install::new();
    install.matches("flatpak", Vec::new()).unwrap();
    install.matches("code", Vec::new()).unwrap();
    install.matches("pacman", Vec::new()).unwrap();
    assert_eq!(install.structure(), vec![2, 0, 1]);
}

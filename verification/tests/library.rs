use velvet::digest::{file_hash, hex_text};
use velvet::get_minecraft_dir::{install_layout, locate, subdirs, version_folder_name, DirError, Os};
use velvet::mod_index::ModHashes;
use velvet::modlists::{optifine, selected_mods, vanilla, visual};
use velvet::modrinth::{answers, latest_status, project_url, version_query_url, versions_url, Reply, Version, VersionFile};
use velvet::write_json::{
    add_velvet_profile, loader_profile_url, now_text, unix_timestamp, velvet_profile, version_profile, write_profile,
    LauncherProfiles, Profile, ICON, VANILLA_ARGS,
};
use velvet::state::{
    button_label, folder_step, join_names, notice, offered_versions, pick_quilt_version, picked_folder, Action,
    FolderStep, GameVersion, Message, Notice, PickError, Status as UiStatus, Velvet,
};
use velvet::sync::{jar_file_name, mod_id, plan_sync, record_file, Download, Status};

fn s(x: &str) -> String {
    x.to_string()
}

fn index(pairs: &[(&str, &str)]) -> ModHashes {
    let mut m = ModHashes::new();
    for (k, v) in pairs {
        m.insert(s(k), s(v));
    }
    m
}

fn found(id: &str, url: &str, sha1: &str) -> Status {
    Status::Found { id: s(id), url: s(url), sha1: s(sha1) }
}

// ---- digest ----

#[test]
fn file_hash_of_abc_is_its_sha1() {
    assert_eq!(file_hash(b"abc"), "a9993e364706816aba3e25717850c26c9cd0d89d");
}

#[test]
fn file_hash_of_empty_content() {
    assert_eq!(file_hash(b""), "da39a3ee5e6b4b0d3255bfef95601890afd80709");
}

#[test]
fn hex_text_is_lowercase_high_nibble_first() {
    assert_eq!(hex_text(&[0x00, 0x0f, 0xa5, 0xff]), "000fa5ff");
    assert_eq!(hex_text(&[]), "");
}

// ---- mod index ----

#[test]
fn mod_index_insert_replaces_hash() {
    let mut m = index(&[("AANobbMI", "11"), ("gvQqBUqZ", "22")]);
    m.insert(s("AANobbMI"), s("33"));
    assert_eq!(m.len(), 2);
    assert_eq!(m.get(&s("AANobbMI")), Some(&s("33")));
    assert_eq!(m.get(&s("gvQqBUqZ")), Some(&s("22")));
    assert_eq!(m.get(&s("hEOCdOgW")), None);
    assert_eq!(m.entry(0), (&s("AANobbMI"), &s("33")));
}

// ---- file names ----

#[test]
fn mod_id_takes_first_eight_bytes() {
    assert_eq!(mod_id("AANobbMI.jar"), "AANobbMI");
    assert_eq!(mod_id("abcdefgh"), "abcdefgh");
}

#[test]
fn mod_id_of_multibyte_name() {
    // 'é' takes two bytes, so eight bytes end after "ab" + 3 * "é".
    assert_eq!(mod_id("abééé.jar"), "abééé");
}

#[test]
fn jar_file_name_appends_extension() {
    assert_eq!(jar_file_name(&s("AANobbMI")), "AANobbMI.jar");
}

#[test]
fn jar_file_name_replaces_extension() {
    assert_eq!(jar_file_name(&s("abc.defg")), "abc.jar");
    assert_eq!(jar_file_name(&s(".hidden1")), ".hidden1.jar");
    assert_eq!(jar_file_name(&s("a.b.c.de")), "a.b.c.jar");
}

#[test]
fn jar_name_is_read_back_as_the_mod() {
    let id = s("KuNKN7d2");
    let name = jar_file_name(&id);
    assert_eq!(mod_id(&name), id);
}

#[test]
fn record_file_hashes_content() {
    let mut m = ModHashes::new();
    record_file(&mut m, "AANobbMI.jar", b"abc");
    assert_eq!(m.get(&s("AANobbMI")), Some(&s("a9993e364706816aba3e25717850c26c9cd0d89d")));
    record_file(&mut m, "AANobbMI-old.jar", b"");
    assert_eq!(m.len(), 1);
    assert_eq!(m.get(&s("AANobbMI")), Some(&s("da39a3ee5e6b4b0d3255bfef95601890afd80709")));
}

// ---- sync plan ----

#[test]
fn plan_keeps_downloads_removes_and_reports_missing() {
    let installed = index(&[("aaaaaaaa", "h1"), ("bbbbbbbb", "old"), ("cccccccc", "h3")]);
    let statuses = vec![
        found("aaaaaaaa", "u1", "h1"),
        found("bbbbbbbb", "u2", "new"),
        Status::NotFound { slug: s("sodium") },
        found("dddddddd", "u4", "h4"),
    ];
    let plan = plan_sync(&installed, &statuses);
    assert_eq!(plan.keep, vec![s("aaaaaaaa")]);
    assert_eq!(
        plan.downloads,
        vec![
            Download { id: s("bbbbbbbb"), url: s("u2"), sha1: s("new") },
            Download { id: s("dddddddd"), url: s("u4"), sha1: s("h4") },
        ]
    );
    assert_eq!(plan.removals, vec![s("bbbbbbbb"), s("cccccccc")]);
    assert_eq!(plan.missing, vec![s("sodium")]);
}

#[test]
fn plan_removes_mod_that_has_no_release() {
    let installed = index(&[("aaaaaaaa", "h1")]);
    let statuses = vec![Status::NotFound { slug: s("lithium") }];
    let plan = plan_sync(&installed, &statuses);
    assert_eq!(plan.removals, vec![s("aaaaaaaa")]);
    assert!(plan.downloads.is_empty());
    assert!(plan.keep.is_empty());
    assert_eq!(plan.missing, vec![s("lithium")]);
}

#[test]
fn plan_on_empty_folder_downloads_everything() {
    let installed = ModHashes::new();
    let statuses = vec![found("aaaaaaaa", "u1", "h1"), found("bbbbbbbb", "u2", "h2")];
    let plan = plan_sync(&installed, &statuses);
    assert_eq!(plan.downloads.len(), 2);
    assert!(plan.removals.is_empty());
    assert!(plan.keep.is_empty());
}

#[test]
fn carrying_out_plan_reaches_wanted_mods() {
    let installed = index(&[("aaaaaaaa", "h1"), ("bbbbbbbb", "old"), ("cccccccc", "h3")]);
    let statuses = vec![found("aaaaaaaa", "u1", "h1"), found("bbbbbbbb", "u2", "new"), found("dddddddd", "u4", "h4")];
    let plan = plan_sync(&installed, &statuses);
    let mut after: Vec<(String, String)> = Vec::new();
    for i in 0..installed.len() {
        let (k, v) = installed.entry(i);
        if !plan.removals.contains(k) {
            after.push((k.clone(), v.clone()));
        }
    }
    for d in &plan.downloads {
        after.push((d.id.clone(), d.sha1.clone()));
    }
    after.sort();
    assert_eq!(
        after,
        vec![(s("aaaaaaaa"), s("h1")), (s("bbbbbbbb"), s("new")), (s("dddddddd"), s("h4"))]
    );
}

#[test]
fn second_sync_does_nothing() {
    let installed = index(&[("aaaaaaaa", "h1"), ("bbbbbbbb", "h2")]);
    let statuses = vec![found("bbbbbbbb", "u2", "h2"), found("aaaaaaaa", "u1", "h1")];
    let plan = plan_sync(&installed, &statuses);
    assert!(plan.downloads.is_empty());
    assert!(plan.removals.is_empty());
    assert_eq!(plan.keep, vec![s("bbbbbbbb"), s("aaaaaaaa")]);
}

// ---- mod lists ----

#[test]
fn mod_lists_have_their_sizes() {
    assert_eq!(vanilla().len(), 9);
    assert_eq!(visual().len(), 11);
    assert_eq!(optifine().len(), 9);
    assert_eq!(vanilla()[0], "AANobbMI");
}

#[test]
fn selection_of_all_lists_has_no_repeats() {
    let all = selected_mods(&(true, true, true));
    assert_eq!(all.len(), 25);
    for (i, a) in all.iter().enumerate() {
        for b in all.iter().skip(i + 1) {
            assert_ne!(a, b);
        }
    }
    for id in vanilla().iter().chain(visual().iter()).chain(optifine().iter()) {
        assert!(all.contains(id));
    }
}

#[test]
fn selection_follows_flags() {
    assert!(selected_mods(&(false, false, false)).is_empty());
    assert_eq!(selected_mods(&(true, false, false)), vanilla());
    let o = selected_mods(&(false, false, true));
    assert_eq!(o, optifine());
    let vo = selected_mods(&(false, true, true));
    assert_eq!(vo.len(), 16);
    assert!(!vo.contains(&s("AANobbMI")));
}

// ---- modrinth ----

#[test]
fn project_url_is_server_slash_id() {
    assert_eq!(project_url("AANobbMI"), "https://api.modrinth.com/v2/project/AANobbMI");
}

#[test]
fn versions_url_quotes_game_version() {
    assert_eq!(
        versions_url("AANobbMI", &s("1.20.1")),
        "https://api.modrinth.com/v2/project/AANobbMI/version?loaders=[\"fabric\", \"quilt\"]&game_versions=[\"1.20.1\"]"
    );
}

#[test]
fn versions_url_escapes_like_debug() {
    let v = s("a\"b\\c");
    let expected = format!(
        "https://api.modrinth.com/v2/project/x/version?loaders=[\"fabric\", \"quilt\"]&game_versions=[{:?}]",
        v
    );
    assert_eq!(versions_url("x", &v), expected);
    assert!(expected.contains("[\"a\\\"b\\\\c\"]"));
}

#[test]
fn version_query_url_uses_given_text() {
    assert_eq!(
        version_query_url("id", "\"24w14a\""),
        "https://api.modrinth.com/v2/project/id/version?loaders=[\"fabric\", \"quilt\"]&game_versions=[\"24w14a\"]"
    );
}

#[test]
fn latest_status_takes_first_file_of_newest_release() {
    let versions = vec![
        Version {
            files: vec![
                VersionFile { url: s("u1"), sha1: s("h1") },
                VersionFile { url: s("u2"), sha1: s("h2") },
            ],
        },
        Version { files: vec![VersionFile { url: s("u3"), sha1: s("h3") }] },
    ];
    assert_eq!(latest_status(&s("AANobbMI"), &s("sodium"), &versions), found("AANobbMI", "u1", "h1"));
}

#[test]
fn latest_status_without_release_reports_slug() {
    assert_eq!(latest_status(&s("AANobbMI"), &s("sodium"), &vec![]), Status::NotFound { slug: s("sodium") });
    let empty = vec![Version { files: vec![] }, Version { files: vec![VersionFile { url: s("u"), sha1: s("h") }] }];
    assert_eq!(latest_status(&s("AANobbMI"), &s("sodium"), &empty), Status::NotFound { slug: s("sodium") });
}

// ---- minecraft dir ----

#[test]
fn subdirs_per_os() {
    assert_eq!(subdirs(Os::Windows), vec![s("AppData"), s("Roaming"), s(".minecraft")]);
    assert_eq!(subdirs(Os::Linux), vec![s(".minecraft")]);
    assert_eq!(subdirs(Os::MacOs), vec![s("Library"), s("Application Support"), s("minecraft")]);
}

#[test]
fn locate_without_home_fails() {
    let r = locate(Os::Linux, None);
    assert!(matches!(r, Err(DirError::NoHome)));
    assert_eq!(DirError::NoHome.message(), "Couldn't find home directory!");
}

#[test]
fn locate_with_home_gives_game_folder() {
    let r = locate(Os::MacOs, Some(std::path::PathBuf::from("/Users/a"))).ok().unwrap();
    assert_eq!(r.home, std::path::PathBuf::from("/Users/a"));
    assert_eq!(r.subdirs, vec![s("Library"), s("Application Support"), s("minecraft")]);
}

#[test]
fn install_layout_paths() {
    assert_eq!(version_folder_name(&s("1.20.1"), &s("0.26.0")), "quilt-loader-0.26.0-1.20.1");
    let l = install_layout(&s("1.20.1"), &s("0.26.0"));
    assert_eq!(l.mods_dir, vec![s(".velvet"), s("mods"), s("1.20.1")]);
    assert_eq!(l.version_dir, vec![s("versions"), s("quilt-loader-0.26.0-1.20.1")]);
    assert_eq!(l.version_jar, "quilt-loader-0.26.0-1.20.1.jar");
    assert_eq!(l.version_json, "quilt-loader-0.26.0-1.20.1.json");
    assert_eq!(l.launcher_profiles, "launcher_profiles.json");
}

// ---- profiles ----

fn profile(kind: &str, java_args: Option<&str>, java_dir: Option<&str>) -> Profile {
    Profile {
        name: s("p"),
        last_used: s("t0"),
        last_version_id: s("1.20.1"),
        created: s("t0"),
        icon: s("Grass"),
        kind: s(kind),
        java_args: java_args.map(s),
        java_dir: java_dir.map(s),
        extra: vec![(s("resolution"), s("{\"width\":854}"))],
    }
}

#[test]
fn velvet_profile_takes_over_release_settings() {
    let base = profile("latest-release", Some("-Xmx4G"), Some("/jdk"));
    let p = velvet_profile(&s("1.20.1"), &s("0.26.0"), &s("T"), Some(&base));
    assert_eq!(p.name, "Velvet 1.20.1");
    assert_eq!(p.last_version_id, "quilt-loader-0.26.0-1.20.1");
    assert_eq!(p.created, "T");
    assert_eq!(p.last_used, "T");
    assert_eq!(p.kind, "custom");
    assert_eq!(p.icon, ICON);
    assert_eq!(
        p.java_args,
        Some(s("-Dloader.modsDir=.velvet/mods/1.20.1 -Dloader.configDir=.velvet/config/1.20.1 -Xmx4G"))
    );
    assert_eq!(p.java_dir, Some(s("/jdk")));
    assert_eq!(p.extra, base.extra);
}

#[test]
fn velvet_profile_uses_vanilla_args_when_release_has_none() {
    let base = profile("latest-release", None, None);
    let p = velvet_profile(&s("1.21"), &s("0.26.0"), &s("T"), Some(&base));
    assert_eq!(
        p.java_args,
        Some(format!("-Dloader.modsDir=.velvet/mods/1.21 -Dloader.configDir=.velvet/config/1.21 {}", VANILLA_ARGS))
    );
    assert_eq!(p.java_dir, None);
}

#[test]
fn velvet_profile_without_release_profile() {
    let p = velvet_profile(&s("1.21"), &s("0.26.0"), &s("T"), None);
    assert_eq!(p.java_args, Some(s("-Dloader.modsDir=.velvet/mods/1.21 -Dloader.configDir=.velvet/config/1.21 ")));
    assert_eq!(p.java_dir, None);
    assert!(p.extra.is_empty());
}

#[test]
fn add_profile_puts_it_under_its_key_and_keeps_others() {
    let launcher = LauncherProfiles {
        profiles: vec![
            (s("a"), profile("custom", Some("-Xmx1G"), None)),
            (s("b"), profile("latest-release", Some("-Xmx2G"), None)),
            (s("c"), profile("latest-release", Some("-Xmx3G"), None)),
        ],
        settings: s("{}"),
        version: 3,
    };
    let r = add_velvet_profile(&s("1.20.1"), &s("0.26.0"), &s("T"), launcher.clone());
    assert_eq!(r.settings, "{}");
    assert_eq!(r.version, 3);
    assert_eq!(r.profiles.len(), 4);
    assert_eq!(&r.profiles[..3], &launcher.profiles[..]);
    assert_eq!(r.profiles[3].0, "velvet-quilt-loader-1.20.1");
    assert_eq!(
        r.profiles[3].1.java_args,
        Some(s("-Dloader.modsDir=.velvet/mods/1.20.1 -Dloader.configDir=.velvet/config/1.20.1 -Xmx2G"))
    );
}

#[test]
fn reinstall_replaces_profile() {
    let launcher = LauncherProfiles { profiles: vec![(s("a"), profile("custom", None, None))], settings: s("{}"), version: 3 };
    let once = add_velvet_profile(&s("1.20.1"), &s("0.25.0"), &s("T1"), launcher);
    let twice = add_velvet_profile(&s("1.20.1"), &s("0.26.0"), &s("T2"), once.clone());
    assert_eq!(twice.profiles.len(), once.profiles.len());
    assert_eq!(twice.profiles[1].0, "velvet-quilt-loader-1.20.1");
    assert_eq!(twice.profiles[1].1.last_version_id, "quilt-loader-0.26.0-1.20.1");
    assert_eq!(twice.profiles[1].1.created, "T2");
}

#[test]
fn write_profile_stamps_time() {
    let launcher = LauncherProfiles { profiles: vec![], settings: s("{}"), version: 3 };
    let r = write_profile(&s("1.20.1"), &s("0.26.0"), launcher).unwrap();
    assert_eq!(r.profiles.len(), 1);
    let p = &r.profiles[0].1;
    assert_eq!(p.created, p.last_used);
    assert!(p.created.ends_with(" UTC"));
}

// ---- window state ----

#[test]
fn new_window_asks_for_stable_versions() {
    let (v, a) = Velvet::new();
    assert_eq!(a, Action::Populate(false));
    assert!(v.vanilla && !v.beauty && !v.optifine && !v.snapshot);
    assert_eq!(v.version, None);
    assert_eq!(v.status, UiStatus::Idle);
    assert_eq!(v.title(), "Velvet Installer");
}

#[test]
fn title_names_chosen_version() {
    let (mut v, _) = Velvet::new();
    v.update(Message::Update(s("1.20.1")));
    assert_eq!(v.title(), "Velvet Installer - 1.20.1");
}

#[test]
fn populate_chooses_newest_version() {
    let (mut v, _) = Velvet::new();
    let a = v.update(Message::Populate(vec![s("1.21"), s("1.20.1")]));
    assert_eq!(a, Action::Nothing);
    assert_eq!(v.version, Some(s("1.21")));
    assert_eq!(v.version_list, vec![s("1.21"), s("1.20.1")]);
}

#[test]
fn snapshot_toggle_refetches() {
    let (mut v, _) = Velvet::new();
    assert_eq!(v.update(Message::Snapshot(true)), Action::Populate(true));
    assert!(v.snapshot);
}

#[test]
fn list_toggles() {
    let (mut v, _) = Velvet::new();
    assert_eq!(v.update(Message::VButton(false)), Action::Nothing);
    assert_eq!(v.update(Message::BButton(true)), Action::Nothing);
    assert_eq!(v.update(Message::OButton(true)), Action::Nothing);
    assert!(!v.vanilla && v.beauty && v.optifine);
}

#[test]
fn pressing_without_version() {
    let (mut v, _) = Velvet::new();
    assert_eq!(v.update(Message::Pressed), Action::Nothing);
    assert_eq!(v.status, UiStatus::NoVersion);
}

#[test]
fn pressing_with_version_installs() {
    let (mut v, _) = Velvet::new();
    v.update(Message::Update(s("1.20.1")));
    v.update(Message::OButton(true));
    let a = v.update(Message::Pressed);
    assert_eq!(
        a,
        Action::Install { version: s("1.20.1"), vanilla: true, beauty: false, optifine: true }
    );
    assert_eq!(v.status, UiStatus::Installing);
    assert!(v.version.is_some());
}

#[test]
fn done_outcomes() {
    let (mut v, _) = Velvet::new();
    assert_eq!(v.update(Message::Done(Ok(vec![]))), Action::Nothing);
    assert_eq!(v.status, UiStatus::Success(vec![]));
    assert_eq!(v.update(Message::Done(Ok(vec![s("sodium")]))), Action::Expand);
    assert_eq!(v.status, UiStatus::Success(vec![s("sodium")]));
    assert_eq!(v.update(Message::Done(Err(s("boom")))), Action::Expand);
    assert_eq!(v.status, UiStatus::Failure(s("boom")));
}

#[test]
fn version_stays_chosen() {
    let (mut v, _) = Velvet::new();
    v.update(Message::Update(s("1.20.1")));
    for m in [
        Message::Snapshot(true),
        Message::Pressed,
        Message::Done(Err(s("e"))),
        Message::VButton(true),
        Message::Done(Ok(vec![])),
    ] {
        v.update(m);
        assert!(v.version.is_some());
    }
}

#[test]
fn message_clone_is_equal() {
    let m = Message::Done(Ok(vec![s("a"), s("b")]));
    assert_eq!(m.clone(), m);
    let p = Message::Populate(vec![s("1.21")]);
    assert_eq!(p.clone(), p);
}

#[test]
fn button_labels_and_notices() {
    assert_eq!(button_label(&UiStatus::Idle), "Install");
    assert_eq!(button_label(&UiStatus::Installing), "Installing...");
    assert_eq!(button_label(&UiStatus::NoVersion), "No version selected!");
    assert_eq!(button_label(&UiStatus::Success(vec![])), "Finished!");
    assert_eq!(button_label(&UiStatus::Failure(s("x"))), "Error!");
    assert_eq!(notice(&UiStatus::Idle), None);
    assert_eq!(notice(&UiStatus::Success(vec![])), None);
    assert_eq!(
        notice(&UiStatus::Success(vec![s("sodium"), s("iris"), s("ears")])),
        Some(Notice::Unavailable(s("sodium, iris, ears")))
    );
    assert_eq!(notice(&UiStatus::Failure(s("x"))), Some(Notice::Error(s("x"))));
}

#[test]
fn join_names_edges() {
    assert_eq!(join_names(&vec![]), "");
    assert_eq!(join_names(&vec![s("a")]), "a");
    assert_eq!(join_names(&vec![s("a"), s("b")]), "a, b");
}

#[test]
fn quilt_version_skips_prereleases() {
    assert_eq!(pick_quilt_version(&vec![s("0.27.0-beta.1"), s("0.26.4"), s("0.26.3")]), "0.26.4");
    assert_eq!(pick_quilt_version(&vec![s("0.27.0-beta.1")]), "");
    assert_eq!(pick_quilt_version(&vec![]), "");
}

#[test]
fn offered_versions_hide_snapshots() {
    let vs = vec![
        GameVersion { version: s("24w14a"), stable: false },
        GameVersion { version: s("1.20.4"), stable: true },
        GameVersion { version: s("1.20.4-rc1"), stable: false },
        GameVersion { version: s("1.20.3"), stable: true },
    ];
    assert_eq!(offered_versions(false, &vs), vec![s("1.20.4"), s("1.20.3")]);
    assert_eq!(offered_versions(true, &vs).len(), 4);
    assert!(offered_versions(false, &vec![]).is_empty());
}

#[test]
fn jar_file_name_agrees_with_path_with_extension() {
    for name in ["AANobbMI", "abc.defg", ".hidden1", "a.b.c.de", "abcdefg.", "ab\\cdefg", "é.ééé"] {
        let expected = std::path::Path::new("/mods").join(name).with_extension("jar");
        let got = std::path::Path::new("/mods").join(jar_file_name(&s(name)));
        assert_eq!(got, expected, "{name}");
    }
}

#[test]
fn snapshots_offer_every_version_and_hide_only_unstable_ones() {
    let vs = vec![
        GameVersion { version: s("24w14a"), stable: false },
        GameVersion { version: s("1.20.4"), stable: true },
        GameVersion { version: s("1.20.3"), stable: true },
    ];
    let all = offered_versions(true, &vs);
    let stable = offered_versions(false, &vs);
    assert_eq!(all, vs.iter().map(|v| v.version.clone()).collect::<Vec<_>>());
    assert_eq!(stable, vec![s("1.20.4"), s("1.20.3")]);
    let mut it = all.iter();
    for x in &stable {
        assert!(it.any(|y| y == x));
    }
}

#[test]
fn reinstall_changes_only_times() {
    let launcher = LauncherProfiles {
        profiles: vec![
            (s("a"), profile("latest-release", Some("-Xmx2G"), Some("/jdk"))),
            (s("b"), profile("custom", None, None)),
        ],
        settings: s("{\"x\":1}"),
        version: 3,
    };
    let once = add_velvet_profile(&s("1.20.1"), &s("0.26.0"), &s("T1"), launcher);
    let twice = add_velvet_profile(&s("1.20.1"), &s("0.26.0"), &s("T2"), once.clone());
    assert_eq!(twice.settings, once.settings);
    assert_eq!(twice.version, once.version);
    assert_eq!(twice.profiles.len(), once.profiles.len());
    for (x, y) in twice.profiles.iter().zip(once.profiles.iter()) {
        assert_eq!(x.0, y.0);
        if x.0 == "velvet-quilt-loader-1.20.1" {
            let mut z = x.1.clone();
            z.created = y.1.created.clone();
            z.last_used = y.1.last_used.clone();
            assert_eq!(z, y.1);
            assert_eq!(x.1.created, "T2");
        } else {
            assert_eq!(x.1, y.1);
        }
    }
}

#[test]
fn second_run_after_carrying_out_plan_does_nothing() {
    let installed = index(&[("aaaaaaaa", "h1"), ("bbbbbbbb", "old"), ("cccccccc", "h3")]);
    let statuses = vec![
        found("aaaaaaaa", "u1", "h1"),
        found("bbbbbbbb", "u2", "new"),
        Status::NotFound { slug: s("slug") },
        found("dddddddd", "u4", "h4"),
    ];
    let plan = plan_sync(&installed, &statuses);
    let mut after = ModHashes::new();
    for i in 0..installed.len() {
        let (k, v) = installed.entry(i);
        if !plan.removals.contains(k) {
            after.insert(k.clone(), v.clone());
        }
    }
    for d in &plan.downloads {
        after.insert(d.id.clone(), d.sha1.clone());
    }
    let again = plan_sync(&after, &statuses);
    assert!(again.downloads.is_empty());
    assert!(again.removals.is_empty());
    assert_eq!(again.missing, plan.missing);
}

#[test]
fn folder_steps() {
    assert_eq!(folder_step(true), FolderStep::Use);
    assert_eq!(folder_step(false), FolderStep::Ask);
    assert_eq!(picked_folder(Some(7u8)), Ok(7u8));
    assert_eq!(picked_folder::<u8>(None), Err(PickError::NoFolder));
    assert_eq!(PickError::NoFolder.message(), "Select a folder!");
}

#[test]
fn loader_profile_url_names_versions() {
    assert_eq!(
        loader_profile_url(&s("1.20.1"), &s("0.26.0")),
        "https://meta.quiltmc.org/v3/versions/loader/1.20.1/0.26.0/profile/json"
    );
}

#[test]
fn version_profile_pretty_prints() {
    let out = version_profile(b"{\"id\":\"x\",\"libraries\":[1,2]}").ok().unwrap();
    assert_eq!(String::from_utf8(out).unwrap(), "{\n  \"id\": \"x\",\n  \"libraries\": [\n    1,\n    2\n  ]\n}");
}

#[test]
fn version_profile_rejects_non_json() {
    assert!(version_profile(b"not json").is_err());
    assert!(version_profile(b"").is_err());
}

#[test]
fn unix_timestamp_before_and_after_epoch() {
    assert_eq!(unix_timestamp(Ok((5, 7))), Some((5, 7)));
    assert_eq!(unix_timestamp(Err((5, 0))), Some((-5, 0)));
    assert_eq!(unix_timestamp(Err((5, 250_000_000))), Some((-6, 750_000_000)));
    assert_eq!(unix_timestamp(Ok((u64::MAX, 0))), None);
    assert_eq!(unix_timestamp(Err((u64::MAX, 1))), None);
}

#[test]
fn now_text_is_utc() {
    let t = now_text().unwrap();
    assert!(t.ends_with(" UTC"));
    assert!(t.len() > 20);
}

#[test]
fn answers_follow_replies() {
    let ids = vec![s("aaaaaaaa"), s("bbbbbbbb")];
    let replies = vec![
        Reply { slug: s("a"), versions: vec![Version { files: vec![VersionFile { url: s("u"), sha1: s("h") }] }] },
        Reply { slug: s("b"), versions: vec![] },
    ];
    assert_eq!(answers(&ids, &replies), vec![found("aaaaaaaa", "u", "h"), Status::NotFound { slug: s("b") }]);
}

use pkgutils::commands::{batch_report, report_line};
use pkgutils::config::{mirrors_from_configs, text_lines};
use pkgutils::digest::{encode_hex, signature_of};
use pkgutils::meta::{PackageMeta, PackageMetaList};
use pkgutils::progress::{display_size, progress, progress_bar, SizeUnit};
use pkgutils::repo::{archive_file, signature_file_name, signature_matches, Repo, RepoError, SyncAction};
use pkgutils::text::trim_text;
use pkgutils::upgrade::{accepts_answer, confirms_upgrade, plan_upgrades, plan_with, VersionCmp};

fn two_mirrors() -> Repo {
    Repo::new("x86_64-unknown-redox", vec!["https://a.example".to_string(), "https://b.example".to_string()])
}

fn list(entries: &[(&str, &str)]) -> PackageMetaList {
    let mut l = PackageMetaList::new();
    for (n, v) in entries {
        l.insert(n, v);
    }
    l
}

#[test]
fn hex_encoding_pads_every_byte() {
    assert_eq!(encode_hex(&[0x01, 0xab, 0x00, 0x10]), "01AB0010");
    assert_eq!(encode_hex(&[]), "");
    assert_ne!(encode_hex(&[0x01, 0x11]), encode_hex(&[0x11, 0x01]));
}

#[test]
fn signature_is_sha3_512_in_upper_hex() {
    assert_eq!(
        signature_of(b""),
        "A69F73CCA23A9AC5C8B567DC185A756E97C982164FE25859E0D1DCC1475C80A615B2123AF1F5F94C11E3E9402C3AC558F500199D95B6D3E301758586281DCD26"
    );
    let s = signature_of(b"archive bytes");
    assert_eq!(s.len(), 128);
    assert!(s.chars().all(|c| c.is_ascii_digit() || ('A'..='F').contains(&c)));
    assert_ne!(s, signature_of(b"archive bytez"));
}

#[test]
fn signature_file_round_trips() {
    let repo = two_mirrors();
    let data = b"a small archive".to_vec();
    let sig_file = repo.signature_file(&data);
    assert!(sig_file.ends_with('\n'));
    assert_eq!(sig_file.trim(), repo.signature(&data));
    assert!(signature_matches(&repo.signature(&data), &sig_file));
}

#[test]
fn trimming_matches_std() {
    for s in ["  ab\n", "ab", "\t\r\n", "", " a b ", "\u{a0}x\u{3000}"] {
        assert_eq!(trim_text(s), s.trim());
    }
}

#[test]
fn cache_hit_needs_no_download_twice() {
    let repo = two_mirrors();
    let data = b"cached archive".to_vec();
    let expected = repo.signature_file(&data);
    assert!(repo.cache_hit(&expected, Some(&data)));
    assert!(repo.cache_hit(&expected, Some(&data)));
    assert!(!repo.cache_hit(&expected, None));
}

#[test]
fn tampered_archive_is_detected() {
    let repo = two_mirrors();
    let data = b"untouched archive".to_vec();
    let expected = repo.signature_file(&data);
    let tampered = b"untouched archivE".to_vec();
    assert!(!repo.cache_hit(&expected, Some(&tampered)));
    match repo.verify_archive("pkg", &expected, &tampered) {
        Err(RepoError::InvalidData(m)) => assert_eq!(m, "pkg not valid"),
        other => panic!("unexpected {:?}", other),
    }
    assert!(repo.verify_archive("pkg", &expected, &data).is_ok());
}

#[test]
fn mirrors_are_tried_in_order() {
    let repo = two_mirrors();
    // the first mirror fails, the second succeeds
    assert_eq!(repo.sync_step(0, false), SyncAction::Download(0));
    assert_eq!(repo.remote_path(0, "pkg.sig"), "https://a.example/x86_64-unknown-redox/pkg.sig");
    assert_eq!(repo.sync_step(1, false), SyncAction::Download(1));
    assert_eq!(repo.remote_path(1, "pkg.sig"), "https://b.example/x86_64-unknown-redox/pkg.sig");
    assert_eq!(repo.sync_step(2, true), SyncAction::Finished);
    // the first succeeds: the second is never tried
    assert_eq!(repo.sync_step(1, true), SyncAction::Finished);
    // both fail
    assert_eq!(repo.sync_step(2, false), SyncAction::Exhausted);
}

#[test]
fn no_mirror_means_not_found() {
    let repo = Repo::new("t", Vec::new());
    assert_eq!(repo.mirror_count(), 0);
    assert_eq!(repo.sync_step(0, false), SyncAction::Exhausted);
}

#[test]
fn add_remote_appends_last() {
    let mut repo = Repo::new("t", vec!["https://a".to_string()]);
    repo.add_remote("https://b");
    assert_eq!(repo.mirror_count(), 2);
    assert_eq!(repo.remote_path(1, "repo.toml"), "https://b/t/repo.toml");
    assert_eq!(repo.remote_path(0, "repo.toml"), "https://a/t/repo.toml");
}

#[test]
fn cache_paths() {
    let repo = two_mirrors();
    assert_eq!(repo.cache_path("pkg.tar"), "/tmp/pkg/pkg.tar");
    assert_eq!(repo.package_dir("pkg"), "/tmp/pkg/pkg");
    assert_eq!(archive_file("pkg"), "pkg.tar");
    assert_eq!(signature_file_name("pkg"), "pkg.sig");
}

#[test]
fn upgrade_lists_newer_manifest_version() {
    let local = list(&[("pkg", "1.0.0")]);
    let remote = list(&[("pkg", "1.2.0")]);
    let plan = plan_upgrades(&local, &remote);
    assert_eq!(plan.upgrades.len(), 1);
    assert_eq!(plan.upgrades[0].name, "pkg");
    assert_eq!(plan.upgrades[0].from, "1.0.0");
    assert_eq!(plan.upgrades[0].to, "1.2.0");
    assert!(plan.unparsable.is_empty());
}

#[test]
fn upgrade_skips_equal_or_newer_local() {
    let local = list(&[("a", "1.2.0"), ("b", "2.0.0")]);
    let remote = list(&[("a", "1.2.0"), ("b", "1.9.9")]);
    let plan = plan_upgrades(&local, &remote);
    assert!(plan.upgrades.is_empty());
}

#[test]
fn unparsable_versions_do_not_stop_planning() {
    let local = list(&[("a", "1.0"), ("b", "1.0"), ("c", "1.0")]);
    let remote = list(&[("a", "2.0"), ("c", "3.0")]);
    let cmps = vec![Some(VersionCmp::Lt), None, Some(VersionCmp::Lt)];
    let plan = plan_with(&local, &remote, &cmps);
    let names: Vec<&str> = plan.upgrades.iter().map(|c| c.name.as_str()).collect();
    assert_eq!(names, vec!["a", "c"]);
    assert_eq!(plan.upgrades[1].to, "3.0");
    assert_eq!(plan.unparsable.len(), 1);
    assert_eq!(plan.unparsable[0].name, "b");
    assert_eq!(plan.unparsable[0].to, "");
}

#[test]
fn meta_list_keeps_names_unique() {
    let mut l = PackageMetaList::new();
    l.insert("a", "1");
    l.insert("b", "2");
    l.insert("a", "3");
    assert_eq!(l.len(), 2);
    assert_eq!(l.get("a").map(|s| s.as_str()), Some("3"));
    assert_eq!(l.get("b").map(|s| s.as_str()), Some("2"));
    assert_eq!(l.get("c"), None);
    assert_eq!(l.entry(0).name, "a");
    let m = PackageMeta::new("x", "0.1");
    assert_eq!((m.name.as_str(), m.version.as_str()), ("x", "0.1"));
}

#[test]
fn mirror_configuration_skips_comments_and_blank_lines() {
    let files = vec![
        "# main mirrors\nhttps://a.example\n\nhttps://b.example\n".to_string(),
        "https://c.example\r\n#https://d.example".to_string(),
    ];
    assert_eq!(mirrors_from_configs(&files), vec!["https://a.example", "https://b.example", "https://c.example"]);
    assert_eq!(mirrors_from_configs(&vec!["#x\n\ny".to_string()]), vec!["y"]);
    assert!(mirrors_from_configs(&Vec::new()).is_empty());
}

#[test]
fn progress_and_sizes() {
    assert_eq!(progress(0, 0), (100, 50));
    assert_eq!(progress(25, 100), (25, 12));
    assert_eq!(progress(usize::MAX - 1, usize::MAX), (99, 49));
    let bar = progress_bar(3);
    assert_eq!(bar.len(), 50);
    assert_eq!(&bar[..5], b"===> ");
    assert_eq!(progress_bar(50), vec![b'='; 50]);
    assert_eq!(display_size(9_999), (9_999, SizeUnit::B));
    assert_eq!(display_size(10_000), (10, SizeUnit::KB));
    assert_eq!(display_size(25_000_000), (25, SizeUnit::MB));
    assert_eq!(display_size(12_000_000_000), (12, SizeUnit::GB));
    assert_eq!(SizeUnit::MB.suffix(), "MB");
}

#[test]
fn upgrade_confirmation() {
    for yes in ["", "y", "Y", "yes", "YeS"] {
        assert!(confirms_upgrade(yes));
    }
    for no in ["n", "no", "yess", " y"] {
        assert!(!confirms_upgrade(no));
    }
    assert!(accepts_answer("yes"));
    assert!(!accepts_answer("YES"));
}

#[test]
fn batch_failure_does_not_stop_the_rest() {
    let names = vec!["missing".to_string(), "present".to_string()];
    let results = vec![Err("no remote paths".to_string()), Ok("fetched /tmp/pkg/present.tar".to_string())];
    let lines = batch_report("fetch", &names, &results);
    assert_eq!(lines, vec![
        "pkg: fetch: missing: failed: no remote paths",
        "pkg: fetch: present: fetched /tmp/pkg/present.tar",
    ]);
    let alone = report_line("fetch", "present", &Ok("fetched /tmp/pkg/present.tar".to_string()));
    assert_eq!(alone, lines[1]);
}

#[test]
fn lines_split_like_std() {
    for s in ["a\nb\n", "a\r\nb", "", "\n", "\n\nx", "a\rb\r", "one", "x\r\n\r\n"] {
        let expected: Vec<String> = s.lines().map(|l| l.to_string()).collect();
        assert_eq!(text_lines(s), expected, "{:?}", s);
    }
}

#[test]
fn error_messages() {
    match RepoError::no_remote_paths() {
        RepoError::NotFound(m) => assert_eq!(m, "no remote paths"),
        e => panic!("unexpected {:?}", e),
    }
    let e = RepoError::package_not_found("dir");
    assert!(matches!(e, RepoError::NotFound(_)));
    assert_eq!(e.message(), "dir not found");
}

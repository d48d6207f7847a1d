//! Version comparison, release file names and links, and the tag in
//! GitHub's answer.

use bemyvpn::update::{asset_name, asset_url, sh_quote, tag_from_release_json, nonempty_tag};
use bemyvpn::version::is_newer;

use bemyvpn::error::Error;
use bemyvpn::update::take_chunk;
use bemyvpn::update::{after_answer, Answer, FetchStep, MAX_REQUESTS};
use bemyvpn::update::{bundle_script, exe_update_script, BUNDLE_SCRIPT_BODY};

#[test]
fn version_compare_survives_hostile_input() {
    let cur = "1.7";
    assert!(!is_newer("", cur));
    assert!(!is_newer("не версия", cur));
    assert!(!is_newer("1.7", cur), "the same version is not newer");
    assert!(!is_newer("1.6.9", cur));
    assert!(!is_newer("../../1.9", cur), "garbage before the number is no version");
    assert!(!is_newer(&"9".repeat(40), cur), "a 40-digit number broke the comparison");
    assert!(is_newer("1.8", cur), "a real update must be seen");
    assert!(is_newer("1.10", cur), "1.10 is newer than 1.7 - numbers compare as numbers");
}

#[test]
fn tags_and_missing_numbers_compare_sensibly() {
    assert!(is_newer("v1.8", "1.7"));
    assert!(!is_newer("1.7.0", "1.7"));
    assert!(is_newer("1.7.1", "1.7"));
    assert!(!is_newer("1.8", "garbage"));
}

#[test]
fn asset_name_and_url() {
    let term = asset_name("linux", "x86_64", false).expect("no terminal file name");
    assert!(term.starts_with("bemyvpn-"), "name off the pattern: {term}");
    let gui = asset_name("linux", "x86_64", true).expect("no application file name");
    assert_ne!(term, gui, "terminal and application are different files");

    let url = asset_url("owner/repo", "v1.6", term);
    assert_eq!(url, format!("https://github.com/owner/repo/releases/download/v1.6/{term}"));
    assert!(url.starts_with("https://"), "HTTPS only");
}

#[test]
fn asset_name_is_from_fixed_list_only() {
    for os in ["linux", "macos", "windows", "freebsd", "../etc", ""] {
        for arch in ["x86_64", "aarch64", "riscv64", "/"] {
            for gui in [true, false] {
                if let Some(name) = asset_name(os, arch, gui) {
                    assert!(!name.contains('/') && !name.contains(".."), "file name holds a path: {name}");
                    assert!(name.starts_with("bemyvpn-"), "name off the pattern: {name}");
                }
            }
        }
    }
}

#[test]
fn asset_url_points_at_the_release() {
    let url = asset_url("owner/repo", "v1.6", "bemyvpn-linux-x86_64-terminal");
    assert_eq!(url, "https://github.com/owner/repo/releases/download/v1.6/bemyvpn-linux-x86_64-terminal");
    assert!(url.starts_with("https://"));
}

#[test]
fn hostile_tag_cannot_move_download_off_github() {
    let hostile = [
        "../../../../evil",
        "//evil.com/x",
        "v1.7@evil.com",
        "v1.7#@evil.com",
        "..%2f..%2fevil",
        "v1.7?x=https://evil.com",
        "https://evil.com/v1.7",
    ];
    for tag in hostile {
        let url = asset_url("owner/repo", tag, "bemyvpn-linux-x86_64-terminal");
        let uri: hyper::Uri = match url.parse() {
            Ok(u) => u,
            Err(_) => continue,
        };
        assert_eq!(uri.host(), Some("github.com"), "tag {tag:?} moved the download: {url}");
        assert_eq!(uri.scheme_str(), Some("https"), "tag {tag:?} changed the scheme: {url}");
    }
}

#[test]
fn tag_with_whitespace_yields_unusable_url() {
    for tag in ["v1.7 evil", "v1.7\nHost: evil.com", "v1.7\r\n", "v1 .7"] {
        let url = asset_url("owner/repo", tag, "asset");
        assert!(url.parse::<hyper::Uri>().is_err(), "a link with {tag:?} parsed: {url}");
    }
}

#[test]
fn every_released_platform_knows_its_asset() {
    let released = [
        "bemyvpn-linux-x86_64-terminal",
        "bemyvpn-linux-x86_64.AppImage",
        "bemyvpn-linux-arm64-terminal",
        "bemyvpn-linux-arm64.AppImage",
        "bemyvpn-windows-x86_64-terminal.exe",
        "bemyvpn-windows-x86_64.exe",
        "bemyvpn-windows-arm64-terminal.exe",
        "bemyvpn-windows-arm64.exe",
        "bemyvpn-macos-arm64-terminal",
        "bemyvpn-macos-arm64.dmg",
        "bemyvpn-macos-x86_64-terminal",
        "bemyvpn-macos-x86_64.dmg",
    ];
    let mut named = Vec::new();
    for os in ["linux", "macos", "windows"] {
        for arch in ["x86_64", "aarch64"] {
            let term = asset_name(os, arch, false).expect("a terminal file for every released platform");
            let gui = asset_name(os, arch, true).expect("a windowed file for every released platform");
            assert_ne!(term, gui);
            for n in [term, gui] {
                assert!(released.contains(&n), "{n} is not released");
                assert!(!n.contains('/') && !n.contains(".."), "file name holds a path: {n}");
                named.push(n);
            }
        }
    }
    named.sort();
    named.dedup();
    assert_eq!(named.len(), released.len());
    assert_eq!(asset_name("freebsd", "x86_64", false), None);
    assert_eq!(asset_name("linux", "riscv64", true), None);
}

#[test]
fn parses_tag_from_github_answer() {
    let json = r#"{"url":"x","tag_name":"v1.7","name":"BeMyVPN 1.7","draft":false}"#;
    assert_eq!(tag_from_release_json(json).as_deref(), Some("v1.7"));

    let reordered = r#"{"name":"x","draft":false,"tag_name":"v2.10"}"#;
    assert_eq!(tag_from_release_json(reordered).as_deref(), Some("v2.10"));

    assert_eq!(tag_from_release_json(r#"{"message":"Not Found"}"#), None);
    assert_eq!(tag_from_release_json("не json"), None);

    let trap = r#"{"assets":[{"name":"tag_name","label":"v9.9"}],"tag_name":"v1.7"}"#;
    assert_eq!(tag_from_release_json(trap).as_deref(), Some("v1.7"));

    assert_eq!(tag_from_release_json(r#"{"tag_name":"v1."#), None);
}

#[test]
fn an_empty_tag_is_no_tag() {
    assert_eq!(tag_from_release_json(r#"{"tag_name":""}"#), None);
    assert_eq!(nonempty_tag(Some(String::new())), None);
    assert_eq!(nonempty_tag(Some("v1".to_string())).as_deref(), Some("v1"));
    assert_eq!(nonempty_tag(None), None);
}

#[test]
fn shell_quoting_closes_off_everything() {
    assert_eq!(sh_quote("/tmp/обычный путь.app"), "'/tmp/обычный путь.app'");
    assert_eq!(sh_quote("/Users/o'brien/Моё.app"), r"'/Users/o'\''brien/Моё.app'");
    assert_eq!(sh_quote("/tmp/a$HOME`id`.app"), "'/tmp/a$HOME`id`.app'");
    assert_eq!(sh_quote(""), "''");
}

#[test]
fn a_download_follows_redirects_a_few_times_only() {
    match after_answer(1, Answer::Redirect(Some("https://objects.example/x".to_string()))) {
        FetchStep::Follow(u) => assert_eq!(u, "https://objects.example/x"),
        other => panic!("{other:?}"),
    }
    match after_answer(MAX_REQUESTS, Answer::Redirect(Some("https://x".to_string()))) {
        FetchStep::Fail(Error::Net(m)) => assert_eq!(m, "слишком много перенаправлений"),
        other => panic!("{other:?}"),
    }
    match after_answer(2, Answer::Redirect(None)) {
        FetchStep::Fail(Error::Net(m)) => assert_eq!(m, "перенаправление без адреса"),
        other => panic!("{other:?}"),
    }
    assert!(matches!(after_answer(3, Answer::Success), FetchStep::ReadBody));
    match after_answer(1, Answer::Refused("404 Not Found".to_string())) {
        FetchStep::Fail(Error::Net(m)) => assert_eq!(m, "сервер ответил 404 Not Found"),
        other => panic!("{other:?}"),
    }
}

#[test]
fn the_size_ceiling_holds_before_the_chunk_comes_in() {
    let mut out = Vec::new();
    assert!(take_chunk(&mut out, b"abcd", 6).is_ok());
    assert!(take_chunk(&mut out, b"ef", 6).is_ok());
    assert_eq!(out, b"abcdef");
    match take_chunk(&mut out, b"g", 6) {
        Err(Error::Net(m)) => assert_eq!(m, "файл больше ожидаемого — отклонён"),
        other => panic!("{other:?}"),
    }
    assert_eq!(out, b"abcdef", "a refused chunk is not taken in");
    let mut big = Vec::new();
    assert!(take_chunk(&mut big, &[0u8; 16], usize::MAX).is_ok());
}

#[test]
fn the_helper_scripts_quote_every_path() {
    let s = bundle_script("/Users/o'brien/BeMyVPN.app", "/tmp/u/update.dmg", "/tmp/u", 4242);
    assert!(s.starts_with("#!/bin/sh\nset -e\nAPP='/Users/o'\\''brien/BeMyVPN.app'\nDMG='/tmp/u/update.dmg'\nTMP='/tmp/u'\nPID=4242\n"));
    assert!(s.ends_with(BUNDLE_SCRIPT_BODY));
    assert!(s.contains("xattr -dr com.apple.quarantine"));
    let w = exe_update_script("C:\\a\\bemyvpn.exe", "C:\\a\\bemyvpn.bak", "C:\\a\\bemyvpn-new.exe");
    assert_eq!(
        w,
        "@echo off\r\n:wait\r\ntimeout /t 1 /nobreak >nul\r\nmove /y \"C:\\a\\bemyvpn.exe\" \"C:\\a\\bemyvpn.bak\" >nul 2>&1 || goto wait\r\nmove /y \"C:\\a\\bemyvpn-new.exe\" \"C:\\a\\bemyvpn.exe\" >nul 2>&1 || (move /y \"C:\\a\\bemyvpn.bak\" \"C:\\a\\bemyvpn.exe\" >nul & exit /b 1)\r\nstart \"\" \"C:\\a\\bemyvpn.exe\"\r\ndel \"%~f0\"\r\n"
    );
}

#[test]
fn of_two_versions_at_most_one_is_newer() {
    for (a, b) in [("1.8", "1.7"), ("1.7.1", "1.7"), ("v2", "1.99"), ("1.7", "1.7.0"), ("x", "1.0")] {
        assert!(!(is_newer(a, b) && is_newer(b, a)), "{a} and {b} are each newer than the other");
        assert!(!is_newer(a, a));
    }
    assert!(!is_newer("garbage", "1.0") && !is_newer("1.0", "garbage"));
}

use a_fast_clipboard::digest::digest_text;
use a_fast_clipboard::updater::{
    apply_update_from_args, check_download, check_helper_request, choose_update, compare_digest,
    download_extension, latest_update, newer_by, newer_version, parse_version, process_is_running,
    release_url, replace_when_ready, stage_and_launch_update, token_material, update_token,
    user_agent, validate_helper_request, verify_digest, wait_for_process_exit, write_version,
    HelperFacts, Release, ReleaseAsset, ReleaseError, ReleaseVersion, ReplaceStep, UpdateError,
};

fn version(text: &str) -> ReleaseVersion {
    parse_version(text).unwrap()
}

fn asset(name: &str, digest: Option<&str>) -> ReleaseAsset {
    ReleaseAsset {
        name: name.to_string(),
        download_url: format!("https://example.org/{name}"),
        digest: digest.map(|d| d.to_string()),
    }
}

fn release(tag: &str, assets: Vec<ReleaseAsset>) -> Release {
    Release { tag_name: tag.to_string(), assets }
}

#[test]
fn versions_are_read() {
    let v = version(" vv1.20.3-rc.1+build.5 ");
    assert_eq!((v.major, v.minor, v.patch), (1, 20, 3));
    assert_eq!((v.pre.as_str(), v.build.as_str()), ("rc.1", "build.5"));
    assert_eq!(write_version(&v), "1.20.3-rc.1+build.5");
    assert_eq!(write_version(&version("v0.1.0")), "0.1.0");
    for text in ["", "1.2", "V1.2.3", "1.2.3.4", "01.2.3", "x"] {
        assert!(parse_version(text).is_err(), "{text}");
    }
    let cause = semver::Version::parse("1.x").unwrap_err();
    assert_eq!(
        parse_version("v1.x").unwrap_err().message(),
        format!("invalid release version: {cause}")
    );
}

#[test]
fn versions_are_ordered() {
    let order = [
        "0.1.0-alpha", "0.1.0-alpha.1", "0.1.0-beta.2", "0.1.0-beta.11", "0.1.0", "0.1.0+1",
        "0.1.0+2", "0.1.1", "0.2.0", "0.10.0", "1.0.0-rc.1", "1.0.0",
    ];
    for (i, a) in order.iter().enumerate() {
        for (j, b) in order.iter().enumerate() {
            assert_eq!(newer_version(&version(a), &version(b)), i > j, "{a} {b}");
        }
    }
}

#[test]
fn given_orders_of_pre_releases_and_builds() {
    let (a, b) = (version("1.0.0-a"), version("1.0.0-b"));
    assert!(newer_by(&a, &b, true, false) && !newer_by(&a, &b, false, true));
    let (a, b) = (version("1.0.0+a"), version("1.0.0+b"));
    assert!(newer_by(&a, &b, false, true) && !newer_by(&a, &b, true, false));
    assert!(!newer_by(&a, &a, true, true));
    assert!(newer_by(&version("1.0.1"), &version("1.0.0"), false, false));
}

#[test]
fn newer_release_is_offered() {
    let release = release(
        "v1.2.0",
        vec![
            asset("notes.txt", None),
            asset("a_fast_clipboard-v1.2.0-windows-x64.exe", Some("sha256:ab")),
            asset("a_fast_clipboard-v1.2.0-windows-x64.exe", None),
        ],
    );
    let info = latest_update(&release, "1.1.9").unwrap().unwrap();
    assert_eq!(info.version, "1.2.0");
    assert_eq!(info.asset_name, "a_fast_clipboard-v1.2.0-windows-x64.exe");
    assert_eq!(
        info.download_url,
        "https://example.org/a_fast_clipboard-v1.2.0-windows-x64.exe"
    );
    assert_eq!(info.digest.as_deref(), Some("sha256:ab"));
    assert!(latest_update(&release, "1.2.0").unwrap().is_none());
    assert!(latest_update(&release, "2.0.0").unwrap().is_none());
    let odd = latest_update(&release, "zero");
    assert!(matches!(odd, Err(ReleaseError::InvalidVersion(_))));
}

#[test]
fn release_without_its_file() {
    let empty = release("v1.2.0", vec![asset("a_fast_clipboard-v1.2.0-linux.tar", None)]);
    assert!(matches!(latest_update(&empty, "1.0.0"), Err(ReleaseError::MissingAsset)));
    assert!(latest_update(&empty, "1.2.0").unwrap().is_none());
    let odd = release("latest", vec![]);
    assert!(matches!(latest_update(&odd, "1.0.0"), Err(ReleaseError::InvalidVersion(_))));
    let chosen = choose_update(&empty, &version("1.2.0"), &version("1.0.0"));
    assert_eq!(chosen.err().unwrap().message(), "latest release has no Windows exe asset");
}

#[test]
fn offered_version_is_the_tag() {
    let tag = " v1.2.0";
    let release = release(tag, vec![asset("a_fast_clipboard-v1.2.0-windows-x64.exe", None)]);
    assert_eq!(latest_update(&release, "1.0.0").unwrap().unwrap().version, " v1.2.0");
}

#[test]
fn digests_are_checked() {
    let bytes = b"abc".to_vec();
    let good = "sha256:ba7816bf8f01cfea414140de5dae2223b00361a396177a9cb410ff61f20015ad";
    assert_eq!(verify_digest(&bytes, good), Ok(()));
    assert_eq!(verify_digest(&b"abd".to_vec(), good), Err(UpdateError::DigestMismatch));
    assert_eq!(verify_digest(&bytes, &good[7..]), Err(UpdateError::UnknownDigest));
    assert_eq!(verify_digest(&bytes, &good.to_uppercase()), Err(UpdateError::UnknownDigest));
    assert_eq!(compare_digest("ab", "sha256:ab"), Ok(()));
    assert_eq!(compare_digest("ab", "sha256:AB"), Err(UpdateError::DigestMismatch));
    assert_eq!(check_download(&bytes, None), Ok(()));
    assert_eq!(check_download(&bytes, Some(good)), Ok(()));
    assert_eq!(check_download(&bytes, Some("md5:1")), Err(UpdateError::UnknownDigest));
    assert_eq!(UpdateError::UnknownDigest.message(), "unsupported release digest format");
    assert_eq!(
        UpdateError::DigestMismatch.message(),
        "downloaded update digest did not match release metadata"
    );
}

#[test]
fn tokens() {
    assert_eq!(token_material(77, "0.1.0"), "a_fast_clipboard:update:77:0.1.0");
    assert_eq!(
        update_token(77, "0.1.0"),
        digest_text(&b"a_fast_clipboard:update:77:0.1.0".to_vec())
    );
    assert_ne!(update_token(77, "0.1.0"), update_token(78, "0.1.0"));
}

fn facts() -> HelperFacts {
    HelperFacts {
        staged_in_place: Some(true),
        helper_in_place: Some(true),
        staged_name: Some("a_fast_clipboard-v2.0.0-windows-x64.exe".to_string()),
        target_name: Some("a_fast_clipboard.exe".to_string()),
    }
}

#[test]
fn helper_understands_its_call() {
    let args = stage_and_launch_update(false, "s.exe", "t.exe", 4_000_000_000, "0.1.0").unwrap();
    assert_eq!(args[0..4], ["--apply-update", "s.exe", "t.exe", "4000000000"]);
    let request = apply_update_from_args(&args).unwrap().unwrap();
    assert_eq!((request.staged.as_str(), request.target.as_str()), ("s.exe", "t.exe"));
    assert_eq!(request.old_pid, 4_000_000_000);
    assert_eq!(validate_helper_request(&request, &facts(), "0.1.0"), Ok(()));
    assert_eq!(
        validate_helper_request(&request, &facts(), "0.2.0"),
        Err(UpdateError::InvalidToken)
    );
    let debug = stage_and_launch_update(true, "s", "t", 1, "0.1.0").err().unwrap();
    assert_eq!(debug.message(), "updates install only from release builds");
}

#[test]
fn incomplete_calls() {
    let read = |list: &[&str]| {
        let args: Vec<String> = list.iter().map(|a| a.to_string()).collect();
        apply_update_from_args(&args)
    };
    assert!(read(&[]).unwrap().is_none());
    assert!(read(&["--background", "--apply-update"]).unwrap().is_none());
    let message = |list: &[&str]| read(list).err().unwrap().message();
    assert_eq!(message(&["--apply-update"]), "missing staged update path");
    assert_eq!(message(&["--apply-update", "s"]), "missing target exe path");
    assert_eq!(message(&["--apply-update", "s", "t"]), "missing old process id");
    assert_eq!(message(&["--apply-update", "s", "t", "x", "k"]), "missing old process id");
    assert_eq!(message(&["--apply-update", "s", "t", "12"]), "missing update token");
}

#[test]
fn helper_refuses() {
    let check = |facts: HelperFacts, token: &str| {
        check_helper_request(&facts, token, "k").err().map(|error| error.message())
    };
    assert_eq!(check(facts(), "k"), None);
    assert_eq!(
        check(HelperFacts { staged_in_place: None, ..facts() }, "k").as_deref(),
        Some("staged update has no parent directory")
    );
    assert_eq!(
        check(HelperFacts { helper_in_place: None, ..facts() }, "k").as_deref(),
        Some("helper has no parent directory")
    );
    assert_eq!(
        check(HelperFacts { helper_in_place: Some(false), ..facts() }, "k").as_deref(),
        Some("update helper paths are invalid")
    );
    assert_eq!(
        check(HelperFacts { staged_in_place: Some(false), ..facts() }, "k").as_deref(),
        Some("update helper paths are invalid")
    );
    for name in [None, Some("a_fast_clipboard-v1.exe"), Some("x-windows-x64.exe")] {
        let staged_name = name.map(|n| n.to_string());
        assert_eq!(
            check(HelperFacts { staged_name, ..facts() }, "k").as_deref(),
            Some("staged update asset name is invalid")
        );
    }
    for name in [None, Some("other.exe")] {
        let target_name = name.map(|n| n.to_string());
        assert_eq!(
            check(HelperFacts { target_name, ..facts() }, "k").as_deref(),
            Some("target exe name is invalid")
        );
    }
    assert_eq!(check(facts(), "K").as_deref(), Some("update helper token is invalid"));
}

#[test]
fn waiting_and_replacing() {
    assert_eq!(replace_when_ready(true, false), ReplaceStep::Done);
    assert_eq!(replace_when_ready(false, true), ReplaceStep::RetryAfter(250));
    assert_eq!(replace_when_ready(false, false), ReplaceStep::Fail);
    assert_eq!(wait_for_process_exit(true, true), Some(200));
    assert_eq!(wait_for_process_exit(true, false), None);
    assert_eq!(wait_for_process_exit(false, true), None);
    assert!(process_is_running("\r\na_fast_clipboard.exe   1234 Console\r\n", 1234));
    assert!(!process_is_running("INFO: No tasks are running", 1234));
}

#[test]
fn names_for_the_network() {
    assert_eq!(
        release_url(),
        "https://api.github.com/repos/FelixAllistar/a_fast_clipboard/releases/latest"
    );
    assert_eq!(user_agent("0.1.0"), "a_fast_clipboard/0.1.0");
    assert_eq!(download_extension(12), "download-12");
}

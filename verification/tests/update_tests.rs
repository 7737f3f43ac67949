use net_combiner::platform::Platform;
use net_combiner::update::{
    binary_path_in_archive, check, copy_failed_message, copy_sidecars, install_decision,
    install_latest, install_report, missing_binary_message, normalize_version, repo_label,
    set_executable_if_needed, sidecar_names, update_owner, update_repo, version_is_newer,
    CopyOutcome, InstallPlan, Release, ReleaseAsset,
};

fn asset(name: &str) -> ReleaseAsset {
    ReleaseAsset { name: name.to_owned(), download_url: format!("https://host/{name}") }
}

fn release(version: &str, names: &[&str]) -> Release {
    Release { version: version.to_owned(), assets: names.iter().map(|name| asset(name)).collect() }
}

#[test]
fn versions_are_normalized() {
    assert_eq!(normalize_version(" v1.2.3\n"), "1.2.3");
    assert_eq!(normalize_version("vv1.0"), "1.0");
    assert_eq!(normalize_version("V1.0"), "V1.0");
    assert_eq!(normalize_version("v"), "");
    assert_eq!(normalize_version("v 1"), " 1");
}

#[test]
fn newer_versions_are_recognized() {
    assert!(version_is_newer("0.1.10", "v0.1.11"));
    assert!(version_is_newer("0.1.9", "0.1.10"));
    assert!(version_is_newer("0.9.9", "1.0.0"));
    assert!(version_is_newer("1.0.0-rc.1", "1.0.0"));
    assert!(version_is_newer("1.0.0-alpha.9", "1.0.0-alpha.10"));
    assert!(version_is_newer("1.0.0", "1.0.0+build.1"));
    assert!(!version_is_newer("1.0.0", "1.0.0-rc.1"));
    assert!(!version_is_newer("0.1.10", "0.1.10"));
    assert!(!version_is_newer("0.1.10", " v0.1.10 "));
    assert!(!version_is_newer("0.1.10", "0.1.9"));
    assert!(!version_is_newer("0.1.10", "latest"));
    assert!(!version_is_newer("0.1.10", "1.0"));
    assert!(!version_is_newer("dev", "1.0.0"));
    assert!(!version_is_newer("0.1.10", "01.0.0"));
}

#[test]
fn at_most_one_version_is_newer() {
    let versions = ["1.0.0", "1.0.0-a", "1.0.0-1", "1.0.0+x", "0.9.0", "junk", "1.0.0-a.b"];
    for first in versions {
        for second in versions {
            assert!(!(version_is_newer(first, second) && version_is_newer(second, first)));
        }
    }
}

#[test]
fn first_release_counts() {
    let found = check("0.1.10", &vec!["v0.2.0".to_owned(), "v9.9.9".to_owned()]).unwrap();
    assert_eq!(found.current_version, "0.1.10");
    assert_eq!(found.latest_version, "0.2.0");
    assert!(found.available);
    assert!(!check("0.2.0", &vec!["v0.2.0".to_owned()]).unwrap().available);
    assert!(check("0.2.0", &vec![]).is_none());
}

#[test]
fn place_of_the_releases() {
    assert_eq!(update_owner(None), "ivLis-Studio");
    assert_eq!(update_repo(Some("fork")), "fork");
    assert_eq!(repo_label(None, None), "ivLis-Studio/net-combiner");
    assert_eq!(repo_label(Some("me"), Some("mine")), "me/mine");
}

#[test]
fn installation_takes_the_portable_asset() {
    let releases = vec![release(
        "0.2.0",
        &[
            "net-combiner-zz-target-setup.zip",
            "net-combiner-other-portable.zip",
            "net-combiner-zz-target-portable.zip",
            "second-zz-target-portable.zip",
        ],
    )];
    match install_latest("0.1.10", &releases, "zz-target", "zz-os", "zz-arch") {
        Ok(InstallPlan::Download(found)) => {
            assert_eq!(found.name, "net-combiner-zz-target-portable.zip");
            assert_eq!(found.download_url, "https://host/net-combiner-zz-target-portable.zip");
        }
        _ => panic!("no download"),
    }
}

#[test]
fn installation_goes_by_system_and_processor_too() {
    let releases = vec![release(
        "0.2.0",
        &[
            "net-combiner-zz-os-portable.zip",
            "net-combiner-zz-arch-portable.zip",
            "net-combiner-zz-os-zz-arch-setup.zip",
            "net-combiner-zz-arch-zz-os-portable.zip",
            "net-combiner-zz-target-portable.zip",
        ],
    )];
    match install_latest("0.1.10", &releases, "zz-target", "zz-os", "zz-arch") {
        Ok(InstallPlan::Download(found)) => {
            assert_eq!(found.name, "net-combiner-zz-arch-zz-os-portable.zip");
        }
        _ => panic!("no download"),
    }
    match install_latest("0.1.10", &releases, "zz-target", "zz-os", "none") {
        Ok(InstallPlan::Download(found)) => {
            assert_eq!(found.name, "net-combiner-zz-target-portable.zip");
        }
        _ => panic!("no download"),
    }
    assert!(install_latest("0.1.10", &releases, "none", "zz-os", "none").is_err());
}

#[test]
fn installation_may_find_nothing() {
    assert_eq!(
        install_latest("0.1.10", &vec![], "zz-target", "zz-os", "zz-arch").unwrap_err(),
        "no GitHub releases found"
    );
    assert_eq!(
        install_latest("0.1.10", &vec![release("0.2.0", &["zz-target-setup"])], "zz-target", "zz-os", "zz-arch")
            .unwrap_err(),
        "no portable asset found for target `zz-target`"
    );
    match install_latest("0.1.10", &vec![release("0.1.10", &["zz-target-portable"])], "zz-target", "zz-os", "zz-arch") {
        Ok(InstallPlan::UpToDate(report)) => assert_eq!(report, "UpToDate(0.1.10)"),
        _ => panic!("not up to date"),
    }
    assert!(install_decision("1", true, "t", None).is_err());
    assert!(matches!(
        install_decision("1", true, "t", Some(asset("x"))),
        Ok(InstallPlan::Download(found)) if found.name == "x"
    ));
}

#[test]
fn files_of_an_archive() {
    assert_eq!(binary_path_in_archive(Platform::Windows), vec!["net-combiner.exe"]);
    assert_eq!(binary_path_in_archive(Platform::Linux), vec!["net-combiner", "net-combiner"]);
    assert_eq!(
        sidecar_names(Platform::Windows),
        vec!["tun2proxy-bin.exe", "tun2proxy.exe", "wintun.dll"]
    );
    assert_eq!(sidecar_names(Platform::MacOs), vec!["tun2proxy-bin", "tun2proxy"]);
    assert_eq!(set_executable_if_needed(Platform::Windows), None);
    assert_eq!(set_executable_if_needed(Platform::Linux), Some(0o755));
    assert_eq!(missing_binary_message("a/b"), "update archive did not contain a/b");
}

#[test]
fn copies_are_counted() {
    let outcomes = vec![CopyOutcome::Copied, CopyOutcome::Absent, CopyOutcome::Copied];
    assert_eq!(copy_sidecars(&outcomes), Ok(2));
    let failing = vec![
        CopyOutcome::Copied,
        CopyOutcome::Failed(copy_failed_message("a", "b")),
        CopyOutcome::Failed("later".to_owned()),
    ];
    assert_eq!(copy_sidecars(&failing), Err("failed to copy a to b".to_owned()));
}

#[test]
fn installation_is_reported() {
    assert_eq!(install_report("0.2.0", &Ok(0)), "Updated(0.2.0)");
    assert_eq!(install_report("0.2.0", &Ok(2)), "Updated(0.2.0); sidecars updated: 2");
    assert_eq!(
        install_report("0.2.0", &Err("denied".to_owned())),
        "Updated(0.2.0); sidecar update skipped: denied"
    );
}

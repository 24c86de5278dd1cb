use fido2kpxc::release::{
    build_app, cert, cert_step, check_release, check_tag, checksums, copy_folder, dmg, icons,
    identity_exists, info_plist, installer, list_identities, package, release, sign_app, task, Call,
    CertAction, CertEnd, CertEvent, Task,
};

fn line(call: &Call) -> String {
    format!("{} {}", call.program, call.args.join(" "))
}

fn lines(calls: &[Call]) -> Vec<String> {
    calls.iter().map(line).collect()
}

#[test]
fn tasks_have_names() {
    assert_eq!(task(Some("cert")), Some(Task::Cert));
    assert_eq!(task(Some("bundle")), Some(Task::Bundle));
    assert_eq!(task(Some("package")), Some(Task::Package));
    assert_eq!(task(Some("dmg")), Some(Task::Dmg));
    assert_eq!(task(Some("installers")), Some(Task::Installers));
    assert_eq!(task(Some("release")), Some(Task::Release));
    assert_eq!(task(Some("icon")), Some(Task::Icon));
    assert_eq!(task(Some("other")), None);
    assert_eq!(task(None), None);
}

#[test]
fn the_identity_is_looked_up_by_name() {
    assert_eq!(
        line(&list_identities()),
        "/usr/bin/security find-identity -v -p codesigning"
    );
    assert!(identity_exists("1) ABC \"fido2kpxc local signing\""));
    assert!(!identity_exists("0 valid identities found"));
}

#[test]
fn the_identity_is_made_in_four_calls() {
    assert_eq!(
        lines(&cert("k", "c", "p")),
        [
            "/usr/bin/openssl req -x509 -newkey rsa:2048 -nodes -days 3650 -subj /CN=fido2kpxc local signing -addext keyUsage=critical,digitalSignature -addext extendedKeyUsage=critical,codeSigning -addext basicConstraints=critical,CA:false -keyout k -out c",
            "/usr/bin/openssl pkcs12 -export -passout pass:fido2kpxc -inkey k -in c -out p",
            "/usr/bin/security import p -P fido2kpxc -T /usr/bin/codesign",
            "/usr/bin/security add-trusted-cert -p codeSign c",
        ]
    );
}

#[test]
fn the_private_key_is_removed_whatever_happens() {
    assert!(matches!(
        cert_step(CertEvent::Started { exists: true }),
        CertAction::Stop { end: CertEnd::AlreadyExists }
    ));
    assert!(matches!(
        cert_step(CertEvent::Started { exists: false }),
        CertAction::Prepare
    ));
    assert!(matches!(
        cert_step(CertEvent::Prepared { error: None }),
        CertAction::Run { call: 0 }
    ));
    assert!(matches!(
        cert_step(CertEvent::Prepared { error: Some("full".to_owned()) }),
        CertAction::Stop { end: CertEnd::Failed { .. } }
    ));
    for call in 0..3 {
        match cert_step(CertEvent::Ran { call, error: None }) {
            CertAction::Run { call: next } => assert_eq!(next, call + 1),
            other => panic!("{other:?}"),
        }
    }
    assert!(matches!(
        cert_step(CertEvent::Ran { call: 3, error: None }),
        CertAction::Clean { failure: None }
    ));
    assert!(matches!(
        cert_step(CertEvent::Ran { call: 1, error: Some("no".to_owned()) }),
        CertAction::Clean { failure: Some(_) }
    ));
    let cleaned = |failure: Option<&str>, error: Option<&str>| {
        cert_step(CertEvent::Cleaned {
            failure: failure.map(str::to_owned),
            error: error.map(str::to_owned),
        })
    };
    assert!(matches!(cleaned(None, None), CertAction::Verify));
    for (failure, error, expected) in [
        (Some("a"), None, "a"),
        (Some("a"), Some("b"), "b"),
        (None, Some("b"), "b"),
    ] {
        match cleaned(failure, error) {
            CertAction::Stop { end: CertEnd::Failed { error } } => assert_eq!(error, expected),
            other => panic!("{other:?}"),
        }
    }
    assert!(matches!(
        cert_step(CertEvent::Verified { exists: true }),
        CertAction::Stop { end: CertEnd::Created }
    ));
    match cert_step(CertEvent::Verified { exists: false }) {
        CertAction::Stop { end: CertEnd::Failed { error } } => assert_eq!(
            error,
            "fido2kpxc local signing is still not a valid code-signing identity"
        ),
        other => panic!("{other:?}"),
    }
}

#[test]
fn the_app_is_built_and_signed() {
    assert_eq!(
        line(&build_app()),
        "cargo build --release --package fido2kpxc"
    );
    assert_eq!(line(&copy_folder("a", "b")), "/usr/bin/ditto a b");
    assert_eq!(
        lines(&sign_app("A.app")),
        [
            "/usr/bin/codesign --force --options runtime --sign fido2kpxc local signing --identifier dev.fido2kpxc A.app",
            "/usr/bin/codesign --verify --strict A.app",
        ]
    );
}

#[test]
fn installers_are_built() {
    assert_eq!(installer("1.2", ".pkg"), "fido2kpxc-1.2.pkg");
    assert_eq!(
        lines(&package("A.app", "/t/pkg", "/d/x.pkg", "1.2")),
        [
            "/usr/bin/ditto A.app /t/pkg/root/fido2kpxc.app",
            "/usr/bin/pkgbuild --analyze --root /t/pkg/root /t/pkg/components.plist",
            "/usr/bin/plutil -replace 0.BundleIsRelocatable -bool NO /t/pkg/components.plist",
            "/usr/bin/pkgbuild --root /t/pkg/root --component-plist /t/pkg/components.plist --identifier dev.fido2kpxc.pkg --version 1.2 --install-location /Applications /t/pkg/fido2kpxc-core.pkg",
            "/usr/bin/productbuild --package /t/pkg/fido2kpxc-core.pkg /d/x.pkg",
        ]
    );
    assert_eq!(
        lines(&dmg("/t/dmg", "/d/x.dmg")),
        [
            "/usr/bin/hdiutil create -volname fido2kpxc -fs HFS+ -format ULMO -ov -srcfolder /t/dmg /d/x.dmg",
            "/usr/bin/codesign --force --sign fido2kpxc local signing /d/x.dmg",
        ]
    );
    assert_eq!(line(&checksums("a", "b")), "/usr/bin/shasum -a 256 a b");
    assert!(check_tag("v1.2", "1.2").is_ok());
    assert_eq!(
        check_tag("1.2", "1.2").unwrap_err(),
        "Tag 1.2 does not match version 1.2 in Cargo.toml"
    );
}

#[test]
fn a_release_passes_every_gate() {
    assert_eq!(
        lines(&release("1.2")),
        [
            "git status --porcelain",
            "git rev-parse --abbrev-ref HEAD",
            "git fetch --quiet --tags origin",
            "git rev-parse HEAD",
            "git rev-parse origin/main",
            "git tag --list v1.2",
            "cargo test --workspace --locked",
            "git tag -a v1.2 -m fido2kpxc 1.2",
            "git push origin v1.2",
        ]
    );
    let outputs = |list: &[&str]| list.iter().map(|s| s.to_string()).collect::<Vec<_>>();
    let check = |list: &[&str]| check_release(&outputs(list), "1.2");
    assert!(check(&[]).is_ok());
    assert!(check(&["\n", "main\n", "", "abc\n", "abc\n", "", "ok"]).is_ok());
    assert_eq!(
        check(&[" M src/lib.rs\n"]).unwrap_err(),
        "Commit or stash your changes first"
    );
    assert_eq!(check(&["", "dev\n"]).unwrap_err(), "Release from main");
    assert!(check(&["", "main\n", "", "abc\n"]).is_ok());
    assert_eq!(
        check(&["", "main\n", "", "abc\n", "abd\n"]).unwrap_err(),
        "main must match origin/main. Push or pull first"
    );
    assert_eq!(
        check(&["", "main\n", "", "abc\n", "abc\n", "v1.2\n"]).unwrap_err(),
        "Tag v1.2 exists. Raise version in Cargo.toml first"
    );
}

#[test]
fn icons_are_rendered_in_every_size() {
    let calls = lines(&icons("i.svg", "/s", "A.icns", "m.svg", "m.pdf"));
    assert_eq!(calls.len(), 10);
    assert_eq!(
        calls[0],
        "rsvg-convert -w 16 -h 16 i.svg -o /s/icon_16x16.png"
    );
    assert_eq!(
        calls[1],
        "rsvg-convert -w 32 -h 32 i.svg -o /s/icon_16x16@2x.png"
    );
    assert_eq!(
        calls[7],
        "rsvg-convert -w 512 -h 512 i.svg -o /s/icon_256x256@2x.png"
    );
    assert_eq!(calls[8], "/usr/bin/iconutil -c icns -o A.icns /s");
    assert_eq!(calls[9], "rsvg-convert -f pdf m.svg -o m.pdf");
}

#[test]
fn the_property_list_names_the_version_twice() {
    let text = info_plist("1.2");
    assert!(text.starts_with("<?xml version=\"1.0\" encoding=\"UTF-8\"?>\n<!DOCTYPE plist"));
    assert!(text.contains("<key>CFBundleIdentifier</key><string>dev.fido2kpxc</string>\n"));
    assert!(text.contains("<key>CFBundleShortVersionString</key><string>1.2</string>\n"));
    assert!(text.contains("<key>CFBundleVersion</key><string>1.2</string>\n"));
    assert!(text.ends_with("<key>LSUIElement</key><true/>\n</dict></plist>\n"));
}

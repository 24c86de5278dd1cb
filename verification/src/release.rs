//! Building and releasing the app: which programs run with which arguments, and what must hold first.

use vstd::prelude::*;
use vstd::string::*;

use crate::path::{join_path, joined_path};
use crate::text::{
    a_part_stands_between, contains, decimal, decimal_text, has_part, text_eq, texts, trim, trimmed,
};

verus! {

/// The self-signed code-signing identity. macOS keys the Accessibility grant to it.
pub const IDENTITY: &'static str = "fido2kpxc local signing";

/// The app's bundle ID.
pub const BUNDLE_ID: &'static str = "dev.fido2kpxc";

/// What a wrong command line is answered.
pub const XTASK_USAGE: &'static str =
    "usage: cargo xtask <cert|icon|bundle|package|dmg|installers|release>";

/// What to build.
#[derive(Debug, Clone, Copy, PartialEq, Eq, Structural)]
pub enum Task {
    Cert,
    Bundle,
    Package,
    Dmg,
    Installers,
    Release,
    Icon,
}

/// The task that a word stands for.
pub open spec fn task_of(word: Seq<char>) -> Option<Task> {
    if word == "cert"@ {
        Some(Task::Cert)
    } else if word == "bundle"@ {
        Some(Task::Bundle)
    } else if word == "package"@ {
        Some(Task::Package)
    } else if word == "dmg"@ {
        Some(Task::Dmg)
    } else if word == "installers"@ {
        Some(Task::Installers)
    } else if word == "release"@ {
        Some(Task::Release)
    } else if word == "icon"@ {
        Some(Task::Icon)
    } else {
        None
    }
}

/// The task that a word stands for.
pub fn task(word: Option<&str>) -> (task: Option<Task>)
    ensures
        task == (match word {
            Some(word) => task_of(word@),
            None => None,
        }),
{
    match word {
        None => None,
        Some(word) => if text_eq(word, "cert") {
            Some(Task::Cert)
        } else if text_eq(word, "bundle") {
            Some(Task::Bundle)
        } else if text_eq(word, "package") {
            Some(Task::Package)
        } else if text_eq(word, "dmg") {
            Some(Task::Dmg)
        } else if text_eq(word, "installers") {
            Some(Task::Installers)
        } else if text_eq(word, "release") {
            Some(Task::Release)
        } else if text_eq(word, "icon") {
            Some(Task::Icon)
        } else {
            None
        },
    }
}

/// A program and its arguments.
#[derive(Debug)]
pub struct Call {
    pub program: String,
    pub args: Vec<String>,
}

/// A [`Call`] as characters.
#[verifier::ext_equal]
pub struct CallM {
    pub program: Seq<char>,
    pub args: Seq<Seq<char>>,
}

impl View for Call {
    type V = CallM;

    open spec fn view(&self) -> CallM {
        CallM { program: self.program@, args: texts(self.args@) }
    }
}

/// Calls as characters.
pub open spec fn calls(list: Seq<Call>) -> Seq<CallM> {
    list.map_values(|c: Call| c@)
}

/// Words as characters.
pub open spec fn words(list: Seq<&str>) -> Seq<Seq<char>> {
    list.map_values(|w: &str| w@)
}

/// A program and its arguments.
fn call(program: &str, args: Vec<&str>) -> (call: Call)
    ensures
        call@ == (CallM { program: program@, args: words(args@) }),
{
    let ghost all = words(args@);
    let mut owned: Vec<String> = Vec::new();
    for i in 0..args.len()
        invariant
            all == words(args@),
            texts(owned@) =~= all.take(i as int),
    {
        let word = args[i].to_owned();
        let ghost had = texts(owned@);
        owned.push(word);
        assert(texts(owned@) =~= had.push(word@));
    }
    assert(all.take(all.len() as int) =~= all);
    Call { program: program.to_owned(), args: owned }
}

/// The call that lists the code-signing identities.
pub fn list_identities() -> (call: Call)
    ensures
        call@ == (CallM {
            program: "/usr/bin/security"@,
            args: seq!["find-identity"@, "-v"@, "-p"@, "codesigning"@],
        }),
{
    let args: Vec<&str> = vec!["find-identity", "-v", "-p", "codesigning"];
    assert(words(args@) =~= seq!["find-identity"@, "-v"@, "-p"@, "codesigning"@]);
    call("/usr/bin/security", args)
}

/// True when the identity is among those listed.
pub fn identity_exists(identities: &str) -> (yes: bool)
    ensures
        yes == has_part(identities@, IDENTITY@),
{
    contains(identities, IDENTITY)
}

/// How making the identity ended.
#[derive(Debug)]
pub enum CertEnd {
    AlreadyExists,
    Created,
    Failed { error: String },
}

/// What happened last while the identity is made.
#[derive(Debug)]
pub enum CertEvent {
    Started { exists: bool },
    /// The private folder for the keys was made, or not.
    Prepared { error: Option<String> },
    /// One of the four calls ended.
    Ran { call: usize, error: Option<String> },
    /// The folder was removed, or not, after the calls ended.
    Cleaned { failure: Option<String>, error: Option<String> },
    Verified { exists: bool },
}

/// What to do next while the identity is made.
#[derive(Debug)]
pub enum CertAction {
    Prepare,
    Run { call: usize },
    /// Remove the folder with the private key.
    Clean { failure: Option<String> },
    Verify,
    Stop { end: CertEnd },
}

/// The number of calls that make the identity.
pub const CERT_CALLS: usize = 4;

/// The action that follows an event.
pub open spec fn cert_follows(event: CertEvent, action: CertAction) -> bool {
    match event {
        CertEvent::Started { exists } => if exists {
            action == (CertAction::Stop { end: CertEnd::AlreadyExists })
        } else {
            action is Prepare
        },
        CertEvent::Prepared { error } => match error {
            Some(error) => action == (CertAction::Stop { end: CertEnd::Failed { error } }),
            None => action == (CertAction::Run { call: 0 }),
        },
        CertEvent::Ran { call, error } => if error is None && call + 1 < CERT_CALLS {
            action == (CertAction::Run { call: (call + 1) as usize })
        } else {
            action == (CertAction::Clean { failure: error })
        },
        CertEvent::Cleaned { failure, error } => match (error, failure) {
            (Some(error), _) => action == (CertAction::Stop { end: CertEnd::Failed { error } }),
            (None, Some(error)) => action == (CertAction::Stop { end: CertEnd::Failed { error } }),
            (None, None) => action is Verify,
        },
        CertEvent::Verified { exists } => if exists {
            action == (CertAction::Stop { end: CertEnd::Created })
        } else {
            action matches CertAction::Stop { end: CertEnd::Failed { error } } && error@
                == IDENTITY@ + " is still not a valid code-signing identity"@
        },
    }
}

/// Decides what to do next while the identity is made.
pub fn cert_step(event: CertEvent) -> (action: CertAction)
    ensures
        cert_follows(event, action),
{
    match event {
        CertEvent::Started { exists } => if exists {
            CertAction::Stop { end: CertEnd::AlreadyExists }
        } else {
            CertAction::Prepare
        },
        CertEvent::Prepared { error } => match error {
            Some(error) => CertAction::Stop { end: CertEnd::Failed { error } },
            None => CertAction::Run { call: 0 },
        },
        CertEvent::Ran { call, error } => {
            if error.is_none() && call < CERT_CALLS - 1 {
                CertAction::Run { call: call + 1 }
            } else {
                CertAction::Clean { failure: error }
            }
        },
        CertEvent::Cleaned { failure, error } => match error {
            Some(error) => CertAction::Stop { end: CertEnd::Failed { error } },
            None => match failure {
                Some(error) => CertAction::Stop { end: CertEnd::Failed { error } },
                None => CertAction::Verify,
            },
        },
        CertEvent::Verified { exists } => if exists {
            CertAction::Stop { end: CertEnd::Created }
        } else {
            let mut error = IDENTITY.to_owned();
            error.append(" is still not a valid code-signing identity");
            CertAction::Stop { end: CertEnd::Failed { error } }
        },
    }
}

/// Once a call ran, nothing stops before the folder with the private key is removed.
pub proof fn the_private_key_is_always_removed(
    call: usize,
    error: Option<String>,
    action: CertAction,
)
    requires
        cert_follows(CertEvent::Ran { call, error }, action),
    ensures
        !(action is Stop),
        !(action is Verify),
        error is Some ==> action is Clean,
{
}

/// The calls that make the identity, in a folder that holds `key`, `cert`, and `p12`.
pub open spec fn cert_calls(key: Seq<char>, cert: Seq<char>, p12: Seq<char>) -> Seq<CallM> {
    seq![
        CallM {
            program: "/usr/bin/openssl"@,
            args: seq![
                "req"@,
                "-x509"@,
                "-newkey"@,
                "rsa:2048"@,
                "-nodes"@,
                "-days"@,
                "3650"@,
                "-subj"@,
                "/CN="@ + IDENTITY@,
                "-addext"@,
                "keyUsage=critical,digitalSignature"@,
                "-addext"@,
                "extendedKeyUsage=critical,codeSigning"@,
                "-addext"@,
                "basicConstraints=critical,CA:false"@,
                "-keyout"@,
                key,
                "-out"@,
                cert,
            ],
        },
        CallM {
            program: "/usr/bin/openssl"@,
            args: seq![
                "pkcs12"@,
                "-export"@,
                "-passout"@,
                "pass:fido2kpxc"@,
                "-inkey"@,
                key,
                "-in"@,
                cert,
                "-out"@,
                p12,
            ],
        },
        CallM {
            program: "/usr/bin/security"@,
            args: seq!["import"@, p12, "-P"@, "fido2kpxc"@, "-T"@, "/usr/bin/codesign"@],
        },
        CallM {
            program: "/usr/bin/security"@,
            args: seq!["add-trusted-cert"@, "-p"@, "codeSign"@, cert],
        },
    ]
}

/// The calls that make the identity.
pub fn cert(key: &str, certificate: &str, p12: &str) -> (list: Vec<Call>)
    ensures
        calls(list@) == cert_calls(key@, certificate@, p12@),
{
    let mut subject = "/CN=".to_owned();
    subject.append(IDENTITY);
    let mut list: Vec<Call> = Vec::new();
    let make: Vec<&str> = vec![
        "req",
        "-x509",
        "-newkey",
        "rsa:2048",
        "-nodes",
        "-days",
        "3650",
        "-subj",
        subject.as_str(),
        "-addext",
        "keyUsage=critical,digitalSignature",
        "-addext",
        "extendedKeyUsage=critical,codeSigning",
        "-addext",
        "basicConstraints=critical,CA:false",
        "-keyout",
        key,
        "-out",
        certificate,
    ];
    assert(words(make@) =~= cert_calls(key@, certificate@, p12@)[0].args);
    list.push(call("/usr/bin/openssl", make));
    let pack: Vec<&str> = vec![
        "pkcs12",
        "-export",
        "-passout",
        "pass:fido2kpxc",
        "-inkey",
        key,
        "-in",
        certificate,
        "-out",
        p12,
    ];
    assert(words(pack@) =~= cert_calls(key@, certificate@, p12@)[1].args);
    list.push(call("/usr/bin/openssl", pack));
    let import: Vec<&str> = vec!["import", p12, "-P", "fido2kpxc", "-T", "/usr/bin/codesign"];
    assert(words(import@) =~= cert_calls(key@, certificate@, p12@)[2].args);
    list.push(call("/usr/bin/security", import));
    let trust: Vec<&str> = vec!["add-trusted-cert", "-p", "codeSign", certificate];
    assert(words(trust@) =~= cert_calls(key@, certificate@, p12@)[3].args);
    list.push(call("/usr/bin/security", trust));
    assert(calls(list@) =~= cert_calls(key@, certificate@, p12@));
    list
}

/// The calls that sign the app and verify the signature. The hardened runtime blocks code injection
/// and debugger attach, which would inherit the Accessibility grant.
pub fn sign_app(app: &str) -> (list: Vec<Call>)
    ensures
        calls(list@) == seq![
            CallM {
                program: "/usr/bin/codesign"@,
                args: seq![
                    "--force"@,
                    "--options"@,
                    "runtime"@,
                    "--sign"@,
                    IDENTITY@,
                    "--identifier"@,
                    BUNDLE_ID@,
                    app@,
                ],
            },
            CallM {
                program: "/usr/bin/codesign"@,
                args: seq!["--verify"@, "--strict"@, app@],
            },
        ],
{
    let sign: Vec<&str> = vec![
        "--force",
        "--options",
        "runtime",
        "--sign",
        IDENTITY,
        "--identifier",
        BUNDLE_ID,
        app,
    ];
    let ghost sign_words = seq![
        "--force"@,
        "--options"@,
        "runtime"@,
        "--sign"@,
        IDENTITY@,
        "--identifier"@,
        BUNDLE_ID@,
        app@,
    ];
    assert(words(sign@) =~= sign_words);
    let verify: Vec<&str> = vec!["--verify", "--strict", app];
    assert(words(verify@) =~= seq!["--verify"@, "--strict"@, app@]);
    let mut list: Vec<Call> = Vec::new();
    list.push(call("/usr/bin/codesign", sign));
    list.push(call("/usr/bin/codesign", verify));
    assert(calls(list@) =~= seq![
        CallM { program: "/usr/bin/codesign"@, args: sign_words },
        CallM {
            program: "/usr/bin/codesign"@,
            args: seq!["--verify"@, "--strict"@, app@],
        },
    ]);
    list
}

/// The file name of an installer.
pub open spec fn installer_name(version: Seq<char>, kind: Seq<char>) -> Seq<char> {
    "fido2kpxc-"@ + version + kind
}

/// The file name of an installer.
pub fn installer(version: &str, kind: &str) -> (name: String)
    ensures
        name@ == installer_name(version@, kind@),
{
    let mut name = "fido2kpxc-".to_owned();
    name.append(version);
    name.append(kind);
    name
}

/// The calls that build the installer package from an app, in a staging folder.
pub open spec fn package_calls(
    app: Seq<char>,
    stage: Seq<char>,
    pkg: Seq<char>,
    version: Seq<char>,
) -> Seq<CallM> {
    let root = joined_path(stage, "root"@);
    let components = joined_path(stage, "components.plist"@);
    let core = joined_path(stage, "fido2kpxc-core.pkg"@);
    seq![
        CallM {
            program: "/usr/bin/ditto"@,
            args: seq![app, joined_path(stage, "root/fido2kpxc.app"@)],
        },
        CallM {
            program: "/usr/bin/pkgbuild"@,
            args: seq!["--analyze"@, "--root"@, root, components],
        },
        CallM {
            program: "/usr/bin/plutil"@,
            args: seq!["-replace"@, "0.BundleIsRelocatable"@, "-bool"@, "NO"@, components],
        },
        CallM {
            program: "/usr/bin/pkgbuild"@,
            args: seq![
                "--root"@,
                root,
                "--component-plist"@,
                components,
                "--identifier"@,
                "dev.fido2kpxc.pkg"@,
                "--version"@,
                version,
                "--install-location"@,
                "/Applications"@,
                core,
            ],
        },
        CallM { program: "/usr/bin/productbuild"@, args: seq!["--package"@, core, pkg] },
    ]
}

/// The calls that build the installer package. Without the relocation setting, Installer moves the
/// update to any other copy with this bundle ID.
pub fn package(app: &str, stage: &str, pkg: &str, version: &str) -> (list: Vec<Call>)
    ensures
        calls(list@) == package_calls(app@, stage@, pkg@, version@),
{
    let root = join_path(stage, "root");
    let staged = join_path(stage, "root/fido2kpxc.app");
    let components = join_path(stage, "components.plist");
    let core = join_path(stage, "fido2kpxc-core.pkg");
    let ghost goal = package_calls(app@, stage@, pkg@, version@);
    let mut list: Vec<Call> = Vec::new();
    let copy: Vec<&str> = vec![app, staged.as_str()];
    assert(words(copy@) =~= goal[0].args);
    list.push(call("/usr/bin/ditto", copy));
    let analyze: Vec<&str> = vec!["--analyze", "--root", root.as_str(), components.as_str()];
    assert(words(analyze@) =~= goal[1].args);
    list.push(call("/usr/bin/pkgbuild", analyze));
    let fix: Vec<&str> = vec![
        "-replace",
        "0.BundleIsRelocatable",
        "-bool",
        "NO",
        components.as_str(),
    ];
    assert(words(fix@) =~= goal[2].args);
    list.push(call("/usr/bin/plutil", fix));
    let build: Vec<&str> = vec![
        "--root",
        root.as_str(),
        "--component-plist",
        components.as_str(),
        "--identifier",
        "dev.fido2kpxc.pkg",
        "--version",
        version,
        "--install-location",
        "/Applications",
        core.as_str(),
    ];
    assert(words(build@) =~= goal[3].args);
    list.push(call("/usr/bin/pkgbuild", build));
    let product: Vec<&str> = vec!["--package", core.as_str(), pkg];
    assert(words(product@) =~= goal[4].args);
    list.push(call("/usr/bin/productbuild", product));
    assert(calls(list@) =~= goal);
    list
}

/// The calls that build and sign the disk image, around the removal of the staging folder.
pub open spec fn dmg_calls(stage: Seq<char>, dmg: Seq<char>) -> Seq<CallM> {
    seq![
        CallM {
            program: "/usr/bin/hdiutil"@,
            args: seq![
                "create"@,
                "-volname"@,
                "fido2kpxc"@,
                "-fs"@,
                "HFS+"@,
                "-format"@,
                "ULMO"@,
                "-ov"@,
                "-srcfolder"@,
                stage,
                dmg,
            ],
        },
        CallM {
            program: "/usr/bin/codesign"@,
            args: seq!["--force"@, "--sign"@, IDENTITY@, dmg],
        },
    ]
}

/// The calls that build and sign the disk image. LZMA on HFS+ is less than half the size of zlib on
/// APFS. LZMA images need macOS 10.15 or later.
pub fn dmg(stage: &str, image: &str) -> (list: Vec<Call>)
    ensures
        calls(list@) == dmg_calls(stage@, image@),
{
    let ghost goal = dmg_calls(stage@, image@);
    let mut list: Vec<Call> = Vec::new();
    let create: Vec<&str> = vec![
        "create",
        "-volname",
        "fido2kpxc",
        "-fs",
        "HFS+",
        "-format",
        "ULMO",
        "-ov",
        "-srcfolder",
        stage,
        image,
    ];
    assert(words(create@) =~= goal[0].args);
    list.push(call("/usr/bin/hdiutil", create));
    let sign: Vec<&str> = vec!["--force", "--sign", IDENTITY, image];
    assert(words(sign@) =~= goal[1].args);
    list.push(call("/usr/bin/codesign", sign));
    assert(calls(list@) =~= goal);
    list
}

/// The tag of a version.
pub open spec fn tag_of(version: Seq<char>) -> Seq<char> {
    "v"@ + version
}

/// The tag of a version.
pub fn tag(version: &str) -> (tag: String)
    ensures
        tag@ == tag_of(version@),
{
    let mut tag = "v".to_owned();
    tag.append(version);
    tag
}

/// Refuses a tag that does not match the version.
pub fn check_tag(given: &str, version: &str) -> (r: Result<(), String>)
    ensures
        r is Ok <==> given@ == tag_of(version@),
        r matches Err(error) ==> error@ == "Tag "@ + given@ + " does not match version "@
            + version@ + " in Cargo.toml"@,
{
    if text_eq(given, tag(version).as_str()) {
        return Ok(());
    }
    let mut error = "Tag ".to_owned();
    error.append(given);
    error.append(" does not match version ");
    error.append(version);
    error.append(" in Cargo.toml");
    Err(error)
}

/// The calls of a release, in order. What git says decides whether the next one runs.
pub open spec fn release_calls(version: Seq<char>) -> Seq<CallM> {
    let tag = tag_of(version);
    seq![
        CallM { program: "git"@, args: seq!["status"@, "--porcelain"@] },
        CallM { program: "git"@, args: seq!["rev-parse"@, "--abbrev-ref"@, "HEAD"@] },
        CallM { program: "git"@, args: seq!["fetch"@, "--quiet"@, "--tags"@, "origin"@] },
        CallM { program: "git"@, args: seq!["rev-parse"@, "HEAD"@] },
        CallM { program: "git"@, args: seq!["rev-parse"@, "origin/main"@] },
        CallM { program: "git"@, args: seq!["tag"@, "--list"@, tag] },
        CallM { program: "cargo"@, args: seq!["test"@, "--workspace"@, "--locked"@] },
        CallM {
            program: "git"@,
            args: seq!["tag"@, "-a"@, tag, "-m"@, "fido2kpxc "@ + version],
        },
        CallM { program: "git"@, args: seq!["push"@, "origin"@, tag] },
    ]
}

/// The calls of a release, in order.
pub fn release(version: &str) -> (list: Vec<Call>)
    ensures
        calls(list@) == release_calls(version@),
{
    let ghost goal = release_calls(version@);
    let tag = tag(version);
    let mut title = "fido2kpxc ".to_owned();
    title.append(version);
    let mut list: Vec<Call> = Vec::new();
    let status: Vec<&str> = vec!["status", "--porcelain"];
    assert(words(status@) =~= goal[0].args);
    list.push(call("git", status));
    let branch: Vec<&str> = vec!["rev-parse", "--abbrev-ref", "HEAD"];
    assert(words(branch@) =~= goal[1].args);
    list.push(call("git", branch));
    let fetch: Vec<&str> = vec!["fetch", "--quiet", "--tags", "origin"];
    assert(words(fetch@) =~= goal[2].args);
    list.push(call("git", fetch));
    let local: Vec<&str> = vec!["rev-parse", "HEAD"];
    assert(words(local@) =~= goal[3].args);
    list.push(call("git", local));
    let remote: Vec<&str> = vec!["rev-parse", "origin/main"];
    assert(words(remote@) =~= goal[4].args);
    list.push(call("git", remote));
    let tags: Vec<&str> = vec!["tag", "--list", tag.as_str()];
    assert(words(tags@) =~= goal[5].args);
    list.push(call("git", tags));
    let test: Vec<&str> = vec!["test", "--workspace", "--locked"];
    assert(words(test@) =~= goal[6].args);
    list.push(call("cargo", test));
    let mark: Vec<&str> = vec!["tag", "-a", tag.as_str(), "-m", title.as_str()];
    assert(words(mark@) =~= goal[7].args);
    list.push(call("git", mark));
    let push: Vec<&str> = vec!["push", "origin", tag.as_str()];
    assert(words(push@) =~= goal[8].args);
    list.push(call("git", push));
    assert(calls(list@) =~= goal);
    list
}

/// Why a release stops after the calls that printed `outputs`, if it does: something is left to
/// commit, the branch is not main, main is not what was pushed, or the tag exists.
pub open spec fn release_fault(outputs: Seq<Seq<char>>, version: Seq<char>) -> Option<Seq<char>> {
    if outputs.len() > 0 && trimmed(outputs[0]).len() > 0 {
        Some("Commit or stash your changes first"@)
    } else if outputs.len() > 1 && trimmed(outputs[1]) != "main"@ {
        Some("Release from main"@)
    } else if outputs.len() > 4 && outputs[3] != outputs[4] {
        Some("main must match origin/main. Push or pull first"@)
    } else if outputs.len() > 5 && trimmed(outputs[5]).len() > 0 {
        Some("Tag "@ + tag_of(version) + " exists. Raise version in Cargo.toml first"@)
    } else {
        None
    }
}

/// True for a text of nothing but space.
fn is_blank(text: &str) -> (yes: bool)
    ensures
        yes == (trimmed(text@).len() == 0),
{
    let rest = trim(text);
    let empty = text_eq(rest.as_str(), "");
    proof {
        reveal_strlit("");
        if rest@.len() == 0 {
            assert(rest@ =~= ""@);
        }
    }
    empty
}

/// Decides whether a release goes on after the calls that printed `outputs`.
pub fn check_release(outputs: &[String], version: &str) -> (r: Result<(), String>)
    ensures
        r is Ok <==> release_fault(texts(outputs@), version@) is None,
        r matches Err(error) ==> release_fault(texts(outputs@), version@) == Some(error@),
{
    let ghost printed = texts(outputs@);
    assert(forall|i: int| 0 <= i < outputs@.len() ==> printed[i] == (#[trigger] outputs@[i])@);
    if outputs.len() > 0 && !is_blank(outputs[0].as_str()) {
        return Err("Commit or stash your changes first".to_owned());
    }
    if outputs.len() > 1 && !text_eq(trim(outputs[1].as_str()).as_str(), "main") {
        return Err("Release from main".to_owned());
    }
    if outputs.len() > 4 && !text_eq(outputs[3].as_str(), outputs[4].as_str()) {
        return Err("main must match origin/main. Push or pull first".to_owned());
    }
    if outputs.len() > 5 && !is_blank(outputs[5].as_str()) {
        let mut error = "Tag ".to_owned();
        error.append(tag(version).as_str());
        error.append(" exists. Raise version in Cargo.toml first");
        return Err(error);
    }
    Ok(())
}

/// The tag is made and pushed only from a clean main that matches origin/main, and only if it is new.
pub proof fn only_a_clean_pushed_main_is_released(outputs: Seq<Seq<char>>, version: Seq<char>)
    requires
        outputs.len() >= 7,
        release_fault(outputs, version) is None,
    ensures
        trimmed(outputs[0]).len() == 0,
        trimmed(outputs[1]) == "main"@,
        outputs[3] == outputs[4],
        trimmed(outputs[5]).len() == 0,
{
}

/// What a bundle needs first.
pub const NEEDS_CERT: &'static str = "Run `cargo xtask cert` first";

/// The call that builds the app's executable.
pub fn build_app() -> (built: Call)
    ensures
        built@ == (CallM {
            program: "cargo"@,
            args: seq!["build"@, "--release"@, "--package"@, "fido2kpxc"@],
        }),
{
    let args: Vec<&str> = vec!["build", "--release", "--package", "fido2kpxc"];
    assert(words(args@) =~= seq!["build"@, "--release"@, "--package"@, "fido2kpxc"@]);
    call("cargo", args)
}

/// The call that copies a folder with everything in it.
pub fn copy_folder(from: &str, to: &str) -> (copied: Call)
    ensures
        copied@ == (CallM { program: "/usr/bin/ditto"@, args: seq![from@, to@] }),
{
    let args: Vec<&str> = vec![from, to];
    assert(words(args@) =~= seq![from@, to@]);
    call("/usr/bin/ditto", args)
}

/// The call that prints the checksums of files.
pub fn checksums(package: &str, image: &str) -> (sums: Call)
    ensures
        sums@ == (CallM {
            program: "/usr/bin/shasum"@,
            args: seq!["-a"@, "256"@, package@, image@],
        }),
{
    let args: Vec<&str> = vec!["-a", "256", package, image];
    assert(words(args@) =~= seq!["-a"@, "256"@, package@, image@]);
    call("/usr/bin/shasum", args)
}

/// The file name of an icon, and its size in pixels.
pub open spec fn icon_model(size: nat, scale: nat) -> (Seq<char>, Seq<char>) {
    (
        "icon_"@ + decimal_text(size) + "x"@ + decimal_text(size) + (if scale == 2 {
            "@2x"@
        } else {
            ""@
        }) + ".png"@,
        decimal_text(size * scale),
    )
}

/// The file name of an icon, and its size in pixels.
pub fn icon_file(size: u64, scale: u64) -> (icon: (String, String))
    requires
        size <= 0xffff,
        scale <= 2,
    ensures
        (icon.0@, icon.1@) == icon_model(size as nat, scale as nat),
{
    let mut name = "icon_".to_owned();
    name.append(decimal(size).as_str());
    name.append("x");
    name.append(decimal(size).as_str());
    name.append(if scale == 2 {
        "@2x"
    } else {
        ""
    });
    name.append(".png");
    assert(size * scale <= 0xffff * 2) by (nonlinear_arith)
        requires
            size <= 0xffff,
            scale <= 2,
    ;
    (name, decimal(size * scale))
}

/// The sizes of the icons. 512 point sizes only serve huge Finder previews and would double the file
/// size.
pub const ICON_SIZES: [u64; 4] = [16, 32, 128, 256];

/// The call that renders one icon.
pub open spec fn icon_call(svg: Seq<char>, set: Seq<char>, size: nat, scale: nat) -> CallM {
    let (name, pixels) = icon_model(size, scale);
    CallM {
        program: "rsvg-convert"@,
        args: seq!["-w"@, pixels, "-h"@, pixels, svg, "-o"@, joined_path(set, name)],
    }
}

/// The call that renders one icon into a folder.
pub fn render_icon(svg: &str, set: &str, size: u64, scale: u64) -> (rendered: Call)
    requires
        size <= 0xffff,
        scale <= 2,
    ensures
        rendered@ == icon_call(svg@, set@, size as nat, scale as nat),
{
    let (name, pixels) = icon_file(size, scale);
    let out = join_path(set, name.as_str());
    let args: Vec<&str> = vec![
        "-w",
        pixels.as_str(),
        "-h",
        pixels.as_str(),
        svg,
        "-o",
        out.as_str(),
    ];
    assert(words(args@) =~= icon_call(svg@, set@, size as nat, scale as nat).args);
    call("rsvg-convert", args)
}

/// The calls that render the icons, pack them, and render the menu-bar icon.
pub open spec fn icon_calls(
    svg: Seq<char>,
    set: Seq<char>,
    icns: Seq<char>,
    menu_svg: Seq<char>,
    menu_pdf: Seq<char>,
) -> Seq<CallM> {
    Seq::new(
        8,
        |k: int| icon_call(svg, set, ICON_SIZES@[k / 2] as nat, (k % 2 + 1) as nat),
    ) + seq![
        CallM { program: "/usr/bin/iconutil"@, args: seq!["-c"@, "icns"@, "-o"@, icns, set] },
        CallM { program: "rsvg-convert"@, args: seq!["-f"@, "pdf"@, menu_svg, "-o"@, menu_pdf] },
    ]
}

/// The calls that render the icons, pack them, and render the menu-bar icon.
pub fn icons(svg: &str, set: &str, icns: &str, menu_svg: &str, menu_pdf: &str) -> (list: Vec<Call>)
    ensures
        calls(list@) == icon_calls(svg@, set@, icns@, menu_svg@, menu_pdf@),
{
    let ghost goal = icon_calls(svg@, set@, icns@, menu_svg@, menu_pdf@);
    let mut list: Vec<Call> = Vec::new();
    assert(calls(list@) =~= goal.take(0));
    for i in 0..4usize
        invariant
            goal == icon_calls(svg@, set@, icns@, menu_svg@, menu_pdf@),
            calls(list@) =~= goal.take(2 * i),
    {
        let size: u64 = ICON_SIZES[i];
        assert(size <= 0xffff);
        let ghost had = calls(list@);
        let small = render_icon(svg, set, size, 1);
        let large = render_icon(svg, set, size, 2);
        let ghost pair = seq![small@, large@];
        list.push(small);
        list.push(large);
        assert(calls(list@) =~= had + pair);
        assert(2 * i / 2 == i && 2 * i % 2 == 0 && (2 * i + 1) / 2 == i && (2 * i + 1) % 2 == 1);
        assert(goal[2 * i] == pair[0]);
        assert(goal[2 * i + 1] == pair[1]);
    }
    let ghost eight = calls(list@);
    assert(eight =~= goal.take(8));
    let pack: Vec<&str> = vec!["-c", "icns", "-o", icns, set];
    assert(words(pack@) =~= goal[8].args);
    let packed = call("/usr/bin/iconutil", pack);
    assert(packed@ == goal[8]);
    list.push(packed);
    let menu: Vec<&str> = vec!["-f", "pdf", menu_svg, "-o", menu_pdf];
    assert(words(menu@) =~= goal[9].args);
    let drawn = call("rsvg-convert", menu);
    assert(drawn@ == goal[9]);
    list.push(drawn);
    assert(calls(list@) =~= eight.push(goal[8]).push(goal[9]));
    assert(calls(list@) =~= goal);
    list
}

/// The app's property list.
pub open spec fn plist(version: Seq<char>) -> Seq<char> {
    PLIST_HEAD@ + BUNDLE_ID@ + PLIST_NAMES@ + version + PLIST_VERSION@ + version + PLIST_TAIL@
}

/// The property list up to the bundle ID.
pub const PLIST_HEAD: &'static str = "<?xml version=\"1.0\" encoding=\"UTF-8\"?>
<!DOCTYPE plist PUBLIC \"-//Apple//DTD PLIST 1.0//EN\" \"http://www.apple.com/DTDs/PropertyList-1.0.dtd\">
<plist version=\"1.0\"><dict>
<key>CFBundleIdentifier</key><string>";

/// The property list from the bundle ID to the short version.
pub const PLIST_NAMES: &'static str = "</string>
<key>CFBundleName</key><string>fido2kpxc</string>
<key>CFBundleExecutable</key><string>fido2kpxc</string>
<key>CFBundlePackageType</key><string>APPL</string>
<key>CFBundleShortVersionString</key><string>";

/// The property list from the short version to the version.
pub const PLIST_VERSION: &'static str = "</string>
<key>CFBundleVersion</key><string>";

/// The property list from the version on.
pub const PLIST_TAIL: &'static str = "</string>
<key>LSMinimumSystemVersion</key><string>13.0</string>
<key>CFBundleIconFile</key><string>AppIcon</string>
<key>LSUIElement</key><true/>
</dict></plist>
";

/// The app's property list.
pub fn info_plist(version: &str) -> (text: String)
    ensures
        text@ == plist(version@),
{
    let mut text = PLIST_HEAD.to_owned();
    text.append(BUNDLE_ID);
    text.append(PLIST_NAMES);
    text.append(version);
    text.append(PLIST_VERSION);
    text.append(version);
    text.append(PLIST_TAIL);
    text
}

/// Each task has its own word, and no other word stands for one.
pub proof fn every_task_has_its_word(word: Seq<char>)
    ensures
        task_of("cert"@) == Some(Task::Cert),
        task_of("bundle"@) == Some(Task::Bundle),
        task_of("package"@) == Some(Task::Package),
        task_of("dmg"@) == Some(Task::Dmg),
        task_of("installers"@) == Some(Task::Installers),
        task_of("release"@) == Some(Task::Release),
        task_of("icon"@) == Some(Task::Icon),
        task_of(word) is Some ==> word == "cert"@ || word == "bundle"@ || word == "package"@ || word
            == "dmg"@ || word == "installers"@ || word == "release"@ || word == "icon"@,
{
    reveal_strlit("cert");
    reveal_strlit("bundle");
    reveal_strlit("package");
    reveal_strlit("dmg");
    reveal_strlit("installers");
    reveal_strlit("release");
    reveal_strlit("icon");
    assert("cert"@.len() == 4 && "cert"@[0] == 'c');
    assert("bundle"@.len() == 6);
    assert("package"@.len() == 7 && "package"@[0] == 'p');
    assert("dmg"@.len() == 3);
    assert("installers"@.len() == 10);
    assert("release"@.len() == 7 && "release"@[0] == 'r');
    assert("icon"@.len() == 4 && "icon"@[0] == 'i');
}

/// Making the identity runs all four calls in order, removes the private key, and looks again. Any error
/// on the way is the one that is told, and the removal's own error first.
pub proof fn an_identity_is_made_in_order(
    call: usize,
    error: String,
    failure: Option<String>,
    action: CertAction,
)
    ensures
        cert_follows(CertEvent::Started { exists: true }, action) ==> action == (CertAction::Stop {
            end: CertEnd::AlreadyExists,
        }),
        cert_follows(CertEvent::Started { exists: false }, action) ==> action is Prepare,
        cert_follows(CertEvent::Prepared { error: None }, action) ==> action == (CertAction::Run {
            call: 0,
        }),
        cert_follows(CertEvent::Prepared { error: Some(error) }, action) ==> action == (
        CertAction::Stop { end: CertEnd::Failed { error } }),
        call < 3 && cert_follows(CertEvent::Ran { call, error: None }, action) ==> action == (
        CertAction::Run { call: (call + 1) as usize }),
        cert_follows(CertEvent::Ran { call: 3, error: None }, action) ==> action == (
        CertAction::Clean { failure: None }),
        cert_follows(CertEvent::Ran { call, error: Some(error) }, action) ==> action == (
        CertAction::Clean { failure: Some(error) }),
        cert_follows(CertEvent::Cleaned { failure: None, error: None }, action)
            ==> action is Verify,
        cert_follows(CertEvent::Cleaned { failure: Some(error), error: None }, action) ==> action
            == (CertAction::Stop { end: CertEnd::Failed { error } }),
        cert_follows(CertEvent::Cleaned { failure, error: Some(error) }, action) ==> action == (
        CertAction::Stop { end: CertEnd::Failed { error } }),
        cert_follows(CertEvent::Verified { exists: true }, action) ==> action == (
        CertAction::Stop { end: CertEnd::Created }),
        cert_follows(CertEvent::Verified { exists: false }, action) ==> (action
            matches CertAction::Stop { end: CertEnd::Failed { error: told } } && told@
            == "fido2kpxc local signing"@ + " is still not a valid code-signing identity"@),
{
}

/// `value` follows `option` among the arguments.
pub open spec fn has_option(args: Seq<Seq<char>>, option: Seq<char>, value: Seq<char>) -> bool {
    exists|i: int|
        0 <= i < args.len() - 1 && #[trigger] args[i] == option && args[i + 1] == value
}

/// The identity's key and certificate are made first, then packed together, and the pack is imported
/// for code signing before the certificate is trusted for it.
pub proof fn an_identity_is_made_from_its_own_key(
    key: Seq<char>,
    cert: Seq<char>,
    p12: Seq<char>,
)
    ensures
        ({
            let made = cert_calls(key, cert, p12);
            &&& made.len() == 4
            &&& made[0].program == "/usr/bin/openssl"@ && made[0].args[0] == "req"@
            &&& has_option(made[0].args, "-keyout"@, key)
            &&& has_option(made[0].args, "-out"@, cert)
            &&& has_option(made[0].args, "-subj"@, "/CN="@ + "fido2kpxc local signing"@)
            &&& has_option(made[0].args, "-addext"@, "extendedKeyUsage=critical,codeSigning"@)
            &&& made[1].program == "/usr/bin/openssl"@ && made[1].args[0] == "pkcs12"@
            &&& has_option(made[1].args, "-inkey"@, key)
            &&& has_option(made[1].args, "-in"@, cert)
            &&& has_option(made[1].args, "-out"@, p12)
            &&& made[2].program == "/usr/bin/security"@
            &&& has_option(made[2].args, "import"@, p12)
            &&& has_option(made[2].args, "-T"@, "/usr/bin/codesign"@)
            &&& has_option(made[1].args, "-passout"@, "pass:"@ + "fido2kpxc"@)
            &&& has_option(made[2].args, "-P"@, "fido2kpxc"@)
            &&& made[3].program == "/usr/bin/security"@ && made[3].args[0] == "add-trusted-cert"@
            &&& has_option(made[3].args, "-p"@, "codeSign"@)
            &&& made[3].args.last() == cert
        }),
{
    let made = cert_calls(key, cert, p12);
    reveal_strlit("pass:");
    reveal_strlit("fido2kpxc");
    reveal_strlit("pass:fido2kpxc");
    assert("pass:fido2kpxc"@ =~= "pass:"@ + "fido2kpxc"@);
    assert(made[0].args[7] == "-subj"@);
    assert(made[0].args[11] == "-addext"@);
    assert(made[0].args[15] == "-keyout"@);
    assert(made[0].args[17] == "-out"@);
    assert(made[1].args[2] == "-passout"@);
    assert(made[1].args[4] == "-inkey"@);
    assert(made[1].args[6] == "-in"@);
    assert(made[1].args[8] == "-out"@);
    assert(made[2].args[0] == "import"@);
    assert(made[2].args[2] == "-P"@);
    assert(made[2].args[4] == "-T"@);
    assert(made[3].args[1] == "-p"@);
}

/// The package is built from the very app that was staged, with this version, for the applications
/// folder, and its app stays where it is installed.
pub proof fn a_package_holds_the_staged_app(
    app: Seq<char>,
    stage: Seq<char>,
    pkg: Seq<char>,
    version: Seq<char>,
)
    requires
        stage.len() > 0,
        stage.last() != '/',
    ensures
        ({
            let made = package_calls(app, stage, pkg, version);
            let root = stage + "/root"@;
            let components = stage + "/components.plist"@;
            let core = stage + "/fido2kpxc-core.pkg"@;
            &&& made.len() == 5
            &&& made[0] == (CallM {
                program: "/usr/bin/ditto"@,
                args: seq![app, root + "/fido2kpxc.app"@],
            })
            &&& made[1].program == "/usr/bin/pkgbuild"@
            &&& has_option(made[1].args, "--root"@, root)
            &&& made[1].args.last() == components
            &&& made[2].program == "/usr/bin/plutil"@
            &&& has_option(made[2].args, "-replace"@, "0.BundleIsRelocatable"@)
            &&& has_option(made[2].args, "-bool"@, "NO"@)
            &&& made[2].args.last() == components
            &&& made[3].program == "/usr/bin/pkgbuild"@
            &&& has_option(made[3].args, "--root"@, root)
            &&& has_option(made[3].args, "--component-plist"@, components)
            &&& has_option(made[3].args, "--identifier"@, "dev.fido2kpxc.pkg"@)
            &&& has_option(made[3].args, "--version"@, version)
            &&& has_option(made[3].args, "--install-location"@, "/Applications"@)
            &&& made[3].args.last() == core
            &&& made[4] == (CallM {
                program: "/usr/bin/productbuild"@,
                args: seq!["--package"@, core, pkg],
            })
        }),
{
    reveal_strlit("root");
    reveal_strlit("/root");
    reveal_strlit("root/fido2kpxc.app");
    reveal_strlit("/fido2kpxc.app");
    reveal_strlit("components.plist");
    reveal_strlit("/components.plist");
    reveal_strlit("fido2kpxc-core.pkg");
    reveal_strlit("/fido2kpxc-core.pkg");
    assert("root"@[0] == 'r');
    assert("root/fido2kpxc.app"@[0] == 'r');
    assert("components.plist"@[0] == 'c');
    assert("fido2kpxc-core.pkg"@[0] == 'f');
    assert(joined_path(stage, "root"@) =~= stage + "/root"@);
    assert(joined_path(stage, "root/fido2kpxc.app"@) =~= stage + "/root"@ + "/fido2kpxc.app"@);
    assert(joined_path(stage, "components.plist"@) =~= stage + "/components.plist"@);
    assert(joined_path(stage, "fido2kpxc-core.pkg"@) =~= stage + "/fido2kpxc-core.pkg"@);
    let made = package_calls(app, stage, pkg, version);
    assert(made[1].args[1] == "--root"@);
    assert(made[2].args[0] == "-replace"@);
    assert(made[2].args[2] == "-bool"@);
    assert(made[3].args[0] == "--root"@);
    assert(made[3].args[2] == "--component-plist"@);
    assert(made[3].args[4] == "--identifier"@);
    assert(made[3].args[6] == "--version"@);
    assert(made[3].args[8] == "--install-location"@);
}

/// The disk image is made from the staging folder, and the image itself is signed.
pub proof fn a_disk_image_holds_the_stage(stage: Seq<char>, dmg: Seq<char>)
    ensures
        ({
            let made = dmg_calls(stage, dmg);
            &&& made.len() == 2
            &&& made[0].program == "/usr/bin/hdiutil"@ && made[0].args[0] == "create"@
            &&& has_option(made[0].args, "-volname"@, "fido2kpxc"@)
            &&& has_option(made[0].args, "-fs"@, "HFS+"@)
            &&& has_option(made[0].args, "-format"@, "ULMO"@)
            &&& has_option(made[0].args, "-srcfolder"@, stage)
            &&& made[0].args.last() == dmg
            &&& made[1].program == "/usr/bin/codesign"@
            &&& has_option(made[1].args, "--sign"@, "fido2kpxc local signing"@)
            &&& made[1].args.last() == dmg
        }),
{
    let made = dmg_calls(stage, dmg);
    assert(made[0].args[1] == "-volname"@);
    assert(made[0].args[3] == "-fs"@);
    assert(made[0].args[5] == "-format"@);
    assert(made[0].args[8] == "-srcfolder"@);
    assert(made[1].args[1] == "--sign"@);
}

/// A release looks at the work tree, the branch, both heads, and the tag before it tests, tags, and
/// pushes. The tag is the version behind a `v`, in every place.
pub proof fn a_release_tags_its_version(version: Seq<char>)
    ensures
        ({
            let made = release_calls(version);
            let tag = seq!['v'] + version;
            &&& tag_of(version) == tag
            &&& made.len() == 9
            &&& made[0] == (CallM { program: "git"@, args: seq!["status"@, "--porcelain"@] })
            &&& made[1] == (CallM {
                program: "git"@,
                args: seq!["rev-parse"@, "--abbrev-ref"@, "HEAD"@],
            })
            &&& made[2].args[0] == "fetch"@ && made[2].args.last() == "origin"@
            &&& made[3] == (CallM { program: "git"@, args: seq!["rev-parse"@, "HEAD"@] })
            &&& made[4] == (CallM { program: "git"@, args: seq!["rev-parse"@, "origin/main"@] })
            &&& made[5] == (CallM { program: "git"@, args: seq!["tag"@, "--list"@, tag] })
            &&& made[6].program == "cargo"@ && made[6].args[0] == "test"@
            &&& has_option(made[7].args, "-a"@, tag)
            &&& has_option(made[7].args, "-m"@, "fido2kpxc "@ + version)
            &&& made[8] == (CallM { program: "git"@, args: seq!["push"@, "origin"@, tag] })
        }),
{
    reveal_strlit("v");
    assert("v"@ =~= seq!['v']);
    let made = release_calls(version);
    assert(made[7].args[1] == "-a"@);
    assert(made[7].args[3] == "-m"@);
}

/// A release stops at the first thing that is wrong and says what it is, and at nothing else. What was
/// not printed yet stops nothing.
pub proof fn a_release_stops_only_for_a_reason(outputs: Seq<Seq<char>>, version: Seq<char>)
    ensures
        ({
            let dirty = outputs.len() > 0 && trimmed(outputs[0]).len() > 0;
            let off = outputs.len() > 1 && trimmed(outputs[1]) != "main"@;
            let behind = outputs.len() > 4 && outputs[3] != outputs[4];
            let taken = outputs.len() > 5 && trimmed(outputs[5]).len() > 0;
            let fault = release_fault(outputs, version);
            &&& fault is None <==> !dirty && !off && !behind && !taken
            &&& dirty ==> fault == Some("Commit or stash your changes first"@)
            &&& !dirty && off ==> fault == Some("Release from main"@)
            &&& !dirty && !off && behind ==> fault == Some(
                "main must match origin/main. Push or pull first"@,
            )
            &&& !dirty && !off && !behind && taken ==> fault == Some(
                "Tag "@ + (seq!['v'] + version) + " exists. Raise version in Cargo.toml first"@,
            )
        }),
{
    reveal_strlit("v");
    assert("v"@ =~= seq!['v']);
}

/// Every icon is rendered at its own size, once plain and once doubled, into a file that says so. Then
/// they are packed, and the menu-bar icon is rendered.
pub proof fn every_icon_is_rendered(
    svg: Seq<char>,
    set: Seq<char>,
    icns: Seq<char>,
    menu_svg: Seq<char>,
    menu_pdf: Seq<char>,
    k: int,
    size: nat,
)
    requires
        set.len() > 0,
        set.last() != '/',
        0 <= k < 4,
        size == seq![16nat, 32nat, 128nat, 256nat][k],
    ensures
        ({
            let made = icon_calls(svg, set, icns, menu_svg, menu_pdf);
            let digits = decimal_text(size);
            let plain = made[2 * k];
            let doubled = made[2 * k + 1];
            &&& made.len() == 10
            &&& plain.program == "rsvg-convert"@ && doubled.program == "rsvg-convert"@
            &&& has_option(plain.args, "-w"@, digits) && has_option(plain.args, "-h"@, digits)
            &&& has_option(doubled.args, "-w"@, decimal_text(2 * size)) && has_option(
                doubled.args,
                "-h"@,
                decimal_text(2 * size),
            )
            &&& plain.args.contains(svg) && doubled.args.contains(svg)
            &&& plain.args.last() == set + "/icon_"@ + digits + "x"@ + digits + ".png"@
            &&& doubled.args.last() == set + "/icon_"@ + digits + "x"@ + digits + "@2x.png"@
            &&& made[8] == (CallM {
                program: "/usr/bin/iconutil"@,
                args: seq!["-c"@, "icns"@, "-o"@, icns, set],
            })
            &&& made[9] == (CallM {
                program: "rsvg-convert"@,
                args: seq!["-f"@, "pdf"@, menu_svg, "-o"@, menu_pdf],
            })
        }),
{
    reveal_strlit("");
    reveal_strlit("icon_");
    reveal_strlit("/icon_");
    reveal_strlit("@2x");
    reveal_strlit(".png");
    reveal_strlit("@2x.png");
    assert("icon_"@[0] == 'i');
    let made = icon_calls(svg, set, icns, menu_svg, menu_pdf);
    let digits = decimal_text(size);
    assert(ICON_SIZES@[k] as nat == size);
    assert((2 * k) / 2 == k && (2 * k) % 2 == 0 && (2 * k + 1) / 2 == k && (2 * k + 1) % 2 == 1);
    let plain = made[2 * k];
    let doubled = made[2 * k + 1];
    assert(plain == icon_call(svg, set, size, 1));
    assert(doubled == icon_call(svg, set, size, 2));
    assert(size * 1 == size && size * 2 == 2 * size);
    assert(plain.args[0] == "-w"@ && plain.args[2] == "-h"@ && plain.args[4] == svg);
    assert(doubled.args[0] == "-w"@ && doubled.args[2] == "-h"@ && doubled.args[4] == svg);
    assert(plain.args.last() =~= set + "/icon_"@ + digits + "x"@ + digits + ".png"@);
    assert(doubled.args.last() =~= set + "/icon_"@ + digits + "x"@ + digits + "@2x.png"@);
}

/// The property list states the bundle ID and the version, the version both as the short and as the
/// full one.
pub proof fn a_property_list_states_the_version(version: Seq<char>)
    ensures
        has_part(plist(version), "dev.fido2kpxc"@),
        has_part(plist(version), PLIST_NAMES@ + version + PLIST_VERSION@),
        has_part(plist(version), PLIST_VERSION@ + version + PLIST_TAIL@),
        installer_name(version, ".pkg"@) == "fido2kpxc-"@ + version + ".pkg"@,
        installer_name(version, ".dmg"@) == "fido2kpxc-"@ + version + ".dmg"@,
{
    let text = plist(version);
    let id = "dev.fido2kpxc"@;
    let short = PLIST_NAMES@ + version + PLIST_VERSION@;
    let full = PLIST_VERSION@ + version + PLIST_TAIL@;
    assert(text =~= PLIST_HEAD@ + id + (PLIST_NAMES@ + version + full));
    a_part_stands_between(PLIST_HEAD@, id, PLIST_NAMES@ + version + full);
    assert(text =~= (PLIST_HEAD@ + id) + short + (version + PLIST_TAIL@));
    a_part_stands_between(PLIST_HEAD@ + id, short, version + PLIST_TAIL@);
    assert(text =~= (PLIST_HEAD@ + id + PLIST_NAMES@ + version) + full + Seq::<char>::empty());
    a_part_stands_between(PLIST_HEAD@ + id + PLIST_NAMES@ + version, full, Seq::empty());
}

} // verus!

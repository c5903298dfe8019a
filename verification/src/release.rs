//! Building and packaging: build profiles, target triples, version checks, and the names of
//! the executable, its build receipt and its archive. Running Cargo, GitVersion and the
//! archivers is left to the caller.
use vstd::prelude::*;
use crate::setup::{Platform, join_on, join_path_on, opt_view};
use crate::strings::{chars_of, concat, copy_string, seq_starts_with, starts_with, views};
use crate::wikdict::{decimal, decimal_text};

verus! {

/// A Cargo build profile.
#[derive(Clone, Copy, Debug, PartialEq, Eq, Structural)]
pub enum Profile {
    Dev,
    Release,
}

/// The name Cargo knows a profile by.
pub open spec fn profile_name(profile: Profile) -> Seq<char> {
    match profile {
        Profile::Dev => "dev"@,
        Profile::Release => "release"@,
    }
}

/// The directory under the target directory that a profile builds into.
pub open spec fn profile_dir(profile: Profile) -> Seq<char> {
    match profile {
        Profile::Dev => "debug"@,
        Profile::Release => "release"@,
    }
}

impl Profile {
    /// The name Cargo knows the profile by.
    pub fn name(self) -> (r: &'static str)
        ensures
            r@ == profile_name(self),
    {
        match self {
            Profile::Dev => "dev",
            Profile::Release => "release",
        }
    }
}

/// The options that every build task shares, as given on the command line.
pub struct Common {
    pub target: Option<String>,
    pub profile: Option<Profile>,
    pub target_dir: Option<String>,
    pub offline: bool,
    pub jobs: Option<usize>,
}

/// Why a build or release task refused to go on.
#[derive(Debug)]
pub enum ReleaseError {
    /// GitVersion reported a version that is not SemVer.
    InvalidVersion,
    /// GitVersion reported a version with build metadata.
    BuildMetadata,
    /// The release tag is not `v` followed by the version.
    TagMismatch { tag: String, version: String },
    /// `--target` names no target triple.
    InvalidTarget,
    /// `rustc -vV` named no host target.
    NoHostTarget,
    /// The build receipt does not match the version, commit, target, profile or executable.
    StaleBuild,
}

/// What each release error says.
pub open spec fn release_error_text(error: ReleaseError) -> Seq<char> {
    match error {
        ReleaseError::InvalidVersion => "GitVersion returned invalid SemVer"@,
        ReleaseError::BuildMetadata => "Expected SemVer without build metadata from GitVersion"@,
        ReleaseError::TagMismatch { tag, version } => "Release tag "@ + tag@
            + " does not match GitVersion v"@ + version@,
        ReleaseError::InvalidTarget =>
            "Use a Rust target triple for --target, not a custom target path"@,
        ReleaseError::NoHostTarget => "rustc did not report a host target"@,
        ReleaseError::StaleBuild =>
            "Build metadata or executable does not match this version/commit/target/profile; rebuild before packaging"@,
    }
}

impl ReleaseError {
    /// The message shown for this error.
    pub fn message(&self) -> (r: String)
        ensures
            r@ == release_error_text(*self),
    {
        match self {
            ReleaseError::InvalidVersion => copy_string("GitVersion returned invalid SemVer"),
            ReleaseError::BuildMetadata => copy_string(
                "Expected SemVer without build metadata from GitVersion",
            ),
            ReleaseError::TagMismatch { tag, version } => {
                let m = concat("Release tag ", tag.as_str());
                let m = concat(m.as_str(), " does not match GitVersion v");
                concat(m.as_str(), version.as_str())
            },
            ReleaseError::InvalidTarget => copy_string(
                "Use a Rust target triple for --target, not a custom target path",
            ),
            ReleaseError::NoHostTarget => copy_string("rustc did not report a host target"),
            ReleaseError::StaleBuild => copy_string(
                "Build metadata or executable does not match this version/commit/target/profile; rebuild before packaging",
            ),
        }
    }
}

/// A character that may stand in a part of a target triple.
pub open spec fn triple_char(c: char) -> bool {
    ('a' <= c <= 'z') || ('A' <= c <= 'Z') || ('0' <= c <= '9') || c == '_'
}

/// A target triple: parts of ASCII letters, digits and underscores, at least two, none
/// empty, joined by hyphens.
pub open spec fn valid_target(t: Seq<char>) -> bool {
    &&& exists|i: int| 0 <= i < t.len() && #[trigger] t[i] == '-'
    &&& forall|i: int| 0 <= i < t.len() ==> triple_char(#[trigger] t[i]) || t[i] == '-'
    &&& t[0] != '-'
    &&& t[t.len() - 1] != '-'
    &&& forall|i: int| 0 <= i < t.len() - 1 && #[trigger] t[i] == '-' ==> t[i + 1] != '-'
}

/// Whether a target names a target triple rather than a custom target path.
pub fn is_target_triple(target: &str) -> (b: bool)
    ensures
        b == valid_target(target@),
{
    let t = chars_of(target);
    let n = t.len();
    if n == 0 {
        return false;
    }
    if t[0] == '-' || t[n - 1] == '-' {
        return false;
    }
    let mut hyphen = false;
    let mut i: usize = 0;
    while i < n
        invariant
            n == t@.len() == target@.len(),
            t@ == target@,
            i <= n,
            forall|k: int| 0 <= k < i ==> triple_char(#[trigger] t@[k]) || t@[k] == '-',
            forall|k: int| 0 <= k < i && k < n - 1 && #[trigger] t@[k] == '-' ==> t@[k + 1] != '-',
            hyphen <==> exists|k: int| 0 <= k < i && #[trigger] t@[k] == '-',
        decreases n - i,
    {
        let c = t[i];
        let allowed = ('a' <= c && c <= 'z') || ('A' <= c && c <= 'Z') || ('0' <= c && c <= '9')
            || c == '_' || c == '-';
        if !allowed {
            return false;
        }
        if c == '-' {
            if i + 1 < n && t[i + 1] == '-' {
                return false;
            }
            hyphen = true;
        }
        i = i + 1;
    }
    hyphen
}

/// Whether `t` contains `part`.
pub open spec fn contains_text(t: Seq<char>, part: Seq<char>) -> bool {
    exists|i: int| 0 <= i <= t.len() - part.len() && #[trigger] t.subrange(i, i + part.len()) == part
}

/// Whether `t` contains `part`.
pub fn text_contains(t: &str, part: &str) -> (b: bool)
    ensures
        b == contains_text(t@, part@),
{
    let tv = chars_of(t);
    let pv = chars_of(part);
    if pv.len() > tv.len() {
        return false;
    }
    let mut i: usize = 0;
    while i <= tv.len() - pv.len()
        invariant
            tv@ == t@,
            pv@ == part@,
            pv.len() <= tv.len(),
            i <= tv.len() - pv.len() + 1,
            forall|k: int| 0 <= k < i ==> #[trigger] t@.subrange(k, k + part@.len()) != part@,
        decreases tv.len() - pv.len() + 1 - i,
    {
        let mut j: usize = 0;
        while j < pv.len() && tv[i + j] == pv[j]
            invariant
                tv@ == t@,
                pv@ == part@,
                i + pv.len() <= tv.len(),
                j <= pv.len(),
                forall|k: int| 0 <= k < j ==> tv@[i + k] == pv@[k],
            decreases pv.len() - j,
        {
            j = j + 1;
        }
        if j == pv.len() {
            assert(t@.subrange(i as int, i + part@.len()) =~= part@);
            return true;
        }
        assert(t@.subrange(i as int, i + part@.len())[j as int] != part@[j as int]);
        i = i + 1;
    }
    false
}

/// The options of one build task, resolved.
pub struct Options {
    pub target: String,
    pub profile: Profile,
    pub target_dir: String,
    pub offline: bool,
    pub jobs: Option<usize>,
}

/// The file name of the executable: `voci.exe` for a Windows target, else `voci`.
pub open spec fn executable_name(target: Seq<char>) -> Seq<char> {
    if contains_text(target, "windows"@) {
        "voci.exe"@
    } else {
        "voci"@
    }
}

/// Where a build leaves the executable.
pub open spec fn binary_path(o: Options, platform: Platform) -> Seq<char> {
    join_on(
        platform,
        join_on(platform, join_on(platform, o.target_dir@, o.target@), profile_dir(o.profile)),
        executable_name(o.target@),
    )
}

/// The arguments of a Cargo task: locked, with the profile, target and target directory,
/// only the application unless installing, offline where asked, and the job count where
/// given.
pub open spec fn cargo_args_spec(o: Options, task: Seq<char>) -> Seq<Seq<char>> {
    seq![
        task,
        "--locked"@,
        "--profile"@,
        profile_name(o.profile),
        "--target"@,
        o.target@,
        "--target-dir"@,
        o.target_dir@,
    ] + (if task != "install"@ {
        seq!["--package"@, "voci"@]
    } else {
        Seq::empty()
    }) + (if o.offline {
        seq!["--offline"@]
    } else {
        Seq::empty()
    }) + (match o.jobs {
        Some(j) => seq!["--jobs"@, decimal(j as nat)],
        None => Seq::empty(),
    })
}

impl Options {
    /// Resolve a task's options: the target given, or else the host target; the profile
    /// given, or else the task's default; the target directory, already made absolute.
    pub fn resolve(
        common: Common,
        default_profile: Profile,
        host_target: Option<String>,
        target_dir: String,
    ) -> (r: Result<Options, ReleaseError>)
        ensures
            ({
                let target = match common.target {
                    Some(t) => Some(t@),
                    None => opt_view(host_target),
                };
                match target {
                    None => r matches Err(ReleaseError::NoHostTarget),
                    Some(t) => if valid_target(t) {
                        r matches Ok(o) && o.target@ == t && o.profile == (match common.profile {
                            Some(p) => p,
                            None => default_profile,
                        }) && o.target_dir@ == target_dir@ && o.offline == common.offline
                            && o.jobs == common.jobs
                    } else {
                        r matches Err(ReleaseError::InvalidTarget)
                    },
                }
            }),
    {
        let target = match common.target {
            Some(t) => t,
            None => match host_target {
                Some(h) => h,
                None => {
                    return Err(ReleaseError::NoHostTarget);
                },
            },
        };
        if !is_target_triple(target.as_str()) {
            return Err(ReleaseError::InvalidTarget);
        }
        let profile = match common.profile {
            Some(p) => p,
            None => default_profile,
        };
        Ok(Options { target, profile, target_dir, offline: common.offline, jobs: common.jobs })
    }

    /// The executable that a build leaves: `voci`, or `voci.exe` for a Windows target,
    /// under the target directory, the target and the profile's directory.
    pub fn binary(&self, platform: Platform) -> (r: String)
        ensures
            r@ == binary_path(*self, platform),
    {
        let dir = join_path_on(platform, self.target_dir.as_str(), self.target.as_str());
        let profile = match self.profile {
            Profile::Dev => "debug",
            Profile::Release => "release",
        };
        let dir = join_path_on(platform, dir.as_str(), profile);
        let name = if text_contains(self.target.as_str(), "windows") {
            "voci.exe"
        } else {
            "voci"
        };
        join_path_on(platform, dir.as_str(), name)
    }

    /// The name of the release archive, without its extension: the version and the target,
    /// and `-dev` for a development build.
    pub fn archive_stem(&self, version: &str) -> (r: String)
        ensures
            r@ == "voci-v"@ + version@ + "-"@ + self.target@ + (if self.profile == Profile::Dev {
                "-dev"@
            } else {
                Seq::<char>::empty()
            }),
    {
        let name = concat("voci-v", version);
        let name = concat(name.as_str(), "-");
        let name = concat(name.as_str(), self.target.as_str());
        match self.profile {
            Profile::Dev => concat(name.as_str(), "-dev"),
            Profile::Release => {
                proof {
                    assert(name@ + Seq::<char>::empty() =~= name@);
                }
                name
            },
        }
    }

    /// The archive format: zip for a Windows target, else gzip-compressed tar.
    pub fn archive_extension(&self) -> (r: &'static str)
        ensures
            r@ == if contains_text(self.target@, "windows"@) {
                "zip"@
            } else {
                "tar.gz"@
            },
    {
        if text_contains(self.target.as_str(), "windows") {
            "zip"
        } else {
            "tar.gz"
        }
    }

    /// The arguments of a Cargo task: locked, with the profile, target and target directory,
    /// only the application unless installing, offline where asked, and the job count where
    /// given.
    pub fn cargo_args(&self, task: &str) -> (r: Vec<String>)
        ensures
            views(r@) == cargo_args_spec(*self, task@),
    {
        let mut r: Vec<String> = Vec::new();
        r.push(copy_string(task));
        r.push(copy_string("--locked"));
        r.push(copy_string("--profile"));
        r.push(copy_string(self.profile.name()));
        r.push(copy_string("--target"));
        r.push(self.target.clone());
        r.push(copy_string("--target-dir"));
        r.push(self.target_dir.clone());
        let ghost base = views(r@);
        let install = crate::strings::str_eq(task, "install");
        if !install {
            r.push(copy_string("--package"));
            r.push(copy_string("voci"));
        }
        let ghost with_package = views(r@);
        if self.offline {
            r.push(copy_string("--offline"));
        }
        let ghost with_offline = views(r@);
        if let Some(j) = self.jobs {
            r.push(copy_string("--jobs"));
            r.push(decimal_text(j as u64));
        }
        assert(views(r@) =~= seq![
            task@,
            "--locked"@,
            "--profile"@,
            profile_name(self.profile),
            "--target"@,
            self.target@,
            "--target-dir"@,
            self.target_dir@,
        ] + (if task@ != "install"@ {
            seq!["--package"@, "voci"@]
        } else {
            Seq::empty()
        }) + (if self.offline {
            seq!["--offline"@]
        } else {
            Seq::empty()
        }) + (match self.jobs {
            Some(j) => seq!["--jobs"@, decimal(j as nat)],
            None => Seq::empty(),
        }));
        r
    }
}

/// The build receipt that sits beside an executable: its file name with `.build.json`
/// appended.
pub fn receipt_path(binary: &str) -> (r: String)
    ensures
        r@ == binary@ + ".build.json"@,
{
    concat(binary, ".build.json")
}

/// The checksum file's line for an archive: the SHA-256 digest, two spaces and the name.
pub fn checksum_line(digest: &str, archive_name: &str) -> (r: String)
    ensures
        r@ == digest@ + "  "@ + archive_name@ + "\n"@,
{
    let line = concat(digest, "  ");
    let line = concat(line.as_str(), archive_name);
    concat(line.as_str(), "\n")
}

/// The arguments that follow a task's own: none, or `--` and the arguments given.
pub fn forwarded(arguments: &Vec<String>) -> (r: Vec<String>)
    ensures
        arguments@.len() == 0 ==> r@.len() == 0,
        arguments@.len() > 0 ==> views(r@) == seq!["--"@] + views(arguments@),
{
    let mut r: Vec<String> = Vec::new();
    if arguments.len() == 0 {
        return r;
    }
    r.push(copy_string("--"));
    let mut i: usize = 0;
    while i < arguments.len()
        invariant
            i <= arguments@.len(),
            arguments@.len() > 0,
            views(r@) == seq!["--"@] + views(arguments@.take(i as int)),
        decreases arguments.len() - i,
    {
        let ghost prev = views(r@);
        r.push(arguments[i].clone());
        assert(views(r@) =~= prev.push(arguments@[i as int]@));
        assert(views(arguments@.take(i as int + 1)) =~= views(arguments@.take(i as int)).push(
            arguments@[i as int]@,
        ));
        i = i + 1;
    }
    assert(arguments@.take(i as int) =~= arguments@);
    r
}

/// The arguments that follow a task's own: none, or `--` and the arguments given.
pub open spec fn forwarded_spec(arguments: Seq<Seq<char>>) -> Seq<Seq<char>> {
    if arguments.len() == 0 {
        Seq::empty()
    } else {
        seq!["--"@] + arguments
    }
}

/// `a` followed by `b`.
fn extended(a: Vec<String>, b: Vec<String>) -> (r: Vec<String>)
    ensures
        views(r@) == views(a@) + views(b@),
{
    let mut a = a;
    let mut b = b;
    let ghost va = views(a@);
    let ghost vb = views(b@);
    a.append(&mut b);
    assert(views(a@) =~= va + vb);
    a
}

/// The arguments that select the executable.
fn bin_voci() -> (r: Vec<String>)
    ensures
        views(r@) == seq!["--bin"@, "voci"@],
{
    let mut r: Vec<String> = Vec::new();
    r.push(copy_string("--bin"));
    r.push(copy_string("voci"));
    assert(views(r@) =~= seq!["--bin"@, "voci"@]);
    r
}

impl Options {
    /// The Cargo arguments that build the executable.
    pub fn build_args(&self) -> (r: Vec<String>)
        ensures
            views(r@) == cargo_args_spec(*self, "build"@) + seq!["--bin"@, "voci"@],
    {
        extended(self.cargo_args("build"), bin_voci())
    }

    /// The Cargo arguments that run the executable with the arguments given after `--`.
    pub fn run_args(&self, arguments: &Vec<String>) -> (r: Vec<String>)
        ensures
            views(r@) == cargo_args_spec(*self, "run"@) + seq!["--bin"@, "voci"@] + forwarded_spec(
                views(arguments@),
            ),
    {
        let args = extended(self.cargo_args("run"), bin_voci());
        let rest = forwarded(arguments);
        assert(views(rest@) =~= forwarded_spec(views(arguments@)));
        extended(args, rest)
    }

    /// The Cargo arguments that run the tests: one test target and the library tests where
    /// asked, a name filter where given, and the arguments given after `--`.
    pub fn test_args(
        &self,
        test: Option<String>,
        lib: bool,
        filter: Option<String>,
        arguments: &Vec<String>,
    ) -> (r: Vec<String>)
        ensures
            views(r@) == cargo_args_spec(*self, "test"@) + (match test {
                Some(t) => seq!["--test"@, t@],
                None => Seq::empty(),
            }) + (if lib {
                seq!["--lib"@]
            } else {
                Seq::empty()
            }) + (match filter {
                Some(f) => seq![f@],
                None => Seq::empty(),
            }) + forwarded_spec(views(arguments@)),
    {
        let mut r = self.cargo_args("test");
        let ghost base = views(r@);
        if let Some(t) = test {
            r.push(copy_string("--test"));
            r.push(t);
        }
        let ghost with_test = views(r@);
        if lib {
            r.push(copy_string("--lib"));
        }
        let ghost with_lib = views(r@);
        if let Some(f) = filter {
            r.push(f);
        }
        let ghost with_filter = views(r@);
        let rest = forwarded(arguments);
        assert(views(rest@) =~= forwarded_spec(views(arguments@)));
        let r = extended(r, rest);
        assert(with_test =~= base + (match test {
            Some(t) => seq!["--test"@, t@],
            None => Seq::<Seq<char>>::empty(),
        }));
        assert(with_lib =~= with_test + (if lib {
            seq!["--lib"@]
        } else {
            Seq::<Seq<char>>::empty()
        }));
        assert(with_filter =~= with_lib + (match filter {
            Some(f) => seq![f@],
            None => Seq::<Seq<char>>::empty(),
        }));
        r
    }

    /// The Cargo arguments that install the executable from the project `root`, into
    /// `install_root` where one is given.
    pub fn install_args(&self, root: &str, install_root: Option<String>) -> (r: Vec<String>)
        ensures
            views(r@) == cargo_args_spec(*self, "install"@) + seq![
                "--path"@,
                root@,
                "--bin"@,
                "voci"@,
                "--force"@,
            ] + (match install_root {
                Some(p) => seq!["--root"@, p@],
                None => Seq::empty(),
            }),
    {
        let mut r = self.cargo_args("install");
        let ghost base = views(r@);
        r.push(copy_string("--path"));
        r.push(copy_string(root));
        r.push(copy_string("--bin"));
        r.push(copy_string("voci"));
        r.push(copy_string("--force"));
        let ghost fixed = views(r@);
        assert(fixed =~= base + seq!["--path"@, root@, "--bin"@, "voci"@, "--force"@]);
        if let Some(p) = install_root {
            r.push(copy_string("--root"));
            r.push(p);
        }
        assert(views(r@) =~= fixed + (match install_root {
            Some(p) => seq!["--root"@, p@],
            None => Seq::<Seq<char>>::empty(),
        }));
        r
    }
}

/// The build metadata of a version as `semver` parses it, or none where it is not SemVer.
pub uninterp spec fn semver_build_of(version: Seq<char>) -> Option<Seq<char>>;

/// Calls `semver::Version::parse` and reads the parsed version's build metadata. The
/// contract only names the result: the metadata of a valid version, none for an invalid one.
#[verifier::external_body]
fn semver_build(version: &str) -> (r: Option<String>)
    ensures
        opt_view(r) == semver_build_of(version@),
{
    match semver::Version::parse(version) {
        Ok(parsed) => Some(parsed.build.as_str().to_owned()),
        Err(_) => None,
    }
}

/// A version and the commit it was built from.
pub struct VersionInfo {
    pub version: String,
    pub commit: String,
}

/// Check the version that GitVersion reported: it must be SemVer without build metadata,
/// and where a release tag is expected, the tag must be `v` followed by the version.
pub fn parse_version(version: String, commit: String, expected_tag: Option<&str>) -> (r: Result<
    VersionInfo,
    ReleaseError,
>)
    ensures
        match semver_build_of(version@) {
            None => r matches Err(ReleaseError::InvalidVersion),
            Some(b) => if b.len() > 0 {
                r matches Err(ReleaseError::BuildMetadata)
            } else {
                match expected_tag {
                    Some(t) => if t@ == "v"@ + version@ {
                        r matches Ok(i) && i.version@ == version@ && i.commit@ == commit@
                    } else {
                        r matches Err(ReleaseError::TagMismatch { tag, version: v }) && tag@ == t@
                            && v@ == version@
                    },
                    None => r matches Ok(i) && i.version@ == version@ && i.commit@ == commit@,
                }
            },
        },
{
    let build = match semver_build(version.as_str()) {
        Some(b) => b,
        None => {
            return Err(ReleaseError::InvalidVersion);
        },
    };
    if !build.as_str().is_empty() {
        return Err(ReleaseError::BuildMetadata);
    }
    if let Some(tag) = expected_tag {
        let expected = concat("v", version.as_str());
        proof {
            reveal_strlit("v");
        }
        if !crate::strings::str_eq(tag, expected.as_str()) {
            return Err(ReleaseError::TagMismatch { tag: copy_string(tag), version });
        }
    }
    Ok(VersionInfo { version, commit })
}

/// What a build records beside its executable: the version and commit it was built from,
/// the target, the profile's name and the executable's SHA-256 digest. Packaging checks it
/// before it archives the executable.
pub struct Receipt {
    pub version: String,
    pub commit: String,
    pub target: String,
    pub profile: String,
    pub sha256: String,
}

impl Options {
    /// The receipt of a build of `info` with these options, whose executable has the digest
    /// given.
    pub fn receipt(&self, info: &VersionInfo, sha256: String) -> (r: Receipt)
        ensures
            r.version@ == info.version@,
            r.commit@ == info.commit@,
            r.target@ == self.target@,
            r.profile@ == profile_name(self.profile),
            r.sha256@ == sha256@,
    {
        Receipt {
            version: info.version.clone(),
            commit: info.commit.clone(),
            target: self.target.clone(),
            profile: copy_string(self.profile.name()),
            sha256,
        }
    }
}

/// Whether two receipts agree in every field: a stale version, commit, target or profile, or
/// a changed executable, makes them differ.
pub open spec fn same_receipt(a: Receipt, b: Receipt) -> bool {
    &&& a.version@ == b.version@
    &&& a.commit@ == b.commit@
    &&& a.target@ == b.target@
    &&& a.profile@ == b.profile@
    &&& a.sha256@ == b.sha256@
}

/// Check that a stored receipt is the one expected, before packaging.
pub fn check_receipt(stored: &Receipt, expected: &Receipt) -> (r: Result<(), ReleaseError>)
    ensures
        r is Ok <==> same_receipt(*stored, *expected),
        r matches Err(e) ==> e == ReleaseError::StaleBuild,
{
    let same = crate::strings::str_eq(stored.version.as_str(), expected.version.as_str())
        && crate::strings::str_eq(stored.commit.as_str(), expected.commit.as_str())
        && crate::strings::str_eq(stored.target.as_str(), expected.target.as_str())
        && crate::strings::str_eq(stored.profile.as_str(), expected.profile.as_str())
        && crate::strings::str_eq(stored.sha256.as_str(), expected.sha256.as_str());
    if same {
        Ok(())
    } else {
        Err(ReleaseError::StaleBuild)
    }
}

/// A file of a release archive: where it is read from, its name in the archive, and its
/// Unix permission bits.
pub struct ArchiveEntry {
    pub source: String,
    pub name: String,
    pub mode: u32,
}

/// The value of an archive entry.
pub open spec fn entry_view(e: ArchiveEntry) -> (Seq<char>, Seq<char>, u32) {
    (e.source@, e.name@, e.mode)
}

/// The documents that an archive carries, relative to the project root.
pub open spec fn documents() -> Seq<Seq<char>> {
    seq!["README.md"@, "docs/pitches/lookup/wikdict-attribution.md"@]
}

impl Options {
    /// The archive's file name: its stem, then `.zip` or `.tar.gz`.
    pub fn archive_name(&self, version: &str) -> (r: String)
        ensures
            r@ == "voci-v"@ + version@ + "-"@ + self.target@ + (if self.profile == Profile::Dev {
                "-dev"@
            } else {
                Seq::<char>::empty()
            }) + "."@ + (if contains_text(self.target@, "windows"@) {
                "zip"@
            } else {
                "tar.gz"@
            }),
    {
        let stem = self.archive_stem(version);
        let name = concat(stem.as_str(), ".");
        concat(name.as_str(), self.archive_extension())
    }

    /// The files of the release archive of a version, each under a folder named after the
    /// archive's stem: the executable (executable by all), its receipt as `build-info.json`,
    /// and the documents read from the project `root`.
    pub fn archive_entries(&self, platform: Platform, root: &str, version: &str) -> (r: Vec<
        ArchiveEntry,
    >)
        ensures
            ({
                let folder = "voci-v"@ + version@ + "-"@ + self.target@ + (if self.profile
                    == Profile::Dev {
                    "-dev"@
                } else {
                    Seq::<char>::empty()
                }) + "/"@;
                r@.map_values(|e: ArchiveEntry| entry_view(e)) == seq![
                    (binary_path(*self, platform), folder + executable_name(self.target@), 0o755u32),
                    (binary_path(*self, platform) + ".build.json"@, folder + "build-info.json"@, 0o644u32),
                    (join_on(platform, root@, documents()[0]), folder + documents()[0], 0o644u32),
                    (join_on(platform, root@, documents()[1]), folder + documents()[1], 0o644u32),
                ]
            }),
    {
        let stem = self.archive_stem(version);
        let folder = concat(stem.as_str(), "/");
        let binary = self.binary(platform);
        let executable = if text_contains(self.target.as_str(), "windows") {
            "voci.exe"
        } else {
            "voci"
        };
        let readme = "README.md";
        let attribution = "docs/pitches/lookup/wikdict-attribution.md";
        let mut r: Vec<ArchiveEntry> = Vec::new();
        r.push(ArchiveEntry { source: binary.clone(), name: concat(folder.as_str(), executable), mode: 0o755 });
        r.push(
            ArchiveEntry {
                source: receipt_path(binary.as_str()),
                name: concat(folder.as_str(), "build-info.json"),
                mode: 0o644,
            },
        );
        r.push(
            ArchiveEntry {
                source: join_path_on(platform, root, readme),
                name: concat(folder.as_str(), readme),
                mode: 0o644,
            },
        );
        r.push(
            ArchiveEntry {
                source: join_path_on(platform, root, attribution),
                name: concat(folder.as_str(), attribution),
                mode: 0o644,
            },
        );
        assert(r@.map_values(|e: ArchiveEntry| entry_view(e)) =~= seq![
            (binary_path(*self, platform), folder@ + executable_name(self.target@), 0o755u32),
            (binary_path(*self, platform) + ".build.json"@, folder@ + "build-info.json"@, 0o644u32),
            (join_on(platform, root@, documents()[0]), folder@ + documents()[0], 0o644u32),
            (join_on(platform, root@, documents()[1]), folder@ + documents()[1], 0o644u32),
        ]);
        r
    }
}

/// The host target that `rustc -vV` reports: the rest of its first line that starts with
/// `host: `.
pub open spec fn host_of_lines(lines: Seq<Seq<char>>) -> Option<Seq<char>>
    decreases lines.len(),
{
    if lines.len() == 0 {
        None
    } else if seq_starts_with(lines[0], "host: "@) {
        Some(lines[0].skip(6))
    } else {
        host_of_lines(lines.drop_first())
    }
}

/// The host target among the lines of `rustc -vV`.
pub fn host_target(lines: &Vec<String>) -> (r: Option<String>)
    ensures
        opt_view(r) == host_of_lines(views(lines@)),
{
    let mut i: usize = 0;
    assert(views(lines@).skip(0) =~= views(lines@));
    while i < lines.len()
        invariant
            i <= lines@.len(),
            host_of_lines(views(lines@)) == host_of_lines(views(lines@).skip(i as int)),
        decreases lines.len() - i,
    {
        let ghost rest = views(lines@).skip(i as int);
        assert(rest[0] == lines@[i as int]@);
        proof {
            reveal_strlit("host: ");
        }
        if starts_with(lines[i].as_str(), "host: ") {
            let v = chars_of(lines[i].as_str());
            let host = crate::strings::string_of(&crate::strings::sub_chars(&v, 6, v.len()));
            assert(host@ =~= rest[0].skip(6));
            return Some(host);
        }
        assert(rest.drop_first() =~= views(lines@).skip(i as int + 1));
        i = i + 1;
    }
    None
}

} // verus!

//! Updates: which release is newer, which of its files is taken, and what is reported.

use vstd::prelude::*;

use crate::platform::Platform;
use crate::text::{chars_of, copy_range, decimal, push_decimal, str_texts, string_of, trim_chars, trimmed};

verus! {

#[derive(Debug, Clone)]
pub struct UpdateInfo {
    pub current_version: String,
    pub latest_version: String,
    pub available: bool,
}

// ---------------------------------------------------------------------
// Where releases are published
// ---------------------------------------------------------------------

/// The account that publishes the releases, unless another one is set at build time.
pub fn update_owner(set: Option<&'static str>) -> (owner: &'static str)
    ensures
        owner@ == (match set {
            Some(value) => value@,
            None => "ivLis-Studio"@,
        }),
{
    match set {
        Some(value) => value,
        None => "ivLis-Studio",
    }
}

/// The repository that holds the releases, unless another one is set at build time.
pub fn update_repo(set: Option<&'static str>) -> (repo: &'static str)
    ensures
        repo@ == (match set {
            Some(value) => value@,
            None => "net-combiner"@,
        }),
{
    match set {
        Some(value) => value,
        None => "net-combiner",
    }
}

/// The account and the repository with a slash between them.
pub fn repo_label(owner: Option<&'static str>, repo: Option<&'static str>) -> (label: String)
    ensures
        label@ == (match owner {
            Some(value) => value@,
            None => "ivLis-Studio"@,
        }) + "/"@ + (match repo {
            Some(value) => value@,
            None => "net-combiner"@,
        }),
{
    let mut label: String = update_owner(owner).to_owned();
    label.append("/");
    label.append(update_repo(repo));
    label
}

// ---------------------------------------------------------------------
// Versions
// ---------------------------------------------------------------------

/// `text` without the letters `v` it starts with.
pub open spec fn without_leading_v(text: Seq<char>) -> Seq<char>
    decreases text.len(),
{
    if text.len() > 0 && text[0] == 'v' {
        without_leading_v(text.drop_first())
    } else {
        text
    }
}

/// A version as it is read: without white space around it and without a leading `v`.
pub open spec fn normalized(text: Seq<char>) -> Seq<char> {
    without_leading_v(trimmed(text))
}

pub fn normalize_version(value: &str) -> (out: String)
    ensures
        out@ == normalized(value@),
{
    let given: Vec<char> = chars_of(value);
    let chars: Vec<char> = trim_chars(given.as_slice());
    let mut from: usize = 0;
    assert(chars@.skip(0) =~= chars@);
    while from < chars.len() && chars[from] == 'v'
        invariant
            from <= chars@.len(),
            without_leading_v(chars@) == without_leading_v(chars@.skip(from as int)),
        decreases chars@.len() - from,
    {
        assert(chars@.skip(from as int).drop_first() =~= chars@.skip(from + 1));
        from += 1;
    }
    let rest: Vec<char> = copy_range(chars.as_slice(), from, chars.len());
    assert(rest@ =~= chars@.skip(from as int));
    string_of(rest.as_slice())
}

/// A release version, taken apart.
#[derive(Debug)]
pub struct ReleaseVersion {
    pub major: u64,
    pub minor: u64,
    pub patch: u64,
    pub pre: String,
    pub build: String,
}

impl ReleaseVersion {
    /// The three numbers, the pre-release part and the build part.
    pub open spec fn parts(self) -> (u64, u64, u64, Seq<char>, Seq<char>) {
        (self.major, self.minor, self.patch, self.pre@, self.build@)
    }
}

/// What `semver::Version::parse` reads from a text: the three numbers, the pre-release part and
/// the build part, or nothing where it returns an error.
pub uninterp spec fn semver_parsed(text: Seq<char>) -> Option<(u64, u64, u64, Seq<char>, Seq<char>)>;

/// Whether `semver::Version` orders the first version after the second one.
pub uninterp spec fn semver_after(
    first: (u64, u64, u64, Seq<char>, Seq<char>),
    second: (u64, u64, u64, Seq<char>, Seq<char>),
) -> bool;

/// Whether the three numbers of `first` come after those of `second`, the first one weighing
/// most.
pub open spec fn numbers_after(
    first: (u64, u64, u64, Seq<char>, Seq<char>),
    second: (u64, u64, u64, Seq<char>, Seq<char>),
) -> bool {
    first.0 > second.0 || (first.0 == second.0 && (first.1 > second.1 || (first.1 == second.1
        && first.2 > second.2)))
}

/// Whether the two versions have the same three numbers.
pub open spec fn same_numbers(
    first: (u64, u64, u64, Seq<char>, Seq<char>),
    second: (u64, u64, u64, Seq<char>, Seq<char>),
) -> bool {
    first.0 == second.0 && first.1 == second.1 && first.2 == second.2
}

/// Whether some text reads as these parts.
pub open spec fn is_release(parts: (u64, u64, u64, Seq<char>, Seq<char>)) -> bool {
    exists|text: Seq<char>| #[trigger] semver_parsed(text) == Some(parts)
}

/// `semver::Version::parse`: what it returns is a function of the text alone, an error being
/// taken as nothing.
#[verifier::external_body]
fn parse_version(text: &str) -> (version: Option<ReleaseVersion>)
    ensures
        version is Some <==> semver_parsed(text@) is Some,
        version is Some ==> semver_parsed(text@) == Some(version->0.parts()),
{
    match semver::Version::parse(text) {
        Ok(found) => Some(
            ReleaseVersion {
                major: found.major,
                minor: found.minor,
                patch: found.patch,
                pre: found.pre.as_str().to_owned(),
                build: found.build.as_str().to_owned(),
            },
        ),
        Err(_) => None,
    }
}

/// `>` on `semver::Version`: the three numbers decide where they differ, a release comes after
/// its pre-releases, and no version comes after itself or after one that comes after it.
/// `semver::Prerelease::new` and `semver::BuildMetadata::new` take back what a parse handed out.
#[verifier::external_body]
fn version_after(first: &ReleaseVersion, second: &ReleaseVersion) -> (after: bool)
    requires
        is_release(first.parts()),
        is_release(second.parts()),
    ensures
        after == semver_after(first.parts(), second.parts()),
        !same_numbers(first.parts(), second.parts()) ==> after == numbers_after(
            first.parts(),
            second.parts(),
        ),
        same_numbers(first.parts(), second.parts()) && first.pre@.len() == 0 && second.pre@.len()
            > 0 ==> after,
        same_numbers(first.parts(), second.parts()) && first.pre@.len() > 0 && second.pre@.len()
            == 0 ==> !after,
        first.parts() == second.parts() ==> !after,
        after ==> !semver_after(second.parts(), first.parts()),
{
    let mut left = semver::Version::new(first.major, first.minor, first.patch);
    left.pre = semver::Prerelease::new(first.pre.as_str()).unwrap();
    left.build = semver::BuildMetadata::new(first.build.as_str()).unwrap();
    let mut right = semver::Version::new(second.major, second.minor, second.patch);
    right.pre = semver::Prerelease::new(second.pre.as_str()).unwrap();
    right.build = semver::BuildMetadata::new(second.build.as_str()).unwrap();
    left > right
}

/// Whether the version that `latest` writes comes after the one that `current` writes; where one
/// of them is no version, it does not.
pub open spec fn newer(current: Seq<char>, latest: Seq<char>) -> bool {
    match (semver_parsed(normalized(current)), semver_parsed(normalized(latest))) {
        (Some(old_parts), Some(new_parts)) => semver_after(new_parts, old_parts),
        _ => false,
    }
}

/// Compares two versions as they are read: without white space around them and without a leading
/// `v`. The three numbers decide where they differ; where they do not, a release is newer than its
/// pre-releases. A text is never newer than itself, and of two texts at most one is newer than the
/// other.
pub fn version_is_newer(current: &str, latest: &str) -> (result: bool)
    ensures
        result == newer(current@, latest@),
        normalized(current@) == normalized(latest@) ==> !result,
        result ==> !newer(latest@, current@),
        result ==> semver_parsed(normalized(current@)) is Some && semver_parsed(
            normalized(latest@),
        ) is Some,
        result ==> numbers_after(
            semver_parsed(normalized(latest@))->0,
            semver_parsed(normalized(current@))->0,
        ) || same_numbers(
            semver_parsed(normalized(latest@))->0,
            semver_parsed(normalized(current@))->0,
        ),
        semver_parsed(normalized(current@)) is Some && semver_parsed(normalized(latest@)) is Some
            && numbers_after(
            semver_parsed(normalized(latest@))->0,
            semver_parsed(normalized(current@))->0,
        ) ==> result,
        semver_parsed(normalized(current@)) is Some && semver_parsed(normalized(latest@)) is Some
            && numbers_after(
            semver_parsed(normalized(current@))->0,
            semver_parsed(normalized(latest@))->0,
        ) ==> !result,
        semver_parsed(normalized(current@)) is Some && semver_parsed(normalized(latest@)) is Some
            && same_numbers(
            semver_parsed(normalized(latest@))->0,
            semver_parsed(normalized(current@))->0,
        ) ==> {
            let (latest_pre, current_pre) = (
                (semver_parsed(normalized(latest@))->0).3,
                (semver_parsed(normalized(current@))->0).3,
            );
            &&& latest_pre.len() == 0 && current_pre.len() > 0 ==> result
            &&& latest_pre.len() > 0 && current_pre.len() == 0 ==> !result
        },
{
    let old_version: Option<ReleaseVersion> = parse_version(normalize_version(current).as_str());
    let new_version: Option<ReleaseVersion> = parse_version(normalize_version(latest).as_str());
    match (old_version, new_version) {
        (Some(old_parts), Some(new_parts)) => version_after(&new_parts, &old_parts),
        _ => false,
    }
}

/// The message where no release was found.
pub fn no_releases_message() -> (message: &'static str)
    ensures
        message@ == "no GitHub releases found"@,
{
    "no GitHub releases found"
}

/// The finding on a latest release, whether it is newer being known.
pub fn update_info(current: &str, latest: &str, available: bool) -> (info: UpdateInfo)
    ensures
        info.current_version@ == current@,
        info.latest_version@ == normalized(latest@),
        info.available == available,
{
    UpdateInfo {
        current_version: current.to_owned(),
        latest_version: normalize_version(latest),
        available,
    }
}

/// The finding on the first release of the list; none where the list is empty.
pub fn check(current: &str, releases: &Vec<String>) -> (info: Option<UpdateInfo>)
    ensures
        info is Some <==> releases@.len() > 0,
        info matches Some(found) ==> {
            &&& found.current_version@ == current@
            &&& found.latest_version@ == normalized(releases@[0]@)
            &&& found.available == newer(current@, normalized(releases@[0]@))
        },
{
    if releases.len() == 0 {
        return None;
    }
    let latest: &str = releases[0].as_str();
    let available: bool = version_is_newer(current, normalize_version(latest).as_str());
    Some(update_info(current, latest, available))
}

// ---------------------------------------------------------------------
// Installing
// ---------------------------------------------------------------------

/// A file of a release.
#[derive(Debug)]
pub struct ReleaseAsset {
    pub name: String,
    pub download_url: String,
}

/// A published release.
#[derive(Debug)]
pub struct Release {
    pub version: String,
    pub assets: Vec<ReleaseAsset>,
}

/// Whether `part` stands somewhere in `text`.
pub open spec fn holds(text: Seq<char>, part: Seq<char>) -> bool {
    exists|at: int|
        0 <= at <= text.len() - part.len() && #[trigger] text.subrange(at, at + part.len()) == part
}

fn text_holds(text: &[char], part: &[char]) -> (found: bool)
    ensures
        found == holds(text@, part@),
{
    if part.len() > text.len() {
        return false;
    }
    let total: usize = text.len();
    let last: usize = total - part.len();
    let mut at: usize = 0;
    loop
        invariant
            at <= last,
            total == text@.len(),
            last == total - part@.len(),
            forall|k: int| 0 <= k < at ==> #[trigger] text@.subrange(k, k + part@.len()) != part@,
        decreases last - at,
    {
        let ghost here = text@.subrange(at as int, at + part@.len());
        let mut i: usize = 0;
        while i < part.len() && text[at + i] == part[i]
            invariant
                i <= part@.len(),
                at <= last,
                total == text@.len(),
                last == total - part@.len(),
                forall|k: int| 0 <= k < i ==> text@[at + k] == #[trigger] part@[k],
            decreases part@.len() - i,
        {
            i += 1;
        }
        if i == part.len() {
            assert(here =~= part@);
            return true;
        }
        assert(here[i as int] != part@[i as int]);
        if at == last {
            return false;
        }
        at += 1;
    }
}

/// Whether a file of that name is for a machine: the name holds `word`, and either the target
/// triple or the names of the system and of the processor.
pub open spec fn suits(
    name: Seq<char>,
    target: Seq<char>,
    os: Seq<char>,
    arch: Seq<char>,
    word: Seq<char>,
) -> bool {
    holds(name, word) && (holds(name, target) || (holds(name, os) && holds(name, arch)))
}

/// The first asset that is for the machine.
fn asset_for(
    assets: &Vec<ReleaseAsset>,
    target: &str,
    os: &str,
    arch: &str,
    word: &str,
) -> (found: Option<usize>)
    ensures
        match found {
            Some(i) => {
                &&& i < assets@.len()
                &&& suits(assets@[i as int].name@, target@, os@, arch@, word@)
                &&& forall|j: int|
                    0 <= j < i ==> !suits(
                        (#[trigger] assets@[j]).name@,
                        target@,
                        os@,
                        arch@,
                        word@,
                    )
            },
            None => forall|j: int|
                0 <= j < assets@.len() ==> !suits(
                    (#[trigger] assets@[j]).name@,
                    target@,
                    os@,
                    arch@,
                    word@,
                ),
        },
{
    let target_chars: Vec<char> = chars_of(target);
    let os_chars: Vec<char> = chars_of(os);
    let arch_chars: Vec<char> = chars_of(arch);
    let word_chars: Vec<char> = chars_of(word);
    let mut i: usize = 0;
    while i < assets.len()
        invariant
            i <= assets@.len(),
            target_chars@ == target@,
            os_chars@ == os@,
            arch_chars@ == arch@,
            word_chars@ == word@,
            forall|j: int|
                0 <= j < i ==> !suits((#[trigger] assets@[j]).name@, target@, os@, arch@, word@),
        decreases assets@.len() - i,
    {
        let name: Vec<char> = chars_of(assets[i].name.as_str());
        if text_holds(name.as_slice(), word_chars.as_slice()) && (text_holds(
            name.as_slice(),
            target_chars.as_slice(),
        ) || (text_holds(name.as_slice(), os_chars.as_slice()) && text_holds(
            name.as_slice(),
            arch_chars.as_slice(),
        ))) {
            return Some(i);
        }
        i += 1;
    }
    None
}

/// What an installation does first.
#[derive(Debug)]
pub enum InstallPlan {
    /// Nothing is newer: the report.
    UpToDate(String),
    /// The file to download and unpack.
    Download(ReleaseAsset),
}

/// Decides on a release, whether it is newer and which asset was found being known.
pub fn install_decision(
    current: &str,
    is_newer: bool,
    target: &str,
    asset: Option<ReleaseAsset>,
) -> (plan: Result<InstallPlan, String>)
    ensures
        !is_newer ==> (plan matches Ok(InstallPlan::UpToDate(report)) && report@ == "UpToDate("@
            + current@ + ")"@),
        is_newer && asset is Some ==> plan == Ok::<InstallPlan, String>(
            InstallPlan::Download(asset->0),
        ),
        is_newer && asset is None ==> (plan matches Err(message) && message@
            == "no portable asset found for target `"@ + target@ + "`"@),
{
    if !is_newer {
        let mut report: String = "UpToDate(".to_owned();
        report.append(current);
        report.append(")");
        return Ok(InstallPlan::UpToDate(report));
    }
    match asset {
        Some(found) => Ok(InstallPlan::Download(found)),
        None => {
            let mut message: String = "no portable asset found for target `".to_owned();
            message.append(target);
            message.append("`");
            Err(message)
        },
    }
}

/// What the installation of the first release of the list begins with. The machine is told by its
/// target triple and by the names of its system and of its processor.
pub fn install_latest(
    current: &str,
    releases: &Vec<Release>,
    target: &str,
    os: &str,
    arch: &str,
) -> (plan: Result<InstallPlan, String>)
    ensures
        releases@.len() == 0 ==> (plan matches Err(message) && message@
            == "no GitHub releases found"@),
        releases@.len() > 0 && !newer(current@, releases@[0].version@) ==> (plan matches Ok(
            InstallPlan::UpToDate(report),
        ) && report@ == "UpToDate("@ + current@ + ")"@),
        releases@.len() > 0 && newer(current@, releases@[0].version@) ==> (match plan {
            Ok(InstallPlan::UpToDate(_)) => false,
            Ok(InstallPlan::Download(asset)) => exists|i: int|
                {
                    &&& 0 <= i < releases@[0].assets@.len()
                    &&& asset.name@ == (#[trigger] releases@[0].assets@[i]).name@
                    &&& asset.download_url@ == releases@[0].assets@[i].download_url@
                    &&& suits(asset.name@, target@, os@, arch@, "portable"@)
                    &&& forall|j: int|
                        0 <= j < i ==> !suits(
                            (#[trigger] releases@[0].assets@[j]).name@,
                            target@,
                            os@,
                            arch@,
                            "portable"@,
                        )
                },
            Err(message) => message@ == "no portable asset found for target `"@ + target@ + "`"@
                && forall|i: int|
                0 <= i < releases@[0].assets@.len() ==> !suits(
                    (#[trigger] releases@[0].assets@[i]).name@,
                    target@,
                    os@,
                    arch@,
                    "portable"@,
                ),
        }),
{
    if releases.len() == 0 {
        return Err(no_releases_message().to_owned());
    }
    if !version_is_newer(current, releases[0].version.as_str()) {
        return install_decision(current, false, target, None);
    }
    let assets: &Vec<ReleaseAsset> = &releases[0].assets;
    let asset: Option<ReleaseAsset> = match asset_for(assets, target, os, arch, "portable") {
        Some(i) => Some(
            ReleaseAsset {
                name: assets[i].name.clone(),
                download_url: assets[i].download_url.clone(),
            },
        ),
        None => None,
    };
    install_decision(current, true, target, asset)
}

/// Where the application stands in an archive, directory by directory.
pub open spec fn archive_path(platform: Platform) -> Seq<Seq<char>> {
    if platform == Platform::Windows {
        seq!["net-combiner.exe"@]
    } else {
        seq!["net-combiner"@, "net-combiner"@]
    }
}

pub fn binary_path_in_archive(platform: Platform) -> (path: Vec<&'static str>)
    ensures
        str_texts(path@) == archive_path(platform),
{
    let mut path: Vec<&'static str> = Vec::new();
    match platform {
        Platform::Windows => {
            path.push("net-combiner.exe");
        },
        _ => {
            path.push("net-combiner");
            path.push("net-combiner");
        },
    }
    assert(str_texts(path@) =~= archive_path(platform));
    path
}

/// The message for an archive without the application.
pub fn missing_binary_message(path: &str) -> (message: String)
    ensures
        message@ == "update archive did not contain "@ + path@,
{
    let mut message: String = "update archive did not contain ".to_owned();
    message.append(path);
    message
}

/// The files that are updated beside the application.
pub open spec fn sidecar_files(platform: Platform) -> Seq<Seq<char>> {
    if platform == Platform::Windows {
        seq!["tun2proxy-bin.exe"@, "tun2proxy.exe"@, "wintun.dll"@]
    } else {
        seq!["tun2proxy-bin"@, "tun2proxy"@]
    }
}

pub fn sidecar_names(platform: Platform) -> (names: Vec<&'static str>)
    ensures
        str_texts(names@) == sidecar_files(platform),
{
    let mut names: Vec<&'static str> = Vec::new();
    match platform {
        Platform::Windows => {
            names.push("tun2proxy-bin.exe");
            names.push("tun2proxy.exe");
            names.push("wintun.dll");
        },
        _ => {
            names.push("tun2proxy-bin");
            names.push("tun2proxy");
        },
    }
    assert(str_texts(names@) =~= sidecar_files(platform));
    names
}

/// The permissions that a copied file gets; Windows knows none.
pub fn set_executable_if_needed(platform: Platform) -> (mode: Option<u32>)
    ensures
        mode == (if platform == Platform::Windows {
            None
        } else {
            Some(0o755u32)
        }),
{
    match platform {
        Platform::Windows => None,
        _ => Some(0o755),
    }
}

/// What became of one file beside the application.
#[derive(Debug)]
pub enum CopyOutcome {
    /// The archive does not hold it.
    Absent,
    Copied,
    Failed(String),
}

/// How many of the files were copied.
pub open spec fn copied_count(outcomes: Seq<CopyOutcome>) -> nat
    decreases outcomes.len(),
{
    if outcomes.len() == 0 {
        0
    } else {
        copied_count(outcomes.drop_last()) + (if outcomes.last() is Copied {
            1nat
        } else {
            0
        })
    }
}

/// The number of copied files, or the first failure.
pub fn copy_sidecars(outcomes: &Vec<CopyOutcome>) -> (result: Result<usize, String>)
    ensures
        result is Ok <==> forall|i: int|
            0 <= i < outcomes@.len() ==> !(#[trigger] outcomes@[i] is Failed),
        result matches Ok(count) ==> count == copied_count(outcomes@),
        result matches Err(message) ==> exists|i: int|
            {
                &&& 0 <= i < outcomes@.len()
                &&& (#[trigger] outcomes@[i]) matches CopyOutcome::Failed(text)
                &&& text@ == message@
                &&& forall|j: int| 0 <= j < i ==> !(#[trigger] outcomes@[j] is Failed)
            },
{
    let mut copied: usize = 0;
    let mut i: usize = 0;
    assert(outcomes@.take(0) =~= Seq::empty());
    while i < outcomes.len()
        invariant
            i <= outcomes@.len(),
            copied <= i,
            copied == copied_count(outcomes@.take(i as int)),
            forall|j: int| 0 <= j < i ==> !(#[trigger] outcomes@[j] is Failed),
        decreases outcomes@.len() - i,
    {
        proof {
            assert(outcomes@.take(i + 1).drop_last() =~= outcomes@.take(i as int));
            assert(outcomes@.take(i + 1).last() == outcomes@[i as int]);
        }
        match &outcomes[i] {
            CopyOutcome::Absent => {},
            CopyOutcome::Copied => {
                copied += 1;
            },
            CopyOutcome::Failed(message) => {
                assert(outcomes@[i as int] is Failed);
                return Err(message.clone());
            },
        }
        i += 1;
    }
    assert(outcomes@.take(i as int) =~= outcomes@);
    Ok(copied)
}

/// The message for a file that could not be copied.
pub fn copy_failed_message(source: &str, dest: &str) -> (message: String)
    ensures
        message@ == "failed to copy "@ + source@ + " to "@ + dest@,
{
    let mut message: String = "failed to copy ".to_owned();
    message.append(source);
    message.append(" to ");
    message.append(dest);
    message
}

/// The report on an update to `version`.
pub open spec fn installed_text(version: Seq<char>, sidecars: Result<usize, Seq<char>>) -> Seq<
    char,
> {
    let updated = "Updated("@ + version + ")"@;
    match sidecars {
        Ok(count) => if count > 0 {
            updated + "; sidecars updated: "@ + decimal(count as nat)
        } else {
            updated
        },
        Err(error) => updated + "; sidecar update skipped: "@ + error,
    }
}

pub fn install_report(version: &str, sidecars: &Result<usize, String>) -> (report: String)
    ensures
        report@ == installed_text(
            version@,
            match sidecars {
                Ok(count) => Ok(*count),
                Err(error) => Err(error@),
            },
        ),
{
    let mut report: String = "Updated(".to_owned();
    report.append(version);
    report.append(")");
    match sidecars {
        Ok(count) => if *count > 0 {
            report.append("; sidecars updated: ");
            push_decimal(&mut report, *count as u64);
        },
        Err(error) => {
            report.append("; sidecar update skipped: ");
            report.append(error.as_str());
        },
    }
    report
}

// ---------------------------------------------------------------------
// Laws
// ---------------------------------------------------------------------

/// A version is read from behind the letters `v` that the text starts with, white space around
/// the text not counting: `count` of them are left out, and no other one follows.
pub proof fn law_version_text(text: Seq<char>) -> (count: int)
    ensures
        0 <= count <= trimmed(text).len(),
        normalized(text) == trimmed(text).skip(count),
        forall|i: int| 0 <= i < count ==> #[trigger] trimmed(text)[i] == 'v',
        count < trimmed(text).len() ==> trimmed(text)[count] != 'v',
{
    lemma_leading_letters(trimmed(text))
}

proof fn lemma_leading_letters(text: Seq<char>) -> (count: int)
    ensures
        0 <= count <= text.len(),
        without_leading_v(text) == text.skip(count),
        forall|i: int| 0 <= i < count ==> #[trigger] text[i] == 'v',
        count < text.len() ==> text[count] != 'v',
    decreases text.len(),
{
    if text.len() > 0 && text[0] == 'v' {
        let rest = text.drop_first();
        let count = lemma_leading_letters(rest);
        assert(rest.skip(count) =~= text.skip(count + 1));
        assert forall|i: int| 0 <= i < count + 1 implies #[trigger] text[i] == 'v' by {
            if i > 0 {
                assert(rest[i - 1] == 'v');
            }
        }
        if count < rest.len() {
            assert(rest[count] == text[count + 1]);
        }
        count + 1
    } else {
        assert(text.skip(0) =~= text);
        0
    }
}

/// Of two versions the one with the larger numbers comes after, the first number weighing most.
pub proof fn law_order_of_numbers(
    first: (u64, u64, u64, Seq<char>, Seq<char>),
    second: (u64, u64, u64, Seq<char>, Seq<char>),
)
    ensures
        numbers_after(first, second) <==> (first.0 * 0x1_0000_0000_0000_0000 + first.1)
            * 0x1_0000_0000_0000_0000 + first.2 > (second.0 * 0x1_0000_0000_0000_0000 + second.1)
            * 0x1_0000_0000_0000_0000 + second.2,
        same_numbers(first, second) <==> (first.0 * 0x1_0000_0000_0000_0000 + first.1)
            * 0x1_0000_0000_0000_0000 + first.2 == (second.0 * 0x1_0000_0000_0000_0000 + second.1)
            * 0x1_0000_0000_0000_0000 + second.2,
{
}

/// A text that is no version is neither newer than another one nor older.
pub proof fn law_only_versions_are_newer(current: Seq<char>, latest: Seq<char>)
    ensures
        semver_parsed(normalized(current)) is None ==> !newer(current, latest) && !newer(
            latest,
            current,
        ),
        newer(current, latest) <==> semver_parsed(normalized(current)) is Some && semver_parsed(
            normalized(latest),
        ) is Some && semver_after(
            semver_parsed(normalized(latest))->0,
            semver_parsed(normalized(current))->0,
        ),
{
}

/// A text holds what stands in it, whatever stands around it.
pub proof fn law_text_around(before: Seq<char>, part: Seq<char>, after: Seq<char>)
    ensures
        holds(before + part + after, part),
{
    let text = before + part + after;
    let at = before.len() as int;
    assert(text.subrange(at, at + part.len()) =~= part);
}

/// What a text holds stands in it: the text is made of the part and of what is around it.
pub proof fn law_part_of_a_text(text: Seq<char>, part: Seq<char>) -> (around: (
    Seq<char>,
    Seq<char>,
))
    requires
        holds(text, part),
    ensures
        text == around.0 + part + around.1,
{
    let at = choose|at: int|
        0 <= at <= text.len() - part.len() && #[trigger] text.subrange(at, at + part.len()) == part;
    let around = (text.take(at), text.skip(at + part.len()));
    assert(text =~= text.take(at) + text.subrange(at, at + part.len()) + text.skip(
        at + part.len(),
    ));
    around
}

/// A file is for the machine only if its name holds the word; then the target suffices, or the
/// system and the processor together, but neither of these two alone.
pub proof fn law_files_for_the_machine(
    name: Seq<char>,
    target: Seq<char>,
    os: Seq<char>,
    arch: Seq<char>,
    word: Seq<char>,
)
    ensures
        !holds(name, word) ==> !suits(name, target, os, arch, word),
        holds(name, word) && holds(name, target) ==> suits(name, target, os, arch, word),
        holds(name, word) && holds(name, os) && holds(name, arch) ==> suits(
            name,
            target,
            os,
            arch,
            word,
        ),
        !holds(name, target) && !holds(name, os) ==> !suits(name, target, os, arch, word),
        !holds(name, target) && !holds(name, arch) ==> !suits(name, target, os, arch, word),
{
}

/// A file more counts where it was copied, and not otherwise.
pub proof fn law_copied_files_are_counted(outcomes: Seq<CopyOutcome>, outcome: CopyOutcome)
    ensures
        copied_count(Seq::empty()) == 0,
        outcome is Copied ==> copied_count(outcomes.push(outcome)) == copied_count(outcomes) + 1,
        !(outcome is Copied) ==> copied_count(outcomes.push(outcome)) == copied_count(outcomes),
{
    assert(outcomes.push(outcome).drop_last() =~= outcomes);
}

/// The report tells the version, and then how many files were copied where there were any, or why
/// none was.
pub proof fn law_report_of_an_update(version: Seq<char>, count: usize, error: Seq<char>)
    ensures
        installed_text(version, Ok(0)) == "Updated("@ + version + ")"@,
        count > 0 ==> installed_text(version, Ok(count)) == "Updated("@ + version + ")"@
            + "; sidecars updated: "@ + decimal(count as nat),
        installed_text(version, Err(error)) == "Updated("@ + version + ")"@
            + "; sidecar update skipped: "@ + error,
{
}

/// On Windows the files have their endings and a library stands beside them; elsewhere they have
/// none, and the application stands in a directory of its name.
pub proof fn law_files_of_a_release(platform: Platform)
    ensures
        platform == Platform::Windows ==> archive_path(platform) == seq!["net-combiner.exe"@]
            && sidecar_files(platform).contains("tun2proxy-bin.exe"@) && sidecar_files(
            platform,
        ).contains("tun2proxy.exe"@) && sidecar_files(platform).contains("wintun.dll"@)
            && sidecar_files(platform).len() == 3,
        platform != Platform::Windows ==> archive_path(platform) == seq![
            "net-combiner"@,
            "net-combiner"@,
        ] && sidecar_files(platform).contains("tun2proxy-bin"@) && sidecar_files(
            platform,
        ).contains("tun2proxy"@) && sidecar_files(platform).len() == 2,
{
    let files = sidecar_files(platform);
    if platform == Platform::Windows {
        assert(files[0] == "tun2proxy-bin.exe"@ && files[1] == "tun2proxy.exe"@ && files[2]
            == "wintun.dll"@);
    } else {
        assert(files[0] == "tun2proxy-bin"@ && files[1] == "tun2proxy"@);
    }
}

} // verus!

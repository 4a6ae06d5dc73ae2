//! Updates: which release is newer, what is downloaded for it and whether it is
//! intact, and how the helper that installs it is called and checked.

use crate::digest;
use crate::digest::digest_text;
use crate::number;
use crate::number::{parse_u32, push_decimal, unsigned_text};
use crate::text;
use crate::text::{
    chars_of, find_part, has_suffix, rest_after, same_text, strip_front_text, text_of, trim, Strip,
};
use vstd::prelude::*;
use vstd::string::*;
use vstd::utf8::*;

verus! {

/// The update that a release offers.
#[derive(Clone, Debug)]
pub struct UpdateInfo {
    pub version: String,
    pub asset_name: String,
    pub download_url: String,
    pub digest: Option<String>,
}

/// The update that a release offers, its texts as characters.
pub struct UpdateView {
    pub version: Seq<char>,
    pub asset_name: Seq<char>,
    pub download_url: Seq<char>,
    pub digest: Option<Seq<char>>,
}

impl View for UpdateInfo {
    type V = UpdateView;

    open spec fn view(&self) -> UpdateView {
        UpdateView {
            version: self.version@,
            asset_name: self.asset_name@,
            download_url: self.download_url@,
            digest: text::text_view(self.digest),
        }
    }
}

/// A file of a release.
#[derive(Debug)]
pub struct ReleaseAsset {
    pub name: String,
    pub download_url: String,
    pub digest: Option<String>,
}

/// A release: its tag and its files.
#[derive(Debug)]
pub struct Release {
    pub tag_name: String,
    pub assets: Vec<ReleaseAsset>,
}

/// Why a release cannot be told.
#[derive(Debug)]
pub enum ReleaseError {
    /// The text is no version, and why.
    InvalidVersion(String),
    /// The release lacks the file for this system.
    MissingAsset,
}

/// Why a release cannot be told, its texts as characters.
pub enum ReleaseFault {
    InvalidVersion(Seq<char>),
    MissingAsset,
}

impl View for ReleaseError {
    type V = ReleaseFault;

    open spec fn view(&self) -> ReleaseFault {
        match self {
            ReleaseError::InvalidVersion(cause) => ReleaseFault::InvalidVersion(cause@),
            ReleaseError::MissingAsset => ReleaseFault::MissingAsset,
        }
    }
}

impl ReleaseFault {
    /// The message that is shown for the fault.
    pub open spec fn text(self) -> Seq<char> {
        match self {
            ReleaseFault::InvalidVersion(cause) => "invalid release version: "@ + cause,
            ReleaseFault::MissingAsset => "latest release has no Windows exe asset"@,
        }
    }
}

impl ReleaseError {
    /// The message that is shown for the error.
    pub fn message(&self) -> (r: String)
        ensures
            r@ == self@.text(),
    {
        match self {
            ReleaseError::InvalidVersion(cause) => {
                let mut out = "invalid release version: ".to_owned();
                out.append(cause.as_str());
                out
            },
            ReleaseError::MissingAsset => "latest release has no Windows exe asset".to_owned(),
        }
    }
}

/// What can go wrong when an update is installed.
#[derive(Debug, Clone, Copy, PartialEq, Eq, Structural)]
pub enum UpdateError {
    /// The digest is of an unknown form.
    UnknownDigest,
    /// The downloaded file is not the one of the release.
    DigestMismatch,
    /// Only release builds are updated.
    DebugBuild,
    MissingStagedPath,
    MissingTargetPath,
    MissingProcessId,
    MissingToken,
    NoStagedDirectory,
    NoHelperDirectory,
    InvalidPaths,
    InvalidStagedName,
    InvalidTargetName,
    InvalidToken,
}

impl UpdateError {
    /// The message that is shown for the error.
    pub open spec fn text(self) -> Seq<char> {
        match self {
            UpdateError::UnknownDigest => "unsupported release digest format"@,
            UpdateError::DigestMismatch =>
                "downloaded update digest did not match release metadata"@,
            UpdateError::DebugBuild => "updates install only from release builds"@,
            UpdateError::MissingStagedPath => "missing staged update path"@,
            UpdateError::MissingTargetPath => "missing target exe path"@,
            UpdateError::MissingProcessId => "missing old process id"@,
            UpdateError::MissingToken => "missing update token"@,
            UpdateError::NoStagedDirectory => "staged update has no parent directory"@,
            UpdateError::NoHelperDirectory => "helper has no parent directory"@,
            UpdateError::InvalidPaths => "update helper paths are invalid"@,
            UpdateError::InvalidStagedName => "staged update asset name is invalid"@,
            UpdateError::InvalidTargetName => "target exe name is invalid"@,
            UpdateError::InvalidToken => "update helper token is invalid"@,
        }
    }

    /// The message that is shown for the error.
    pub fn message(self) -> (r: String)
        ensures
            r@ == self.text(),
    {
        let message = match self {
            UpdateError::UnknownDigest => "unsupported release digest format",
            UpdateError::DigestMismatch =>
                "downloaded update digest did not match release metadata",
            UpdateError::DebugBuild => "updates install only from release builds",
            UpdateError::MissingStagedPath => "missing staged update path",
            UpdateError::MissingTargetPath => "missing target exe path",
            UpdateError::MissingProcessId => "missing old process id",
            UpdateError::MissingToken => "missing update token",
            UpdateError::NoStagedDirectory => "staged update has no parent directory",
            UpdateError::NoHelperDirectory => "helper has no parent directory",
            UpdateError::InvalidPaths => "update helper paths are invalid",
            UpdateError::InvalidStagedName => "staged update asset name is invalid",
            UpdateError::InvalidTargetName => "target exe name is invalid",
            UpdateError::InvalidToken => "update helper token is invalid",
        };
        message.to_owned()
    }
}

// ---------------------------------------------------------------------------
// Versions
// ---------------------------------------------------------------------------

/// A version: its three numbers, what marks it as a pre-release, and its build
/// metadata.
#[derive(Debug)]
pub struct ReleaseVersion {
    pub major: u64,
    pub minor: u64,
    pub patch: u64,
    pub pre: String,
    pub build: String,
}

/// A version, its texts as characters.
pub struct VersionView {
    pub major: u64,
    pub minor: u64,
    pub patch: u64,
    pub pre: Seq<char>,
    pub build: Seq<char>,
}

impl View for ReleaseVersion {
    type V = VersionView;

    open spec fn view(&self) -> VersionView {
        VersionView {
            major: self.major,
            minor: self.minor,
            patch: self.patch,
            pre: self.pre@,
            build: self.build@,
        }
    }
}

/// What a text says as a semantic version (major, minor, patch, pre-release and
/// build metadata), or the message that says why it is none.
pub uninterp spec fn semver_parsed(text: Seq<char>) -> Result<
    (u64, u64, u64, Seq<char>, Seq<char>),
    Seq<char>,
>;

/// One pre-release comes before another.
pub uninterp spec fn pre_release_before(a: Seq<char>, b: Seq<char>) -> bool;

/// One piece of build metadata comes before another.
pub uninterp spec fn build_before(a: Seq<char>, b: Seq<char>) -> bool;

/// `semver::Version::parse`: whether the text is a version, which one it is, and
/// the message of the error where it is none, depend on the text alone.
#[verifier::external_body]
fn read_version(text: &str) -> (r: Result<ReleaseVersion, String>)
    ensures
        match r {
            Ok(v) => semver_parsed(text@) is Ok && semver_parsed(text@)->Ok_0 == (
                v.major,
                v.minor,
                v.patch,
                v.pre@,
                v.build@,
            ),
            Err(cause) => semver_parsed(text@) is Err && semver_parsed(text@)->Err_0 == cause@,
        },
{
    let version = semver::Version::parse(text).map_err(|error| error.to_string())?;
    Ok(
        ReleaseVersion {
            major: version.major,
            minor: version.minor,
            patch: version.patch,
            pre: version.pre.as_str().to_owned(),
            build: version.build.as_str().to_owned(),
        },
    )
}

/// `<` on `semver::Prerelease`: which of two pre-releases comes first depends on
/// their texts alone. A text that is no pre-release comes before those that
/// are.
#[verifier::external_body]
fn is_pre_release_before(a: &str, b: &str) -> (r: bool)
    ensures
        r == pre_release_before(a@, b@),
{
    semver::Prerelease::new(a).ok() < semver::Prerelease::new(b).ok()
}

/// `<` on `semver::BuildMetadata`: which of two pieces of build metadata comes
/// first depends on their texts alone. A text that is no build metadata comes
/// before those that are.
#[verifier::external_body]
fn is_build_before(a: &str, b: &str) -> (r: bool)
    ensures
        r == build_before(a@, b@),
{
    semver::BuildMetadata::new(a).ok() < semver::BuildMetadata::new(b).ok()
}

/// What of a tag is read as a version: what is left without white space around
/// it and without the letter v before it.
pub open spec fn version_part(tag: Seq<char>) -> Seq<char> {
    text::strip_front(text::trimmed(tag), Strip::Only('v'))
}

/// The version that a tag names, or why it names none.
pub open spec fn version_of(tag: Seq<char>) -> Result<VersionView, ReleaseFault> {
    match semver_parsed(version_part(tag)) {
        Ok((major, minor, patch, pre, build)) => Ok(
            VersionView { major, minor, patch, pre, build },
        ),
        Err(cause) => Err(ReleaseFault::InvalidVersion(cause)),
    }
}

/// A tag is read the same with a letter v before it and without it, and with
/// white space around it and without it; and what has neither is read as it is.
pub proof fn tag_is_read_without_its_v(tag: Seq<char>)
    requires
        tag.len() > 0,
        !text::is_white(tag[0]),
        !text::is_white(tag.last()),
    ensures
        version_of(seq!['v'] + tag) == version_of(tag),
        tag[0] != 'v' ==> version_part(tag) == tag,
        forall|padded: Seq<char>| #[trigger]
            text::trimmed(padded) == tag ==> version_of(padded) == version_of(tag),
{
    let (a, b) = text::stripping_takes_only_the_ends(tag, Strip::White);
    assert(a == 0 && b == tag.len()) by {
        assert(!Strip::White.hits(tag[0]));
        assert(!Strip::White.hits(tag[tag.len() - 1]));
    }
    assert(tag.subrange(0, tag.len() as int) =~= tag);
    assert(text::trimmed(tag) == tag);
    let named = seq!['v'] + tag;
    let (c, d) = text::stripping_takes_only_the_ends(named, Strip::White);
    assert(c == 0 && d == named.len()) by {
        assert(!Strip::White.hits(named[0]));
        assert(!Strip::White.hits(named[named.len() - 1]));
    }
    assert(named.subrange(0, named.len() as int) =~= named);
    assert(text::trimmed(named) == named);
    assert(named.drop_first() =~= tag);
    assert(text::strip_front(named, Strip::Only('v')) == text::strip_front(tag, Strip::Only('v')));
}

/// What a reading of a version returned, its texts as characters.
pub open spec fn version_result(r: Result<ReleaseVersion, ReleaseError>) -> Result<
    VersionView,
    ReleaseFault,
> {
    match r {
        Ok(version) => Ok(version@),
        Err(error) => Err(error@),
    }
}

/// Reads the version that a tag names.
pub fn parse_version(value: &str) -> (r: Result<ReleaseVersion, ReleaseError>)
    ensures
        version_result(r) == version_of(value@),
{
    let part = strip_front_text(trim(value).as_str(), Strip::Only('v'));
    match read_version(part.as_str()) {
        Ok(version) => Ok(version),
        Err(cause) => Err(ReleaseError::InvalidVersion(cause)),
    }
}

/// One version is newer than another: by the first of its parts in which they
/// differ.
pub open spec fn is_newer(a: VersionView, b: VersionView) -> bool {
    is_newer_by(a, b, pre_release_before(b.pre, a.pre), build_before(b.build, a.build))
}

/// One version is newer than another, given whether its pre-release and its
/// build metadata come later.
pub open spec fn is_newer_by(
    a: VersionView,
    b: VersionView,
    later_pre: bool,
    later_build: bool,
) -> bool {
    if a.major != b.major {
        a.major > b.major
    } else if a.minor != b.minor {
        a.minor > b.minor
    } else if a.patch != b.patch {
        a.patch > b.patch
    } else if a.pre != b.pre {
        later_pre
    } else {
        a.build != b.build && later_build
    }
}

/// The numbers of a version, the one that counts most first.
pub open spec fn numbers(v: VersionView) -> Seq<u64> {
    seq![v.major, v.minor, v.patch]
}

/// One version is newer than another by its numbers just where it has the larger
/// one at the first place where they differ. Where none differs its pre-release
/// decides, then its build metadata; and of two versions that differ in a number
/// just one is newer.
pub proof fn first_different_number_decides(
    a: VersionView,
    b: VersionView,
    later_pre: bool,
    later_build: bool,
    other_pre: bool,
    other_build: bool,
)
    ensures
        numbers(a) != numbers(b) ==> {
            &&& is_newer_by(a, b, later_pre, later_build) <==> exists|i: int|
                0 <= i < 3 && #[trigger] numbers(a)[i] > numbers(b)[i] && forall|j: int|
                    0 <= j < i ==> #[trigger] numbers(a)[j] == numbers(b)[j]
            &&& is_newer_by(a, b, later_pre, later_build) <==> !is_newer_by(
                b,
                a,
                other_pre,
                other_build,
            )
        },
        numbers(a) == numbers(b) && a.pre != b.pre ==> is_newer_by(a, b, later_pre, later_build)
            == later_pre,
        numbers(a) == numbers(b) && a.pre == b.pre && a.build != b.build ==> is_newer_by(
            a,
            b,
            later_pre,
            later_build,
        ) == later_build,
        a == b ==> !is_newer_by(a, b, later_pre, later_build),
        is_newer(a, b) == is_newer_by(
            a,
            b,
            pre_release_before(b.pre, a.pre),
            build_before(b.build, a.build),
        ),
{
    let x = numbers(a);
    let y = numbers(b);
    assert(x == y <==> x =~= y);
    if x == y {
        assert(x[0] == y[0] && x[1] == y[1] && x[2] == y[2]);
    } else if is_newer_by(a, b, later_pre, later_build) {
        if a.major != b.major {
            assert(x[0] > y[0]);
        } else if a.minor != b.minor {
            assert(x[1] > y[1]);
        } else {
            assert(x[2] > y[2]);
        }
    } else {
        if a.major != b.major {
            assert(x[0] < y[0]);
        } else if a.minor != b.minor {
            assert(x[0] == y[0] && x[1] < y[1]);
        } else {
            assert(x[0] == y[0] && x[1] == y[1] && x[2] < y[2]);
        }
    }
}

/// Whether one version is newer than another, given whether its pre-release and
/// its build metadata come later.
pub fn newer_by(
    a: &ReleaseVersion,
    b: &ReleaseVersion,
    later_pre: bool,
    later_build: bool,
) -> (r: bool)
    ensures
        r == is_newer_by(a@, b@, later_pre, later_build),
{
    if a.major != b.major {
        a.major > b.major
    } else if a.minor != b.minor {
        a.minor > b.minor
    } else if a.patch != b.patch {
        a.patch > b.patch
    } else if !same_text(a.pre.as_str(), b.pre.as_str()) {
        later_pre
    } else {
        !same_text(a.build.as_str(), b.build.as_str()) && later_build
    }
}

/// Whether one version is newer than another.
pub fn newer_version(a: &ReleaseVersion, b: &ReleaseVersion) -> (r: bool)
    ensures
        r == is_newer(a@, b@),
{
    let later_pre = is_pre_release_before(b.pre.as_str(), a.pre.as_str());
    let later_build = is_build_before(b.build.as_str(), a.build.as_str());
    newer_by(a, b, later_pre, later_build)
}

/// How a version is written.
pub open spec fn version_text(v: VersionView) -> Seq<char> {
    number::decimal(v.major as nat) + "."@ + number::decimal(v.minor as nat) + "."@
        + number::decimal(v.patch as nat) + (if v.pre.len() > 0 {
        "-"@ + v.pre
    } else {
        Seq::empty()
    }) + (if v.build.len() > 0 {
        "+"@ + v.build
    } else {
        Seq::empty()
    })
}

/// A version is written as its numbers with points between them, then its
/// pre-release behind a hyphen and its build metadata behind a plus sign, where it
/// has them.
pub proof fn version_is_written_in_its_parts(v: VersionView)
    ensures
        v.pre.len() == 0 && v.build.len() == 0 ==> version_text(v) == text::joined(
            seq![
                number::decimal(v.major as nat),
                number::decimal(v.minor as nat),
                number::decimal(v.patch as nat),
            ],
            "."@,
        ),
        v.pre.len() > 0 && v.build.len() == 0 ==> version_text(v) == version_text(
            VersionView { pre: Seq::empty(), ..v },
        ) + "-"@ + v.pre,
        v.build.len() > 0 ==> version_text(v) == version_text(
            VersionView { build: Seq::empty(), ..v },
        ) + "+"@ + v.build,
{
    let major = number::decimal(v.major as nat);
    let minor = number::decimal(v.minor as nat);
    let patch = number::decimal(v.patch as nat);
    let parts = seq![major, minor, patch];
    reveal_with_fuel(text::joined, 3);
    assert(parts.drop_last() =~= seq![major, minor]);
    assert(seq![major, minor].drop_last() =~= seq![major]);
    if v.build.len() > 0 {
        let plain = VersionView { build: Seq::empty(), ..v };
        assert(version_text(v) =~= version_text(plain) + "+"@ + v.build);
    } else if v.pre.len() > 0 {
        let plain = VersionView { pre: Seq::empty(), ..v };
        assert(version_text(v) =~= version_text(plain) + "-"@ + v.pre);
    } else {
        assert(version_text(v) =~= text::joined(parts, "."@));
    }
}

/// Writes a version.
pub fn write_version(version: &ReleaseVersion) -> (r: String)
    ensures
        r@ == version_text(version@),
{
    let mut out = String::new();
    push_decimal(&mut out, version.major);
    out.append(".");
    push_decimal(&mut out, version.minor);
    out.append(".");
    push_decimal(&mut out, version.patch);
    if !version.pre.as_str().is_empty() {
        out.append("-");
        out.append(version.pre.as_str());
    }
    if !version.build.as_str().is_empty() {
        out.append("+");
        out.append(version.build.as_str());
    }
    assert(out@ =~= version_text(version@));
    out
}

// ---------------------------------------------------------------------------
// The update that a release offers
// ---------------------------------------------------------------------------

/// The file that a release of a version holds for this system.
pub open spec fn asset_name(version: VersionView) -> Seq<char> {
    "a_fast_clipboard-v"@ + version_text(version) + "-windows-x64.exe"@
}

/// The update that a file of a release is.
pub open spec fn offer(tag: Seq<char>, asset: ReleaseAsset) -> UpdateView {
    UpdateView {
        version: text::strip_front(tag, Strip::Only('v')),
        asset_name: asset.name@,
        download_url: asset.download_url@,
        digest: text::text_view(asset.digest),
    }
}

/// An update is the file of the release as the release tells of it, under the tag
/// without the letter v before it.
pub proof fn offer_tells_of_the_file(tag: Seq<char>, asset: ReleaseAsset)
    ensures
        ({
            let update = offer(tag, asset);
            &&& update.asset_name == asset.name@
            &&& update.download_url == asset.download_url@
            &&& update.digest is Some <==> asset.digest is Some
            &&& asset.digest is Some ==> update.digest->Some_0 == asset.digest->Some_0@
            &&& tag.len() == 0 || tag[0] != 'v' ==> update.version == tag
            &&& offer(seq!['v'] + tag, asset).version == update.version
        }),
{
    assert((seq!['v'] + tag).drop_first() =~= tag);
}

/// The file for this system is named after the program, the version and the
/// system, with the version as it is written between them.
pub proof fn file_is_named_after_its_version(version: VersionView)
    ensures
        ({
            let name = asset_name(version);
            let written = version_text(version);
            &&& name.len() == 18 + written.len() + 16
            &&& name.take(18) == "a_fast_clipboard-v"@
            &&& name.subrange(18, 18int + written.len()) == written
            &&& name.skip(18int + written.len()) == "-windows-x64.exe"@
        }),
{
    let name = asset_name(version);
    let written = version_text(version);
    reveal_strlit("a_fast_clipboard-v");
    reveal_strlit("-windows-x64.exe");
    assert(name.take(18) =~= "a_fast_clipboard-v"@);
    assert(name.subrange(18, 18int + written.len()) =~= written);
    assert(name.skip(18int + written.len()) =~= "-windows-x64.exe"@);
}

/// The first file of the given name.
pub open spec fn is_first_named(assets: Seq<ReleaseAsset>, name: Seq<char>, i: int) -> bool {
    &&& 0 <= i < assets.len()
    &&& assets[i].name@ == name
    &&& forall|k: int| 0 <= k < i ==> (#[trigger] assets[k]).name@ != name
}

/// Of the files with a name there is just one that is the first, and there is one
/// as soon as any file has the name, at its place or before it.
pub proof fn one_file_is_the_first(
    assets: Seq<ReleaseAsset>,
    name: Seq<char>,
    i: int,
    j: int,
) -> (first: int)
    ensures
        is_first_named(assets, name, i) && is_first_named(assets, name, j) ==> i == j,
        is_first_named(assets, name, i) ==> 0 <= i < assets.len() && assets[i].name@ == name,
        0 <= j < assets.len() && assets[j].name@ == name ==> first <= j && is_first_named(
            assets,
            name,
            first,
        ),
    decreases j,
{
    if 0 <= j < assets.len() && assets[j].name@ == name {
        if exists|k: int| 0 <= k < j && (#[trigger] assets[k]).name@ == name {
            let k = choose|k: int| 0 <= k < j && (#[trigger] assets[k]).name@ == name;
            one_file_is_the_first(assets, name, i, k)
        } else {
            j
        }
    } else {
        j
    }
}

/// The update that a release of one version offers to a program of another: the
/// file for this system, if the version of the release is newer.
pub fn choose_update(
    release: &Release,
    latest: &ReleaseVersion,
    current: &ReleaseVersion,
) -> (r: Result<Option<UpdateInfo>, ReleaseError>)
    ensures
        match r {
            Ok(None) => !is_newer(latest@, current@),
            Ok(Some(info)) => is_newer(latest@, current@) && exists|i: int|
                is_first_named(release.assets@, asset_name(latest@), i) && info@ == offer(
                    release.tag_name@,
                    #[trigger] release.assets@[i],
                ),
            Err(error) => is_newer(latest@, current@) && error@ == ReleaseFault::MissingAsset
                && forall|i: int|
                0 <= i < release.assets@.len() ==> (#[trigger] release.assets@[i]).name@
                    != asset_name(latest@),
        },
{
    if !newer_version(latest, current) {
        return Ok(None);
    }
    let mut expected = "a_fast_clipboard-v".to_owned();
    expected.append(write_version(latest).as_str());
    expected.append("-windows-x64.exe");
    let mut i: usize = 0;
    while i < release.assets.len()
        invariant
            is_newer(latest@, current@),
            expected@ == asset_name(latest@),
            i <= release.assets@.len(),
            forall|k: int|
                0 <= k < i ==> (#[trigger] release.assets@[k]).name@ != asset_name(latest@),
        decreases release.assets@.len() - i,
    {
        let asset = &release.assets[i];
        if same_text(asset.name.as_str(), expected.as_str()) {
            let digest = match &asset.digest {
                Some(digest) => Some(digest.clone()),
                None => None,
            };
            let info = UpdateInfo {
                version: strip_front_text(release.tag_name.as_str(), Strip::Only('v')),
                asset_name: asset.name.clone(),
                download_url: asset.download_url.clone(),
                digest,
            };
            assert(is_first_named(release.assets@, asset_name(latest@), i as int));
            assert(info@ == offer(release.tag_name@, release.assets@[i as int]));
            return Ok(Some(info));
        }
        i = i + 1;
    }
    Err(ReleaseError::MissingAsset)
}

/// The update that a release offers to a program of the given version.
pub fn latest_update(release: &Release, current: &str) -> (r: Result<
    Option<UpdateInfo>,
    ReleaseError,
>)
    ensures
        match (version_of(release.tag_name@), version_of(current@)) {
            (Err(fault), _) => r is Err && r->Err_0@ == fault,
            (Ok(_), Err(fault)) => r is Err && r->Err_0@ == fault,
            (Ok(latest), Ok(running)) => match r {
                Ok(None) => !is_newer(latest, running),
                Ok(Some(info)) => is_newer(latest, running) && exists|i: int|
                    is_first_named(release.assets@, asset_name(latest), i) && info@ == offer(
                        release.tag_name@,
                        #[trigger] release.assets@[i],
                    ),
                Err(error) => is_newer(latest, running) && error@ == ReleaseFault::MissingAsset
                    && forall|i: int|
                    0 <= i < release.assets@.len() ==> (#[trigger] release.assets@[i]).name@
                        != asset_name(latest),
            },
        },
{
    let latest = match parse_version(release.tag_name.as_str()) {
        Ok(version) => version,
        Err(error) => return Err(error),
    };
    let running = match parse_version(current) {
        Ok(version) => version,
        Err(error) => return Err(error),
    };
    choose_update(release, &latest, &running)
}

/// A release of the running version offers nothing.
pub proof fn same_version_is_not_newer(version: VersionView)
    ensures
        !is_newer(version, version),
{
}

/// Where the latest release is asked for.
pub fn release_url() -> (r: String)
    ensures
        r@ == "https://api.github.com/repos/FelixAllistar/a_fast_clipboard/releases/latest"@,
{
    "https://api.github.com/repos/FelixAllistar/a_fast_clipboard/releases/latest".to_owned()
}

/// How the program names itself when it asks.
pub fn user_agent(version: &str) -> (r: String)
    ensures
        r@ == "a_fast_clipboard/"@ + version@,
{
    let mut out = "a_fast_clipboard/".to_owned();
    out.append(version);
    out
}

// ---------------------------------------------------------------------------
// The downloaded file
// ---------------------------------------------------------------------------

/// What the digest of a release says of a downloaded file with the given
/// hexadecimal digest.
pub open spec fn digest_verdict(actual: Seq<char>, expected: Seq<char>) -> Option<UpdateError> {
    match text::after_prefix(expected, "sha256:"@) {
        None => Some(UpdateError::UnknownDigest),
        Some(hex) => if actual == hex {
            None
        } else {
            Some(UpdateError::DigestMismatch)
        },
    }
}

/// A downloaded file passes just where the release gives its digest, behind the
/// name of the way to compute it; another way is not known.
pub proof fn only_the_digest_of_the_file_passes(actual: Seq<char>, expected: Seq<char>)
    ensures
        digest_verdict(actual, expected) is None <==> expected == "sha256:"@ + actual,
        digest_verdict(actual, expected) == Some(UpdateError::UnknownDigest) <==> expected.len() < 7
            || expected.take(7) != "sha256:"@,
        digest_verdict(actual, expected) is Some ==> digest_verdict(actual, expected) == Some(
            UpdateError::UnknownDigest,
        ) || digest_verdict(actual, expected) == Some(UpdateError::DigestMismatch),
{
    reveal_strlit("sha256:");
    text::prefix_and_rest_make_the_text(expected, "sha256:"@, actual);
}

/// What a check returned as the error, if any.
pub open spec fn error_of(r: Result<(), UpdateError>) -> Option<UpdateError> {
    match r {
        Ok(_) => None,
        Err(error) => Some(error),
    }
}

/// Checks a hexadecimal digest against the one of a release.
pub fn compare_digest(actual: &str, expected_digest: &str) -> (r: Result<(), UpdateError>)
    ensures
        error_of(r) == digest_verdict(actual@, expected_digest@),
{
    match rest_after(&chars_of(expected_digest), "sha256:") {
        None => Err(UpdateError::UnknownDigest),
        Some(rest) => {
            let expected = text_of(&rest, 0, rest.len());
            assert(rest@.subrange(0, rest@.len() as int) =~= rest@);
            if same_text(actual, expected.as_str()) {
                Ok(())
            } else {
                Err(UpdateError::DigestMismatch)
            }
        },
    }
}

/// Checks a downloaded file against the digest of its release.
pub fn verify_digest(bytes: &Vec<u8>, expected_digest: &str) -> (r: Result<(), UpdateError>)
    ensures
        error_of(r) == digest_verdict(digest::sha256_hex(bytes@), expected_digest@),
{
    compare_digest(digest_text(bytes).as_str(), expected_digest)
}

/// Checks a downloaded file against the digest of its release, if the release
/// has one.
pub fn check_download(bytes: &Vec<u8>, digest: Option<&str>) -> (r: Result<(), UpdateError>)
    ensures
        error_of(r) == (match digest {
            Some(expected) => digest_verdict(digest::sha256_hex(bytes@), expected@),
            None => None,
        }),
{
    match digest {
        Some(expected) => verify_digest(bytes, expected),
        None => Ok(()),
    }
}

/// The file extension under which a file is downloaded.
pub fn download_extension(pid: u32) -> (r: String)
    ensures
        r@ == "download-"@ + number::decimal(pid as nat),
{
    let mut out = "download-".to_owned();
    push_decimal(&mut out, pid as u64);
    out
}

// ---------------------------------------------------------------------------
// The helper
// ---------------------------------------------------------------------------

/// The text whose digest shows that a helper was called by a program of this
/// version.
pub open spec fn token_text(old_pid: nat, version: Seq<char>) -> Seq<char> {
    "a_fast_clipboard:update:"@ + number::decimal(old_pid) + ":"@ + version
}

/// The token for a helper.
pub open spec fn token(old_pid: nat, version: Seq<char>) -> Seq<char> {
    digest::sha256_hex(encode_utf8(token_text(old_pid, version)))
}

/// A token is made of the name of its purpose, the old process and the version, with
/// colons between them.
pub proof fn token_names_process_and_version(old_pid: nat, version: Seq<char>)
    ensures
        token_text(old_pid, version) == text::joined(
            seq!["a_fast_clipboard"@, "update"@, number::decimal(old_pid), version],
            seq![':'],
        ),
        token(old_pid, version) == digest::sha256_hex(encode_utf8(token_text(old_pid, version))),
{
    let pid = number::decimal(old_pid);
    let a = "a_fast_clipboard"@;
    let b = "update"@;
    reveal_strlit("a_fast_clipboard:update:");
    reveal_strlit("a_fast_clipboard");
    reveal_strlit("update");
    reveal_strlit(":");
    assert("a_fast_clipboard:update:"@ =~= a + seq![':'] + b + seq![':']);
    assert(":"@ =~= seq![':']);
    reveal_with_fuel(text::joined, 4);
    let parts = seq![a, b, pid, version];
    assert(parts.drop_last() =~= seq![a, b, pid]);
    assert(seq![a, b, pid].drop_last() =~= seq![a, b]);
    assert(seq![a, b].drop_last() =~= seq![a]);
    assert(token_text(old_pid, version) =~= text::joined(parts, seq![':']));
}

/// The text whose digest is the token for a helper.
pub fn token_material(old_pid: u32, version: &str) -> (r: String)
    ensures
        r@ == token_text(old_pid as nat, version@),
{
    let mut out = "a_fast_clipboard:update:".to_owned();
    push_decimal(&mut out, old_pid as u64);
    out.append(":");
    out.append(version);
    out
}

/// The token for a helper.
pub fn update_token(old_pid: u32, version: &str) -> (r: String)
    ensures
        r@ == token(old_pid as nat, version@),
{
    let material = token_material(old_pid, version);
    let mut bytes: Vec<u8> = Vec::new();
    bytes.extend_from_slice(material.as_str().as_bytes());
    assert(bytes@ =~= encode_utf8(material@));
    digest_text(&bytes)
}

/// The arguments with which the helper is called.
pub open spec fn helper_arguments(
    staged: Seq<char>,
    target: Seq<char>,
    old_pid: nat,
    token: Seq<char>,
) -> Seq<Seq<char>> {
    seq!["--apply-update"@, staged, target, number::decimal(old_pid), token]
}

/// The arguments with which the helper is called to install a staged file in
/// the place of the running program.
pub fn stage_and_launch_update(
    debug_build: bool,
    staged: &str,
    target: &str,
    old_pid: u32,
    version: &str,
) -> (r: Result<Vec<String>, UpdateError>)
    ensures
        match r {
            Ok(args) => !debug_build && text::views(args@) == helper_arguments(
                staged@,
                target@,
                old_pid as nat,
                token(old_pid as nat, version@),
            ),
            Err(error) => debug_build && error == UpdateError::DebugBuild,
        },
{
    if debug_build {
        return Err(UpdateError::DebugBuild);
    }
    let mut args: Vec<String> = Vec::new();
    args.push("--apply-update".to_owned());
    args.push(staged.to_owned());
    args.push(target.to_owned());
    args.push(unsigned_text(old_pid as u64));
    args.push(update_token(old_pid, version));
    assert(text::views(args@) =~= helper_arguments(
        staged@,
        target@,
        old_pid as nat,
        token(old_pid as nat, version@),
    ));
    Ok(args)
}

/// What the helper is asked to do: to put the staged file in the place of the
/// target once the old process has ended.
#[derive(Debug)]
pub struct HelperRequest {
    pub staged: String,
    pub target: String,
    pub old_pid: u32,
    pub token: String,
}

/// What the helper is asked to do, its texts as characters.
pub struct RequestView {
    pub staged: Seq<char>,
    pub target: Seq<char>,
    pub old_pid: u32,
    pub token: Seq<char>,
}

impl View for HelperRequest {
    type V = RequestView;

    open spec fn view(&self) -> RequestView {
        RequestView {
            staged: self.staged@,
            target: self.target@,
            old_pid: self.old_pid,
            token: self.token@,
        }
    }
}

/// What the arguments of the program ask the helper to do, if they are for the
/// helper.
pub open spec fn helper_request(args: Seq<Seq<char>>) -> Result<Option<RequestView>, UpdateError> {
    if args.len() == 0 || args[0] != "--apply-update"@ {
        Ok(None)
    } else if args.len() < 2 {
        Err(UpdateError::MissingStagedPath)
    } else if args.len() < 3 {
        Err(UpdateError::MissingTargetPath)
    } else if args.len() < 4 {
        Err(UpdateError::MissingProcessId)
    } else {
        match number::unsigned_value(args[3], 10, u32::MAX as int) {
            None => Err(UpdateError::MissingProcessId),
            Some(pid) => if args.len() < 5 {
                Err(UpdateError::MissingToken)
            } else {
                Ok(
                    Some(
                        RequestView {
                            staged: args[1],
                            target: args[2],
                            old_pid: pid as u32,
                            token: args[4],
                        },
                    ),
                )
            },
        }
    }
}

/// The arguments are for the helper just where the first of them says so. Then the
/// staged file, the target, the old process and the token follow in this order,
/// what comes behind them does not count, and the first that is missing is told.
pub proof fn helper_reads_its_arguments(args: Seq<Seq<char>>)
    ensures
        ({
            let called = args.len() > 0 && args[0] == "--apply-update"@;
            let pid = number::unsigned_value(args[3], 10, 0xffff_ffff);
            match helper_request(args) {
                Ok(None) => !called,
                Ok(Some(request)) => {
                    &&& called && args.len() >= 5
                    &&& request.staged == args[1]
                    &&& request.target == args[2]
                    &&& pid == Some(request.old_pid as int)
                    &&& request.token == args[4]
                },
                Err(UpdateError::MissingStagedPath) => called && args.len() == 1,
                Err(UpdateError::MissingTargetPath) => called && args.len() == 2,
                Err(UpdateError::MissingProcessId) => called && (args.len() == 3 || args.len() > 3
                    && pid is None),
                Err(UpdateError::MissingToken) => called && args.len() == 4 && pid is Some,
                Err(_) => false,
            }
        }),
{
    if args.len() > 3 {
        number::lemma_read_number_is_not_negative(args[3], 10, 0xffff_ffff);
    }
}

/// What a reading of the arguments returned, its texts as characters.
pub open spec fn request_result(r: Result<Option<HelperRequest>, UpdateError>) -> Result<
    Option<RequestView>,
    UpdateError,
> {
    match r {
        Ok(Some(request)) => Ok(Some(request@)),
        Ok(None) => Ok(None),
        Err(error) => Err(error),
    }
}

/// What the arguments of the program ask the helper to do, if they are for the
/// helper.
pub fn apply_update_from_args(args: &Vec<String>) -> (r: Result<
    Option<HelperRequest>,
    UpdateError,
>)
    ensures
        request_result(r) == helper_request(text::views(args@)),
{
    let ghost all = text::views(args@);
    if args.len() == 0 || !same_text(args[0].as_str(), "--apply-update") {
        return Ok(None);
    }
    if args.len() < 2 {
        return Err(UpdateError::MissingStagedPath);
    }
    if args.len() < 3 {
        return Err(UpdateError::MissingTargetPath);
    }
    if args.len() < 4 {
        return Err(UpdateError::MissingProcessId);
    }
    assert(all[3] == args@[3]@);
    let old_pid: u32 = match parse_u32(args[3].as_str()) {
        Some(pid) => pid,
        None => return Err(UpdateError::MissingProcessId),
    };
    if args.len() < 5 {
        return Err(UpdateError::MissingToken);
    }
    Ok(
        Some(
            HelperRequest {
                staged: args[1].clone(),
                target: args[2].clone(),
                old_pid,
                token: args[4].clone(),
            },
        ),
    )
}

/// What is known of the files that a helper is called for: whether the staged
/// file and the helper stand in the update directory, if they stand in any, and
/// the names of the staged file and the target, if they have one.
#[derive(Debug)]
pub struct HelperFacts {
    pub staged_in_place: Option<bool>,
    pub helper_in_place: Option<bool>,
    pub staged_name: Option<String>,
    pub target_name: Option<String>,
}

/// The name is that of a file of a release for this system.
pub open spec fn is_asset_name(name: Seq<char>) -> bool {
    text::after_prefix(name, "a_fast_clipboard-v"@) is Some && "-windows-x64.exe"@.is_suffix_of(
        name,
    )
}

/// Why a helper must not do what it is asked to, given the token that it should
/// have got.
pub open spec fn helper_verdict(
    facts: HelperFacts,
    token: Seq<char>,
    expected_token: Seq<char>,
) -> Option<UpdateError> {
    if facts.staged_in_place is None {
        Some(UpdateError::NoStagedDirectory)
    } else if facts.helper_in_place is None {
        Some(UpdateError::NoHelperDirectory)
    } else if facts.helper_in_place == Some(false) || facts.staged_in_place == Some(false) {
        Some(UpdateError::InvalidPaths)
    } else if facts.staged_name is None || !is_asset_name(facts.staged_name->Some_0@) {
        Some(UpdateError::InvalidStagedName)
    } else if facts.target_name is None || facts.target_name->Some_0@ != "a_fast_clipboard.exe"@ {
        Some(UpdateError::InvalidTargetName)
    } else if token != expected_token {
        Some(UpdateError::InvalidToken)
    } else {
        None
    }
}

/// A helper does what it is asked to just where the staged file and it stand in
/// the update directory, the staged file is named as one of a release, the target
/// as the program, and the token is the expected one. The first of these that
/// does not hold is told.
pub proof fn helper_asks_for_everything(
    facts: HelperFacts,
    token: Seq<char>,
    expected_token: Seq<char>,
)
    ensures
        ({
            let in_place = facts.staged_in_place == Some(true) && facts.helper_in_place == Some(
                true,
            );
            let staged = facts.staged_name is Some && "a_fast_clipboard-v"@.is_prefix_of(
                facts.staged_name->Some_0@,
            ) && "-windows-x64.exe"@.is_suffix_of(facts.staged_name->Some_0@);
            let target = facts.target_name is Some && facts.target_name->Some_0@
                == "a_fast_clipboard.exe"@;
            match helper_verdict(facts, token, expected_token) {
                None => in_place && staged && target && token == expected_token,
                Some(UpdateError::NoStagedDirectory) => facts.staged_in_place is None,
                Some(UpdateError::NoHelperDirectory) => facts.staged_in_place is Some
                    && facts.helper_in_place is None,
                Some(UpdateError::InvalidPaths) => facts.staged_in_place is Some
                    && facts.helper_in_place is Some && !in_place,
                Some(UpdateError::InvalidStagedName) => in_place && !staged,
                Some(UpdateError::InvalidTargetName) => in_place && staged && !target,
                Some(UpdateError::InvalidToken) => in_place && staged && target && token
                    != expected_token,
                Some(_) => false,
            }
        }),
{
    if facts.staged_in_place is Some {
        assert(facts.staged_in_place->Some_0 || facts.staged_in_place == Some(false));
    }
    if facts.helper_in_place is Some {
        assert(facts.helper_in_place->Some_0 || facts.helper_in_place == Some(false));
    }
}

/// Whether a helper may do what it is asked to, given the token that it should
/// have got.
pub fn check_helper_request(facts: &HelperFacts, token: &str, expected_token: &str) -> (r: Result<
    (),
    UpdateError,
>)
    ensures
        error_of(r) == helper_verdict(*facts, token@, expected_token@),
{
    let staged_in_place = match facts.staged_in_place {
        Some(in_place) => in_place,
        None => return Err(UpdateError::NoStagedDirectory),
    };
    let helper_in_place = match facts.helper_in_place {
        Some(in_place) => in_place,
        None => return Err(UpdateError::NoHelperDirectory),
    };
    if !helper_in_place || !staged_in_place {
        return Err(UpdateError::InvalidPaths);
    }
    match &facts.staged_name {
        Some(name) => {
            let chars = chars_of(name.as_str());
            if rest_after(&chars, "a_fast_clipboard-v").is_none() || !has_suffix(
                &chars,
                "-windows-x64.exe",
            ) {
                return Err(UpdateError::InvalidStagedName);
            }
        },
        None => return Err(UpdateError::InvalidStagedName),
    }
    match &facts.target_name {
        Some(name) => {
            if !same_text(name.as_str(), "a_fast_clipboard.exe") {
                return Err(UpdateError::InvalidTargetName);
            }
        },
        None => return Err(UpdateError::InvalidTargetName),
    }
    if !same_text(token, expected_token) {
        return Err(UpdateError::InvalidToken);
    }
    Ok(())
}

/// Whether a helper of the given version may do what it is asked to.
pub fn validate_helper_request(request: &HelperRequest, facts: &HelperFacts, version: &str) -> (r:
    Result<(), UpdateError>)
    ensures
        error_of(r) == helper_verdict(
            *facts,
            request.token@,
            token(request.old_pid as nat, version@),
        ),
{
    let expected = update_token(request.old_pid, version);
    check_helper_request(facts, request.token.as_str(), expected.as_str())
}

/// A helper that is called by a program of its own version understands the
/// call, and accepts its token.
pub proof fn helper_accepts_call(
    staged: Seq<char>,
    target: Seq<char>,
    old_pid: u32,
    version: Seq<char>,
    facts: HelperFacts,
)
    requires
        facts.staged_in_place == Some(true),
        facts.helper_in_place == Some(true),
        facts.staged_name is Some,
        is_asset_name(facts.staged_name->Some_0@),
        facts.target_name is Some,
        facts.target_name->Some_0@ == "a_fast_clipboard.exe"@,
    ensures
        ({
            let expected = token(old_pid as nat, version);
            let args = helper_arguments(staged, target, old_pid as nat, expected);
            &&& helper_request(args) == Ok::<Option<RequestView>, UpdateError>(
                Some(RequestView { staged, target, old_pid, token: expected }),
            )
            &&& helper_verdict(facts, expected, expected) is None
        }),
{
    number::unsigned_text_reads_back(old_pid);
}

/// The file that a release offers for its version is one that the helper takes.
pub proof fn offered_asset_is_taken(version: VersionView)
    ensures
        is_asset_name(asset_name(version)),
{
    let name = asset_name(version);
    let front = "a_fast_clipboard-v"@;
    let back = "-windows-x64.exe"@;
    assert(name.take(front.len() as int) =~= front);
    assert(name.subrange(name.len() - back.len(), name.len() as int) =~= back);
}

/// What is to be done after an attempt to replace the target.
#[derive(Debug, Clone, Copy, PartialEq, Eq, Structural)]
pub enum ReplaceStep {
    /// It is replaced.
    Done,
    /// Try again after so many milliseconds.
    RetryAfter(u64),
    /// Give up.
    Fail,
}

/// How long the helper tries, in seconds.
pub const HELPER_PATIENCE: u64 = 20;

/// What is to be done after an attempt to replace the target.
pub fn replace_when_ready(copied: bool, before_deadline: bool) -> (r: ReplaceStep)
    ensures
        r == (if copied {
            ReplaceStep::Done
        } else if before_deadline {
            ReplaceStep::RetryAfter(250)
        } else {
            ReplaceStep::Fail
        }),
{
    if copied {
        ReplaceStep::Done
    } else if before_deadline {
        ReplaceStep::RetryAfter(250)
    } else {
        ReplaceStep::Fail
    }
}

/// How many milliseconds to wait on for the old process, if at all.
pub fn wait_for_process_exit(running: bool, before_deadline: bool) -> (r: Option<u64>)
    ensures
        r == (if running && before_deadline {
            Some(200u64)
        } else {
            None
        }),
{
    if running && before_deadline {
        Some(200)
    } else {
        None
    }
}

/// Whether the list of the processes with an id, as the system prints it, holds
/// one: the id stands in it.
pub fn process_is_running(listing: &str, pid: u32) -> (r: bool)
    ensures
        r == text::has_part(listing@, number::decimal(pid as nat)),
{
    find_part(&chars_of(listing), &chars_of(unsigned_text(pid as u64).as_str()))
}

} // verus!

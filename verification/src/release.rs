//! Release titles, tags and manifests, the version properties read from
//! `gradle.properties`, and the text written back to the changelog files.
use vstd::prelude::*;

use crate::entry::ChangeSet;
use crate::text::{
    digit_char, decimal, decimal_02, lines, push_chars, push_decimal_02, push_signed_decimal,
    push_str, remove_all, remove_occurrences, signed_decimal, split_lines, text_of, to_chars, trim,
    trimmed, views, matches_at,
};

verus! {

/// Template left in a changelog source once its entries have been rendered.
pub const EXAMPLE_ENTRY: &'static str = r#"
# Example changelog entries
# [[aws-sdk-rust]]
# message = "Fix typos in module documentation for generated crates"
# references = ["smithy-rs#920"]
# meta = { "breaking" = false, "tada" = false, "bug" = false }
# author = "rcoh"
#
# [[smithy-rs]]
# message = "Fix typos in module documentation for generated crates"
# references = ["smithy-rs#920"]
# meta = { "breaking" = false, "tada" = false, "bug" = false, "sdk" = "client | server | both" }
# author = "rcoh"
"#;

/// Marker at the top of a rendered changelog.
pub const USE_UPDATE_CHANGELOGS: &'static str =
    "<!-- Do not manually edit this file. Use the `changelogger` tool. -->";

/// A calendar date as the release title reads it.
#[derive(Clone, Copy, Debug)]
pub struct CalendarDate {
    pub year: i32,
    /// 1 for January through 12 for December.
    pub month: u8,
    pub day: u8,
}

impl CalendarDate {
    /// A month between 1 and 12 and a day between 1 and 31.
    pub open spec fn is_valid(&self) -> bool {
        1 <= self.month <= 12 && 1 <= self.day <= 31
    }

    /// The date, when its month and day are in range.
    pub fn new(year: i32, month: u8, day: u8) -> (r: Option<CalendarDate>)
        ensures
            r is Some <==> (1 <= month <= 12 && 1 <= day <= 31),
            r matches Some(d) ==> d.year == year && d.month == month && d.day == day && d.is_valid(),
    {
        if 1 <= month && month <= 12 && 1 <= day && day <= 31 {
            Some(CalendarDate { year, month, day })
        } else {
            None
        }
    }
}

/// The English name of a month, 1 being January.
pub open spec fn english_month_name(month: int) -> Seq<char> {
    if month == 1 {
        "January"@
    } else if month == 2 {
        "February"@
    } else if month == 3 {
        "March"@
    } else if month == 4 {
        "April"@
    } else if month == 5 {
        "May"@
    } else if month == 6 {
        "June"@
    } else if month == 7 {
        "July"@
    } else if month == 8 {
        "August"@
    } else if month == 9 {
        "September"@
    } else if month == 10 {
        "October"@
    } else if month == 11 {
        "November"@
    } else {
        "December"@
    }
}

/// `time::Month::try_from` then `Display`: the month's English name, for 1 through 12.
#[verifier::external_body]
fn month_name(month: u8) -> (r: Option<String>)
    ensures
        r is Some <==> 1 <= month <= 12,
        r matches Some(s) ==> s@ == english_month_name(month as int),
{
    match time::Month::try_from(month) {
        Ok(m) => Some(m.to_string()),
        Err(_) => None,
    }
}

/// The English ordinal suffix of `n`, as the `ordinal` crate picks it from the last
/// digits of the numeral: `st`, `nd`, `rd`, or `th` (11, 12 and 13 take `th`).
pub open spec fn ordinal_suffix(n: nat) -> Seq<char> {
    if n % 10 == 1 && n % 100 != 11 {
        "st"@
    } else if n % 10 == 2 && n % 100 != 12 {
        "nd"@
    } else if n % 10 == 3 && n % 100 != 13 {
        "rd"@
    } else {
        "th"@
    }
}

/// `ordinal::Ordinal(n).to_string()`: the numeral of `n` followed by its ordinal suffix.
#[verifier::external_body]
fn ordinal_text(n: u8) -> (r: String)
    ensures
        r@ == decimal(n as nat) + ordinal_suffix(n as nat),
{
    ordinal::Ordinal(n).to_string()
}

/// `{month} {day:ordinal}, {year}`, e.g. `March 3rd, 1973`.
pub open spec fn date_title_text(now: CalendarDate) -> Seq<char> {
    english_month_name(now.month as int) + " "@ + decimal(now.day as nat) + ordinal_suffix(
        now.day as nat,
    ) + ", "@ + signed_decimal(now.year as int)
}

fn push_date_title(out: &mut Vec<char>, now: &CalendarDate)
    requires
        now.is_valid(),
    ensures
        final(out)@ == old(out)@ + date_title_text(*now),
{
    match month_name(now.month) {
        Some(m) => push_str(out, m.as_str()),
        None => {},
    }
    push_str(out, " ");
    let ord = ordinal_text(now.day);
    push_str(out, ord.as_str());
    push_str(out, ", ");
    push_signed_decimal(out, now.year);
    assert(out@ =~= old(out)@ + date_title_text(*now));
}

/// The title of a release made on `now`.
pub fn date_title(now: &CalendarDate) -> (r: String)
    requires
        now.is_valid(),
    ensures
        r@ == date_title_text(*now),
{
    let mut out: Vec<char> = Vec::new();
    push_date_title(&mut out, now);
    assert(out@ =~= date_title_text(*now));
    text_of(&out)
}

/// Title, tag and manifest file name of a release.
#[derive(Clone, Debug)]
pub struct ReleaseMetadata {
    pub title: String,
    pub tag: String,
    pub manifest_name: String,
}

/// `release-{year}-{month:02}-{day:02}`.
pub open spec fn date_tag_text(now: CalendarDate) -> Seq<char> {
    "release-"@ + signed_decimal(now.year as int) + "-"@ + decimal_02(now.month as nat) + "-"@
        + decimal_02(now.day as nat)
}

/// The two digits of a number below one hundred.
pub open spec fn two_digits(n: nat) -> Seq<char> {
    seq![digit_char(n / 10), digit_char(n % 10)]
}

proof fn lemma_decimal_02_two_digits(n: nat)
    requires
        n < 100,
    ensures
        decimal_02(n) == two_digits(n),
{
    if n < 10 {
        assert(decimal(n) == seq![digit_char(n)]);
        assert(n / 10 == 0);
        assert(digit_char(0) == '0');
        assert(decimal_02(n) =~= two_digits(n));
    } else {
        assert(decimal(n) == decimal(n / 10).push(digit_char(n % 10)));
        assert(decimal(n / 10) == seq![digit_char(n / 10)]);
        assert(decimal_02(n) =~= two_digits(n));
    }
}

/// A date tag is `release-`, the year, then the month and the day as exactly two
/// digits each: tens digit then units digit.
pub proof fn lemma_date_tag_digits(now: CalendarDate)
    requires
        now.is_valid(),
    ensures
        date_tag_text(now) == "release-"@ + signed_decimal(now.year as int) + "-"@ + two_digits(
            now.month as nat,
        ) + "-"@ + two_digits(now.day as nat),
        date_tag_text(now).len() == "release-"@.len() + signed_decimal(now.year as int).len() + 6,
{
    lemma_decimal_02_two_digits(now.month as nat);
    lemma_decimal_02_two_digits(now.day as nat);
    reveal_strlit("-");
}

fn owned(s: &str) -> (r: String)
    ensures
        r@ == s@,
{
    let v = to_chars(s);
    text_of(&v)
}

/// Release metadata for a release named after its date.
pub fn date_based_release_metadata(now: &CalendarDate, manifest_name: &str) -> (r: ReleaseMetadata)
    requires
        now.is_valid(),
    ensures
        r.title@ == date_title_text(*now),
        r.tag@ == date_tag_text(*now),
        r.manifest_name@ == manifest_name@,
{
    let mut tag: Vec<char> = Vec::new();
    push_str(&mut tag, "release-");
    push_signed_decimal(&mut tag, now.year);
    push_str(&mut tag, "-");
    push_decimal_02(&mut tag, now.month);
    push_str(&mut tag, "-");
    push_decimal_02(&mut tag, now.day);
    assert(tag@ =~= date_tag_text(*now));
    ReleaseMetadata {
        title: date_title(now),
        tag: text_of(&tag),
        manifest_name: owned(manifest_name),
    }
}

/// Release metadata for a release named after its version: title
/// `v{version} ({date})`, tag `v{version}`.
pub fn version_based_release_metadata(now: &CalendarDate, version: &str, manifest_name: &str) -> (r:
    ReleaseMetadata)
    requires
        now.is_valid(),
    ensures
        r.title@ == "v"@ + version@ + " ("@ + date_title_text(*now) + ")"@,
        r.tag@ == "v"@ + version@,
        r.manifest_name@ == manifest_name@,
{
    let mut title: Vec<char> = Vec::new();
    push_str(&mut title, "v");
    push_str(&mut title, version);
    push_str(&mut title, " (");
    push_date_title(&mut title, now);
    push_str(&mut title, ")");
    let mut tag: Vec<char> = Vec::new();
    push_str(&mut tag, "v");
    push_str(&mut tag, version);
    assert(title@ =~= "v"@ + version@ + " ("@ + date_title_text(*now) + ")"@);
    assert(tag@ =~= "v"@ + version@);
    ReleaseMetadata {
        title: text_of(&title),
        tag: text_of(&tag),
        manifest_name: owned(manifest_name),
    }
}

/// The versions of the next smithy-rs runtime crates and of the SDK.
#[derive(Clone, Debug)]
pub struct ChangelogMeta {
    pub smithy_version: String,
    pub sdk_version: String,
}

/// The value of `key` on one line of a properties file: the trimmed line must be
/// `key`, `=`, then the value.
pub open spec fn property_in_line(line: Seq<char>, key: Seq<char>) -> Option<Seq<char>> {
    let t = trim(line);
    if t.len() > key.len() && t.take(key.len() as int) == key && t[key.len() as int] == '=' {
        Some(t.skip(key.len() as int + 1))
    } else {
        None
    }
}

/// The value of `key` on the first of the lines that holds one.
pub open spec fn property_in_lines(ls: Seq<Seq<char>>, key: Seq<char>) -> Option<Seq<char>>
    decreases ls.len(),
{
    if ls.len() == 0 {
        None
    } else {
        match property_in_line(ls[0], key) {
            Some(v) => Some(v),
            None => property_in_lines(ls.drop_first(), key),
        }
    }
}

/// The value of `key` in the text of a `gradle.properties` file.
pub open spec fn gradle_property(text: Seq<char>, key: Seq<char>) -> Option<Seq<char>> {
    property_in_lines(lines(text), key)
}

fn property_of_line(line: &Vec<char>, key: &Vec<char>) -> (r: Option<Vec<char>>)
    ensures
        r matches Some(v) ==> property_in_line(line@, key@) == Some(v@),
        r is None ==> property_in_line(line@, key@) is None,
{
    let t = trimmed(line);
    if t.len() > key.len() && matches_at(&t, key, 0) && t[key.len()] == '=' {
        assert(t@.subrange(0, key@.len() as int) =~= t@.take(key@.len() as int));
        let mut v: Vec<char> = Vec::new();
        let mut i: usize = key.len() + 1;
        while i < t.len()
            invariant
                key.len() + 1 <= i <= t.len(),
                v@ == t@.subrange(key.len() + 1, i as int),
            decreases t.len() - i,
        {
            v.push(t[i]);
            assert(v@ =~= t@.subrange(key.len() + 1, i + 1));
            i = i + 1;
        }
        assert(v@ =~= t@.skip(key.len() + 1));
        Some(v)
    } else {
        proof {
            if t@.len() > key@.len() && t@.take(key@.len() as int) == key@ {
                assert(t@.subrange(0, key@.len() as int) =~= t@.take(key@.len() as int));
            }
        }
        None
    }
}

/// The value of `key` in the text of a `gradle.properties` file, if a line sets it.
pub fn load_gradle_prop(gradle_props: &str, key: &str) -> (r: Option<String>)
    ensures
        r matches Some(v) ==> gradle_property(gradle_props@, key@) == Some(v@),
        r is None ==> gradle_property(gradle_props@, key@) is None,
{
    let ls = split_lines(&to_chars(gradle_props));
    let k = to_chars(key);
    let mut i: usize = 0;
    assert(views(ls@).skip(0) =~= views(ls@));
    while i < ls.len()
        invariant
            i <= ls.len(),
            k@ == key@,
            views(ls@) == lines(gradle_props@),
            gradle_property(gradle_props@, key@) == property_in_lines(views(ls@).skip(i as int), key@),
        decreases ls.len() - i,
    {
        let ghost rest = views(ls@).skip(i as int);
        assert(rest[0] == ls@[i as int]@);
        assert(rest.drop_first() =~= views(ls@).skip(i + 1));
        match property_of_line(&ls[i], &k) {
            Some(v) => {
                return Some(text_of(&v));
            },
            None => {},
        }
        i = i + 1;
    }
    None
}

/// A property that `gradle.properties` does not set.
#[derive(Clone, Debug)]
pub struct MissingGradleProperty {
    pub key: String,
}

impl MissingGradleProperty {
    /// `missing expected gradle property: {key}`.
    pub fn message(&self) -> (r: String)
        ensures
            r@ == "missing expected gradle property: "@ + self.key@,
    {
        let mut out: Vec<char> = Vec::new();
        push_str(&mut out, "missing expected gradle property: ");
        push_str(&mut out, self.key.as_str());
        text_of(&out)
    }
}

/// Key of the version of the smithy-rs runtime crates.
pub const SMITHY_RS_VERSION_KEY: &'static str = "smithy.rs.runtime.crate.version";

/// Key of the version of the SDK.
pub const AWS_SDK_VERSION_KEY: &'static str = "aws.sdk.version";

/// The versions of the next release, read from the text of `gradle.properties`; the
/// first of the two keys that is missing is the error.
pub fn changelog_meta(gradle_props: &str) -> (r: Result<ChangelogMeta, MissingGradleProperty>)
    ensures
        r matches Ok(m) ==> {
            &&& gradle_property(gradle_props@, SMITHY_RS_VERSION_KEY@) == Some(m.smithy_version@)
            &&& gradle_property(gradle_props@, AWS_SDK_VERSION_KEY@) == Some(m.sdk_version@)
        },
        r matches Err(e) ==> {
            ||| (gradle_property(gradle_props@, SMITHY_RS_VERSION_KEY@) is None && e.key@
                == SMITHY_RS_VERSION_KEY@)
            ||| (gradle_property(gradle_props@, SMITHY_RS_VERSION_KEY@) is Some && gradle_property(
                gradle_props@,
                AWS_SDK_VERSION_KEY@,
            ) is None && e.key@ == AWS_SDK_VERSION_KEY@)
        },
{
    let smithy_version = match load_gradle_prop(gradle_props, SMITHY_RS_VERSION_KEY) {
        Some(v) => v,
        None => {
            return Err(MissingGradleProperty { key: owned(SMITHY_RS_VERSION_KEY) });
        },
    };
    let sdk_version = match load_gradle_prop(gradle_props, AWS_SDK_VERSION_KEY) {
        Some(v) => v,
        None => {
            return Err(MissingGradleProperty { key: owned(AWS_SDK_VERSION_KEY) });
        },
    };
    Ok(ChangelogMeta { smithy_version, sdk_version })
}

/// Stem of the manifest file name of the smithy-rs release.
pub const SMITHY_RS_MANIFEST_STEM: &'static str = "smithy-rs-release-manifest";

/// Stem of the manifest file name of the SDK release.
pub const AWS_SDK_MANIFEST_STEM: &'static str = "aws-sdk-rust-release-manifest";

/// Extension of manifest file names.
pub const JSON_EXTENSION: &'static str = ".json";

/// A manifest file name: its stem and the JSON extension.
pub open spec fn manifest_file_name(stem: Seq<char>) -> Seq<char> {
    stem + JSON_EXTENSION@
}

fn manifest_file(stem: &str) -> (r: String)
    ensures
        r@ == manifest_file_name(stem@),
{
    let mut v = to_chars(stem);
    push_str(&mut v, JSON_EXTENSION);
    text_of(&v)
}

/// Release metadata of the smithy-rs and of the SDK release: named after the date
/// when crates are versioned independently (`versions` is `None`), else after the
/// versions found in `gradle.properties`.
pub fn release_metadata_pair(now: &CalendarDate, versions: Option<&ChangelogMeta>) -> (r: (
    ReleaseMetadata,
    ReleaseMetadata,
))
    requires
        now.is_valid(),
    ensures
        r.0.manifest_name@ == manifest_file_name(SMITHY_RS_MANIFEST_STEM@),
        r.1.manifest_name@ == manifest_file_name(AWS_SDK_MANIFEST_STEM@),
        versions is None ==> {
            &&& r.0.title@ == date_title_text(*now) && r.0.tag@ == date_tag_text(*now)
            &&& r.1.title@ == date_title_text(*now) && r.1.tag@ == date_tag_text(*now)
        },
        versions matches Some(v) ==> {
            &&& r.0.title@ == "v"@ + v.smithy_version@ + " ("@ + date_title_text(*now) + ")"@
            &&& r.0.tag@ == "v"@ + v.smithy_version@
            &&& r.1.title@ == "v"@ + v.sdk_version@ + " ("@ + date_title_text(*now) + ")"@
            &&& r.1.tag@ == "v"@ + v.sdk_version@
        },
{
    let smithy_rs_manifest = manifest_file(SMITHY_RS_MANIFEST_STEM);
    let sdk_manifest = manifest_file(AWS_SDK_MANIFEST_STEM);
    match versions {
        None => (
            date_based_release_metadata(now, smithy_rs_manifest.as_str()),
            date_based_release_metadata(now, sdk_manifest.as_str()),
        ),
        Some(v) => (
            version_based_release_metadata(
                now,
                v.smithy_version.as_str(),
                smithy_rs_manifest.as_str(),
            ),
            version_based_release_metadata(now, v.sdk_version.as_str(), sdk_manifest.as_str()),
        ),
    }
}

/// The metadata of the release whose changelog is being rendered.
pub fn select_release_metadata<'a>(
    change_set: ChangeSet,
    smithy_rs_metadata: &'a ReleaseMetadata,
    aws_sdk_rust_metadata: &'a ReleaseMetadata,
) -> (r: &'a ReleaseMetadata)
    ensures
        change_set == ChangeSet::AwsSdk ==> r == aws_sdk_rust_metadata,
        change_set == ChangeSet::SmithyRs ==> r == smithy_rs_metadata,
{
    match change_set {
        ChangeSet::AwsSdk => aws_sdk_rust_metadata,
        ChangeSet::SmithyRs => smithy_rs_metadata,
    }
}

/// The GitHub release manifest of a release.
#[derive(Clone, Debug)]
pub struct ReleaseManifest {
    pub tag_name: String,
    pub name: String,
    pub body: String,
    pub prerelease: bool,
}

/// The manifest of a release with the given notes; every release is a pre-release.
pub fn release_manifest(metadata: &ReleaseMetadata, release_notes: &str) -> (r: ReleaseManifest)
    ensures
        r.tag_name@ == metadata.tag@,
        r.name@ == metadata.title@,
        r.body@ == release_notes@,
        r.prerelease,
{
    ReleaseManifest {
        tag_name: metadata.tag.clone(),
        name: metadata.title.clone(),
        body: owned(release_notes),
        prerelease: true,
    }
}

/// The new text of a rendered changelog: the marker line, the release header and notes,
/// then the previous text with every marker removed.
pub open spec fn updated_changelog_text(
    release_header: Seq<char>,
    release_notes: Seq<char>,
    current: Seq<char>,
) -> Seq<char> {
    USE_UPDATE_CHANGELOGS@ + seq!['\n'] + release_header + release_notes + remove_all(
        current,
        USE_UPDATE_CHANGELOGS@,
    )
}

/// The new text of a rendered changelog whose current text is `current`.
pub fn updated_changelog(release_header: &str, release_notes: &str, current: &str) -> (r: String)
    ensures
        r@ == updated_changelog_text(release_header@, release_notes@, current@),
{
    let mut update: Vec<char> = Vec::new();
    push_str(&mut update, USE_UPDATE_CHANGELOGS);
    update.push('\n');
    push_str(&mut update, release_header);
    push_str(&mut update, release_notes);
    let marker = to_chars(USE_UPDATE_CHANGELOGS);
    let rest = remove_occurrences(&to_chars(current), &marker);
    push_chars(&mut update, &rest);
    assert(update@ =~= updated_changelog_text(release_header@, release_notes@, current@));
    text_of(&update)
}

/// The text a changelog source is reset to: the example entries, trimmed.
pub fn truncated_source() -> (r: String)
    ensures
        r@ == trim(EXAMPLE_ENTRY@),
{
    let t = trimmed(&to_chars(EXAMPLE_ENTRY));
    text_of(&t)
}

} // verus!

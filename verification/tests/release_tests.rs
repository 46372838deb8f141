use smithy_changelog::entry::ChangeSet;
use smithy_changelog::release::{
    changelog_meta, date_based_release_metadata, date_title, load_gradle_prop, release_manifest,
    release_metadata_pair, select_release_metadata, truncated_source, updated_changelog,
    version_based_release_metadata, CalendarDate, ChangelogMeta, EXAMPLE_ENTRY,
    USE_UPDATE_CHANGELOGS,
};
use time::OffsetDateTime;

fn file_name(stem: &str) -> String {
    format!("{}.{}", stem, "json")
}

fn date_of(now: OffsetDateTime) -> CalendarDate {
    CalendarDate::new(now.year(), u8::from(now.month()), now.day()).unwrap()
}

#[test]
fn test_date_based_release_metadata() {
    let now = OffsetDateTime::from_unix_timestamp(100_000_000).unwrap();
    let result = date_based_release_metadata(&date_of(now), &file_name("some-manifest"));
    assert_eq!("March 3rd, 1973", result.title);
    assert_eq!("release-1973-03-03", result.tag);
    assert_eq!(file_name("some-manifest"), result.manifest_name);
}

#[test]
fn test_version_based_release_metadata() {
    let now = OffsetDateTime::from_unix_timestamp(100_000_000).unwrap();
    let result =
        version_based_release_metadata(&date_of(now), "0.11.0", &file_name("some-other-manifest"));
    assert_eq!("v0.11.0 (March 3rd, 1973)", result.title);
    assert_eq!("v0.11.0", result.tag);
    assert_eq!(file_name("some-other-manifest"), result.manifest_name);
}

#[test]
fn date_titles_use_ordinals() {
    let title = |y, m, d| date_title(&CalendarDate::new(y, m, d).unwrap());
    assert_eq!("January 1st, 2022", title(2022, 1, 1));
    assert_eq!("February 2nd, 2022", title(2022, 2, 2));
    assert_eq!("December 11th, 1999", title(1999, 12, 11));
    assert_eq!("May 22nd, 2023", title(2023, 5, 22));
    assert_eq!("June 13th, -5", title(-5, 6, 13));
    assert!(CalendarDate::new(2022, 13, 1).is_none());
    assert!(CalendarDate::new(2022, 1, 0).is_none());
}

#[test]
fn date_tag_is_zero_padded() {
    let result = date_based_release_metadata(&CalendarDate::new(2023, 11, 9).unwrap(), "m.json");
    assert_eq!("release-2023-11-09", result.tag);
    assert_eq!("November 9th, 2023", result.title);
}

#[test]
fn metadata_pair_follows_versioning() {
    let now = CalendarDate::new(2022, 1, 4).unwrap();
    let (smithy, sdk) = release_metadata_pair(&now, None);
    assert_eq!("release-2022-01-04", smithy.tag);
    assert_eq!(file_name("smithy-rs-release-manifest"), smithy.manifest_name);
    assert_eq!(file_name("aws-sdk-rust-release-manifest"), sdk.manifest_name);
    let meta = ChangelogMeta { smithy_version: "0.3.0".to_string(), sdk_version: "0.1.0".to_string() };
    let (smithy, sdk) = release_metadata_pair(&now, Some(&meta));
    assert_eq!("v0.3.0 (January 4th, 2022)", smithy.title);
    assert_eq!("v0.1.0", sdk.tag);
    let chosen = select_release_metadata(ChangeSet::AwsSdk, &smithy, &sdk);
    assert_eq!("v0.1.0", chosen.tag);
    let chosen = select_release_metadata(ChangeSet::SmithyRs, &smithy, &sdk);
    assert_eq!("v0.3.0", chosen.tag);
}

#[test]
fn gradle_properties_are_read() {
    let props = "# comment\n  smithy.rs.runtime.crate.version=0.54.1  \naws.sdk.versionx=1\naws.sdk.version=0.24.0\r\naws.sdk.version=9\n";
    assert_eq!(Some("0.54.1".to_string()), load_gradle_prop(props, "smithy.rs.runtime.crate.version"));
    assert_eq!(Some("0.24.0".to_string()), load_gradle_prop(props, "aws.sdk.version"));
    assert_eq!(None, load_gradle_prop(props, "kotlin.version"));
    let meta = changelog_meta(props).unwrap();
    assert_eq!("0.54.1", meta.smithy_version);
    assert_eq!("0.24.0", meta.sdk_version);
    let err = changelog_meta("aws.sdk.version=1\n").unwrap_err();
    assert_eq!("missing expected gradle property: smithy.rs.runtime.crate.version", err.message());
    let err = changelog_meta("smithy.rs.runtime.crate.version=1\n").unwrap_err();
    assert_eq!("missing expected gradle property: aws.sdk.version", err.message());
}

#[test]
fn changelog_update_moves_marker_to_top() {
    let current = format!("{}\nOld release\n", USE_UPDATE_CHANGELOGS);
    let updated = updated_changelog("v1\n==\n", "notes\n", &current);
    assert_eq!(
        format!("{}\nv1\n==\nnotes\n\nOld release\n", USE_UPDATE_CHANGELOGS),
        updated
    );
}

#[test]
fn truncated_source_is_trimmed_template() {
    assert_eq!(EXAMPLE_ENTRY.trim(), truncated_source());
    assert!(truncated_source().starts_with("# Example changelog entries"));
}

#[test]
fn manifest_is_prerelease() {
    let meta = date_based_release_metadata(&CalendarDate::new(2022, 1, 4).unwrap(), "x.json");
    let manifest = release_manifest(&meta, "body text");
    assert_eq!("release-2022-01-04", manifest.tag_name);
    assert_eq!("January 4th, 2022", manifest.name);
    assert_eq!("body text", manifest.body);
    assert!(manifest.prerelease);
}

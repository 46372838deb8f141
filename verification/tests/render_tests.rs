use smithy_changelog::entry::{
    ChangelogEntry, HandAuthoredEntry, Meta, Reference, SdkAffected, SdkModelChangeKind,
    SdkModelEntry,
};
use smithy_changelog::render::{indented_message, maintainers, render, split_by_sdk, to_md_link};

fn reference(repo: &str, number: usize) -> Reference {
    Reference { repo: repo.to_string(), number }
}

fn hand(
    author: &str,
    message: &str,
    breaking: bool,
    tada: bool,
    bug: bool,
    sdk: Option<SdkAffected>,
    references: Vec<Reference>,
) -> ChangelogEntry {
    ChangelogEntry::HandAuthored(HandAuthoredEntry {
        message: message.to_string(),
        meta: Meta { bug, breaking, tada, sdk },
        author: author.to_string(),
        references,
        since_commit: None,
    })
}

fn model(module: &str, version: &str, kind: SdkModelChangeKind, message: &str) -> ChangelogEntry {
    ChangelogEntry::AwsSdkModel(SdkModelEntry {
        module: module.to_string(),
        version: version.to_string(),
        kind,
        message: message.to_string(),
    })
}

fn render_full(entries: &[ChangelogEntry], release_header: &str) -> String {
    let (header, body) = render(entries, release_header);
    format!("{}{}", header, body)
}

const MULTILINE: &str =
    "I made a change to update the code generator\n\n**Update guide:**\nblah blah\n";

#[test]
fn end_to_end_changelog() {
    // Entries as the changelog groups them: notable (🎉) entries first, then the
    // others, each group in file order; SDK model entries sorted by module.
    let smithy_rs = vec![
        hand(
            "external-contrib",
            "I made a change to update the code generator",
            false,
            true,
            false,
            None,
            vec![reference("smithy-rs", 446)],
        ),
        hand("external-contrib", MULTILINE, false, true, false, None, vec![reference("smithy-rs", 446)]),
        hand(
            "rcoh",
            "I made a major change to update the code generator",
            true,
            false,
            false,
            None,
            vec![reference("smithy-rs", 445)],
        ),
        hand("another-contrib", "I made a minor change", false, false, false, None, vec![]),
    ];
    let aws_sdk_rust = vec![
        hand(
            "external-contrib",
            "I made a change to update the code generator",
            false,
            true,
            false,
            None,
            vec![reference("smithy-rs", 446)],
        ),
        hand(
            "rcoh",
            "I made a major change to update the AWS SDK",
            true,
            false,
            false,
            None,
            vec![reference("smithy-rs", 445)],
        ),
        model("aws-sdk-ec2", "0.12.0", SdkModelChangeKind::Documentation, "Updated some docs"),
        model("aws-sdk-ec2", "0.12.0", SdkModelChangeKind::Feature, "Some API change"),
        model("aws-sdk-s3", "0.14.0", SdkModelChangeKind::Feature, "Some new API to do X"),
    ];

    let smithy_rs_rendered = render_full(&smithy_rs, "v0.3.0 (January 4th, 2022)");
    let smithy_rs_expected = r#"
v0.3.0 (January 4th, 2022)
==========================
**Breaking Changes:**
- ⚠ ([smithy-rs#445](https://github.com/awslabs/smithy-rs/issues/445)) I made a major change to update the code generator

**New this release:**
- 🎉 ([smithy-rs#446](https://github.com/awslabs/smithy-rs/issues/446), @external-contrib) I made a change to update the code generator
- 🎉 ([smithy-rs#446](https://github.com/awslabs/smithy-rs/issues/446), @external-contrib) I made a change to update the code generator

    **Update guide:**
    blah blah
- (@another-contrib) I made a minor change

**Contributors**
Thank you for your contributions! ❤
- @another-contrib
- @external-contrib ([smithy-rs#446](https://github.com/awslabs/smithy-rs/issues/446))
"#
    .trim_start();
    assert_eq!(smithy_rs_expected, smithy_rs_rendered);

    let aws_sdk_rust_rendered = render_full(&aws_sdk_rust, "v0.1.0 (January 4th, 2022)");
    let aws_sdk_expected = r#"
v0.1.0 (January 4th, 2022)
==========================
**Breaking Changes:**
- ⚠ ([smithy-rs#445](https://github.com/awslabs/smithy-rs/issues/445)) I made a major change to update the AWS SDK

**New this release:**
- 🎉 ([smithy-rs#446](https://github.com/awslabs/smithy-rs/issues/446), @external-contrib) I made a change to update the code generator

**Service Features:**
- `aws-sdk-ec2` (0.12.0): Some API change
- `aws-sdk-s3` (0.14.0): Some new API to do X

**Service Documentation:**
- `aws-sdk-ec2` (0.12.0): Updated some docs

**Contributors**
Thank you for your contributions! ❤
- @external-contrib ([smithy-rs#446](https://github.com/awslabs/smithy-rs/issues/446))
"#
    .trim_start();
    assert_eq!(aws_sdk_expected, aws_sdk_rust_rendered);
}

fn sdk_meta_entries() -> Vec<ChangelogEntry> {
    // The smithy-rs entries of the SDK-flag changelog, grouped as the changelog groups them.
    vec![
        hand(
            "external-contrib",
            "I made a change to update the code generator",
            false,
            true,
            false,
            None,
            vec![reference("smithy-rs", 446)],
        ),
        hand(
            "external-contrib",
            "this is a multiline message\n\n**Update guide:**\nblah blah\n",
            false,
            true,
            false,
            Some(SdkAffected::Server),
            vec![reference("smithy-rs", 446)],
        ),
        hand("rcoh", "server changed", true, false, false, Some(SdkAffected::Server), vec![reference("smithy-rs", 445)]),
        hand("another-contrib", "server changed 2", false, false, false, Some(SdkAffected::Server), vec![]),
        hand("rcoh", "client changed", true, false, false, Some(SdkAffected::Client), vec![reference("smithy-rs", 445)]),
        hand("rcoh", "both changed", false, false, false, Some(SdkAffected::Both), vec![reference("smithy-rs", 446)]),
        model("aws-sdk-s3", "0.14.0", SdkModelChangeKind::Feature, "Some new API to do X"),
    ]
}

fn only(entries: &[ChangelogEntry], keep: impl Fn(&HandAuthoredEntry) -> bool) -> Vec<ChangelogEntry> {
    entries
        .iter()
        .filter(|e| matches!(e, ChangelogEntry::HandAuthored(h) if keep(h)))
        .cloned()
        .collect()
}

#[test]
fn render_server_entries_of_sdk_meta_changelog() {
    let entries = only(&sdk_meta_entries(), |h| {
        matches!(h.meta.sdk, Some(SdkAffected::Server) | Some(SdkAffected::Both))
    });
    let rendered = render_full(&entries, "v0.3.0 (January 4th, 2022)");
    let expected = r#"
v0.3.0 (January 4th, 2022)
==========================
**Breaking Changes:**
- ⚠ ([smithy-rs#445](https://github.com/awslabs/smithy-rs/issues/445)) server changed

**New this release:**
- 🎉 ([smithy-rs#446](https://github.com/awslabs/smithy-rs/issues/446), @external-contrib) this is a multiline message

    **Update guide:**
    blah blah
- (@another-contrib) server changed 2
- ([smithy-rs#446](https://github.com/awslabs/smithy-rs/issues/446)) both changed

**Contributors**
Thank you for your contributions! ❤
- @another-contrib
- @external-contrib ([smithy-rs#446](https://github.com/awslabs/smithy-rs/issues/446))
"#
    .trim_start();
    assert_eq!(expected, rendered);
}

#[test]
fn render_client_entries_of_sdk_meta_changelog() {
    let entries = only(&sdk_meta_entries(), |h| {
        !matches!(h.meta.sdk, Some(SdkAffected::Server))
    });
    let rendered = render_full(&entries, "v0.3.0 (January 4th, 2022)");
    let expected = r#"
v0.3.0 (January 4th, 2022)
==========================
**Breaking Changes:**
- ⚠ ([smithy-rs#445](https://github.com/awslabs/smithy-rs/issues/445)) client changed

**New this release:**
- 🎉 ([smithy-rs#446](https://github.com/awslabs/smithy-rs/issues/446), @external-contrib) I made a change to update the code generator
- ([smithy-rs#446](https://github.com/awslabs/smithy-rs/issues/446)) both changed

**Contributors**
Thank you for your contributions! ❤
- @external-contrib ([smithy-rs#446](https://github.com/awslabs/smithy-rs/issues/446))
"#
    .trim_start();
    assert_eq!(expected, rendered);
}

#[test]
fn split_by_sdk_puts_both_on_each_side() {
    let entries = sdk_meta_entries();
    let (server, client) = split_by_sdk(&entries);
    let server_messages: Vec<&str> = server.iter().map(|e| e.message.as_str()).collect();
    let client_messages: Vec<&str> = client.iter().map(|e| e.message.as_str()).collect();
    assert_eq!(
        vec![
            "this is a multiline message\n\n**Update guide:**\nblah blah\n",
            "server changed",
            "server changed 2",
            "both changed"
        ],
        server_messages
    );
    assert_eq!(
        vec!["I made a change to update the code generator", "client changed", "both changed"],
        client_messages
    );
}

#[test]
fn indented_message_indents_continuation_lines() {
    assert_eq!("one line", indented_message("one line"));
    assert_eq!("a\n    b\n\n    c", indented_message("a\nb\n\nc\n"));
    assert_eq!("a\n    b", indented_message("a\r\nb"));
    assert_eq!("", indented_message(""));
}

#[test]
fn md_link_of_reference() {
    assert_eq!(
        "[aws-sdk-rust#12](https://github.com/awslabs/aws-sdk-rust/issues/12)",
        to_md_link(&reference("aws-sdk-rust", 12))
    );
}

#[test]
fn maintainers_are_not_thanked() {
    assert!(maintainers().contains(&"rcoh"));
    let entries = vec![
        hand("RCoh", "fix", false, false, true, None, vec![]),
        hand("Someone", "feature", false, false, false, None, vec![reference("smithy-rs", 7)]),
    ];
    let (_, body) = render(&entries, "t");
    assert_eq!(
        "**New this release:**\n- 🐛 fix\n- ([smithy-rs#7](https://github.com/awslabs/smithy-rs/issues/7), @someone) feature\n\n**Contributors**\nThank you for your contributions! ❤\n- @someone ([smithy-rs#7](https://github.com/awslabs/smithy-rs/issues/7))\n",
        body
    );
}

#[test]
fn header_underline_counts_bytes() {
    let (header, body) = render(&[], "é");
    assert_eq!("é\n==\n", header);
    assert_eq!("", body);
}

#[test]
fn contributor_links_are_sorted_and_unique() {
    let entries = vec![
        hand("Ext", "b", false, false, false, None, vec![reference("smithy-rs", 9), reference("smithy-rs", 10)]),
        hand("ext", "a", false, false, false, None, vec![reference("smithy-rs", 9)]),
    ];
    let (_, body) = render(&entries, "t");
    assert!(body.ends_with(
        "- @ext ([smithy-rs#10](https://github.com/awslabs/smithy-rs/issues/10), [smithy-rs#9](https://github.com/awslabs/smithy-rs/issues/9))\n"
    ));
}

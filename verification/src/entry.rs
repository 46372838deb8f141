//! Changelog entries as the renderer reads them.
use vstd::prelude::*;

verus! {

/// A reference to an issue or pull request, such as `smithy-rs#445`.
#[derive(Clone, Debug)]
pub struct Reference {
    pub repo: String,
    pub number: usize,
}

/// Which SDK a smithy-rs change affects.
#[derive(Clone, Copy, Debug, PartialEq, Eq, Structural)]
pub enum SdkAffected {
    Client,
    Server,
    Both,
}

/// The flags of a hand-authored entry.
#[derive(Clone, Copy, Debug)]
pub struct Meta {
    pub bug: bool,
    pub breaking: bool,
    pub tada: bool,
    pub sdk: Option<SdkAffected>,
}

/// A changelog entry written by a person.
#[derive(Clone, Debug)]
pub struct HandAuthoredEntry {
    pub message: String,
    pub meta: Meta,
    pub author: String,
    pub references: Vec<Reference>,
    pub since_commit: Option<String>,
}

/// The kind of an SDK model update.
#[derive(Clone, Copy, Debug, PartialEq, Eq, Structural)]
pub enum SdkModelChangeKind {
    Documentation,
    Feature,
}

/// An entry generated for an SDK model update.
#[derive(Clone, Debug)]
pub struct SdkModelEntry {
    pub module: String,
    pub version: String,
    pub kind: SdkModelChangeKind,
    pub message: String,
}

/// One entry of a changelog.
#[derive(Clone, Debug)]
pub enum ChangelogEntry {
    HandAuthored(HandAuthoredEntry),
    AwsSdkModel(SdkModelEntry),
}

/// Which changelog is being rendered.
#[derive(Clone, Copy, Debug, PartialEq, Eq, Structural)]
pub enum ChangeSet {
    SmithyRs,
    AwsSdk,
}

impl ChangelogEntry {
    /// The hand-authored entry, if this is one.
    pub fn hand_authored(&self) -> (r: Option<&HandAuthoredEntry>)
        ensures
            r == (match self {
                ChangelogEntry::HandAuthored(e) => Some(e),
                ChangelogEntry::AwsSdkModel(_) => None::<&HandAuthoredEntry>,
            }),
    {
        match self {
            ChangelogEntry::HandAuthored(e) => Some(e),
            ChangelogEntry::AwsSdkModel(_) => None,
        }
    }

    /// The SDK model entry, if this is one.
    pub fn aws_sdk_model(&self) -> (r: Option<&SdkModelEntry>)
        ensures
            r == (match self {
                ChangelogEntry::HandAuthored(_) => None::<&SdkModelEntry>,
                ChangelogEntry::AwsSdkModel(e) => Some(e),
            }),
    {
        match self {
            ChangelogEntry::HandAuthored(_) => None,
            ChangelogEntry::AwsSdkModel(e) => Some(e),
        }
    }
}

} // verus!

//! Rendering changelog entries as markdown release notes.
use vstd::prelude::*;

use crate::entry::{
    ChangelogEntry, HandAuthoredEntry, Meta, Reference, SdkAffected, SdkModelChangeKind, SdkModelEntry,
};
use crate::text::{
    ascii_lowercase, chars_eq, has_newline, lemma_lines_no_newline, lemma_sorted_unique_exists,
    lemma_sorted_unique_is, decimal, join, lines, push_chars, push_decimal, push_joined,
    push_str, sort_unique, sorted_unique, split_lines, strictly_sorted, text_of,
    to_ascii_lowercase, to_chars, views,
};

verus! {

/// The GitHub handles of the smithy-rs maintainers.
pub open spec fn maintainer_handles() -> Seq<Seq<char>> {
    seq![
        "82marbag"@,
        "aws-sdk-rust-ci"@,
        "crisidev"@,
        "david-perez"@,
        "drganjoo"@,
        "hlbarber"@,
        "jdisanti"@,
        "jjant"@,
        "lukemathwalker"@,
        "rcoh"@,
        "unexge"@,
        "velfi"@,
        "weihanglo"@,
        "ysaito1001"@,
    ]
}

pub open spec fn is_maintainer(handle: Seq<char>) -> bool {
    maintainer_handles().contains(handle)
}

/// The maintainers' handles, one per line of the maintainers list.
pub fn maintainers() -> (r: Vec<&'static str>)
    ensures
        r@.map_values(|s: &str| s@) == maintainer_handles(),
{
    let r = vec![
        "82marbag",
        "aws-sdk-rust-ci",
        "crisidev",
        "david-perez",
        "drganjoo",
        "hlbarber",
        "jdisanti",
        "jjant",
        "lukemathwalker",
        "rcoh",
        "unexge",
        "velfi",
        "weihanglo",
        "ysaito1001",
    ];
    assert(r@.map_values(|s: &str| s@) =~= maintainer_handles());
    r
}

/// Whether `handle` is one of the maintainers' handles.
pub fn is_maintainer_handle(handle: &Vec<char>) -> (r: bool)
    ensures
        r == is_maintainer(handle@),
{
    let list = maintainers();
    let ghost hs = list@.map_values(|s: &str| s@);
    let mut i: usize = 0;
    while i < list.len()
        invariant
            i <= list.len(),
            hs == maintainer_handles(),
            hs == list@.map_values(|s: &str| s@),
            forall|k: int| 0 <= k < i ==> hs[k] != handle@,
        decreases list.len() - i,
    {
        let m = to_chars(list[i]);
        assert(hs[i as int] == list@[i as int]@);
        if chars_eq(&m, handle) {
            assert(maintainer_handles()[i as int] == handle@);
            return true;
        }
        i = i + 1;
    }
    assert(!maintainer_handles().contains(handle@)) by {
        if maintainer_handles().contains(handle@) {
            let k = choose|k: int| 0 <= k < hs.len() && hs[k] == handle@;
            assert(hs[k] != handle@);
        }
    }
    false
}

// ---------------------------------------------------------------------------
// Links and single entries
// ---------------------------------------------------------------------------

/// The markdown link of a reference:
/// `[{repo}#{number}](https://github.com/awslabs/{repo}/issues/{number})`.
pub open spec fn md_link(r: Reference) -> Seq<char> {
    "["@ + r.repo@ + "#"@ + decimal(r.number as nat) + "](https://github.com/awslabs/"@ + r.repo@
        + "/issues/"@ + decimal(r.number as nat) + ")"@
}

pub fn push_md_link(out: &mut Vec<char>, reference: &Reference)
    ensures
        final(out)@ == old(out)@ + md_link(*reference),
{
    let repo = to_chars(reference.repo.as_str());
    push_str(out, "[");
    push_chars(out, &repo);
    push_str(out, "#");
    push_decimal(out, reference.number as u64);
    push_str(out, "](https://github.com/awslabs/");
    push_chars(out, &repo);
    push_str(out, "/issues/");
    push_decimal(out, reference.number as u64);
    push_str(out, ")");
    assert(out@ =~= old(out)@ + md_link(*reference));
}

/// The markdown link of a reference.
pub fn to_md_link(reference: &Reference) -> (r: String)
    ensures
        r@ == md_link(*reference),
{
    let mut out: Vec<char> = Vec::new();
    push_md_link(&mut out, reference);
    assert(out@ =~= md_link(*reference));
    text_of(&out)
}

/// An SDK model entry: ``- `{module}` ({version}): {message}``.
pub open spec fn rendered_model_entry(e: SdkModelEntry) -> Seq<char> {
    "- `"@ + e.module@ + "` ("@ + e.version@ + "): "@ + e.message@
}

/// Appends the line of an SDK model entry (without its line feed).
pub fn render_model_entry(entry: &SdkModelEntry, out: &mut Vec<char>)
    ensures
        final(out)@ == old(out)@ + rendered_model_entry(*entry),
{
    push_str(out, "- `");
    push_str(out, entry.module.as_str());
    push_str(out, "` (");
    push_str(out, entry.version.as_str());
    push_str(out, "): ");
    push_str(out, entry.message.as_str());
    assert(out@ =~= old(out)@ + rendered_model_entry(*entry));
}

/// Lines joined by line feeds, each line but the first indented by four spaces
/// unless it is empty.
pub open spec fn indent_lines(ls: Seq<Seq<char>>) -> Seq<char>
    decreases ls.len(),
{
    if ls.len() == 0 {
        seq![]
    } else if ls.len() == 1 {
        ls[0]
    } else {
        indent_lines(ls.drop_last()) + seq!['\n'] + (if ls.last().len() > 0 {
            seq![' ', ' ', ' ', ' ']
        } else {
            seq![]
        }) + ls.last()
    }
}

/// A message with its continuation lines indented to sit under a list item.
pub open spec fn indented(message: Seq<char>) -> Seq<char> {
    indent_lines(lines(message))
}

fn push_indented(out: &mut Vec<char>, message: &str)
    ensures
        final(out)@ == old(out)@ + indented(message@),
{
    let m = to_chars(message);
    let ls = split_lines(&m);
    let mut idx: usize = 0;
    while idx < ls.len()
        invariant
            idx <= ls.len(),
            views(ls@) == lines(message@),
            out@ == old(out)@ + indent_lines(views(ls@).take(idx as int)),
        decreases ls.len() - idx,
    {
        let line = &ls[idx];
        if idx > 0 {
            out.push('\n');
            if line.len() > 0 {
                push_str(out, "    ");
                proof {
                    reveal_strlit("    ");
                }
            }
        }
        push_chars(out, line);
        proof {
            let t = views(ls@).take(idx + 1);
            assert(t.drop_last() =~= views(ls@).take(idx as int));
            assert(t.last() == line@);
            if idx == 0 {
                assert(views(ls@).take(0) =~= seq![]);
            }
        }
        assert(out@ =~= old(out)@ + indent_lines(views(ls@).take(idx + 1)));
        idx = idx + 1;
    }
    assert(views(ls@).take(ls.len() as int) =~= views(ls@));
}

/// Indents the continuation lines of a message so that it reads as one list item.
pub fn indented_message(message: &str) -> (r: String)
    ensures
        r@ == indented(message@),
{
    let mut out: Vec<char> = Vec::new();
    push_indented(&mut out, message);
    assert(out@ =~= indented(message@));
    text_of(&out)
}

/// The marks of an entry's flags: 🐛 for a bug fix, ⚠ for a breaking change, 🎉 for a
/// notable one.
pub open spec fn meta_marks(m: Meta) -> Seq<char> {
    (if m.bug { seq!['🐛'] } else { seq![] }) + (if m.breaking { seq!['⚠'] } else { seq![] }) + (
    if m.tada { seq!['🎉'] } else { seq![] })
}

/// The labels in an entry's parentheses: its references' links, then `@author` unless
/// the author is a maintainer.
pub open spec fn reference_labels(e: HandAuthoredEntry) -> Seq<Seq<char>> {
    let links = e.references@.map_values(|r: Reference| md_link(r));
    let author = ascii_lowercase(e.author@);
    if is_maintainer(author) {
        links
    } else {
        links.push(seq!['@'] + author)
    }
}

/// What stands between `- ` and the message of a hand-authored entry.
pub open spec fn entry_prefix(e: HandAuthoredEntry) -> Seq<char> {
    let marks = meta_marks(e.meta);
    let marks = if marks.len() > 0 { marks.push(' ') } else { marks };
    let labels = reference_labels(e);
    if labels.len() > 0 {
        marks + seq!['('] + join(labels, ", "@) + seq![')', ' ']
    } else {
        marks
    }
}

/// A hand-authored entry as a list item, e.g. `- Add a feature (smithy-rs#123, @contributor)`.
pub open spec fn rendered_entry(e: HandAuthoredEntry) -> Seq<char> {
    seq!['-', ' '] + entry_prefix(e) + indented(e.message@)
}

fn reference_links(entry: &HandAuthoredEntry) -> (r: Vec<Vec<char>>)
    ensures
        views(r@) == entry.references@.map_values(|x: Reference| md_link(x)),
{
    let mut r: Vec<Vec<char>> = Vec::new();
    let mut i: usize = 0;
    while i < entry.references.len()
        invariant
            i <= entry.references.len(),
            views(r@) == entry.references@.take(i as int).map_values(|x: Reference| md_link(x)),
        decreases entry.references.len() - i,
    {
        let mut link: Vec<char> = Vec::new();
        push_md_link(&mut link, &entry.references[i]);
        assert(link@ =~= md_link(entry.references@[i as int]));
        let ghost before = views(r@);
        r.push(link);
        assert(views(r@) =~= before.push(md_link(entry.references@[i as int])));
        assert(entry.references@.take(i + 1) =~= entry.references@.take(i as int).push(
            entry.references@[i as int],
        ));
        assert(views(r@) =~= entry.references@.take(i + 1).map_values(|x: Reference| md_link(x)));
        i = i + 1;
    }
    assert(entry.references@.take(entry.references.len() as int) =~= entry.references@);
    r
}

fn labels_of(entry: &HandAuthoredEntry) -> (r: Vec<Vec<char>>)
    ensures
        views(r@) == reference_labels(*entry),
{
    let mut references = reference_links(entry);
    let author = to_ascii_lowercase(&to_chars(entry.author.as_str()));
    if !is_maintainer_handle(&author) {
        let mut label: Vec<char> = Vec::new();
        label.push('@');
        push_chars(&mut label, &author);
        let ghost before = views(references@);
        references.push(label);
        assert(views(references@) =~= before.push(seq!['@'] + author@));
    }
    references
}

fn marks_of(meta: &Meta) -> (r: Vec<char>)
    ensures
        r@ == meta_marks(*meta),
{
    let mut marks: Vec<char> = Vec::new();
    if meta.bug {
        marks.push('🐛');
    }
    if meta.breaking {
        marks.push('⚠');
    }
    if meta.tada {
        marks.push('🎉');
    }
    assert(marks@ =~= meta_marks(*meta));
    marks
}

fn prefix_of(entry: &HandAuthoredEntry) -> (r: Vec<char>)
    ensures
        r@ == entry_prefix(*entry),
{
    let mut meta = marks_of(&entry.meta);
    if meta.len() > 0 {
        meta.push(' ');
    }
    let references = labels_of(entry);
    if references.len() > 0 {
        let ghost m = meta@;
        meta.push('(');
        push_joined(&mut meta, &references, ", ");
        meta.push(')');
        meta.push(' ');
        assert(meta@ =~= m + seq!['('] + join(reference_labels(*entry), ", "@) + seq![')', ' ']);
    }
    meta
}

/// Appends a hand-authored entry as a list item (without its line feed).
pub fn render_entry(entry: &HandAuthoredEntry, out: &mut Vec<char>)
    ensures
        final(out)@ == old(out)@ + rendered_entry(*entry),
{
    let meta = prefix_of(entry);
    out.push('-');
    out.push(' ');
    push_chars(out, &meta);
    push_indented(out, entry.message.as_str());
    assert(out@ =~= old(out)@ + rendered_entry(*entry));
}

// ---------------------------------------------------------------------------
// Sections
// ---------------------------------------------------------------------------

/// A titled section: the title, the body and a blank line, or nothing when the body
/// is empty.
pub open spec fn section(title: Seq<char>, body: Seq<char>) -> Seq<char> {
    if body.len() > 0 {
        title + body + seq!['\n']
    } else {
        seq![]
    }
}

/// The hand-authored entries whose breaking flag is `breaking`, one line each, in order.
pub open spec fn hand_authored_lines(entries: Seq<ChangelogEntry>, breaking: bool) -> Seq<char>
    decreases entries.len(),
{
    if entries.len() == 0 {
        seq![]
    } else {
        let rest = hand_authored_lines(entries.drop_last(), breaking);
        match entries.last() {
            ChangelogEntry::HandAuthored(e) => if e.meta.breaking == breaking {
                rest + rendered_entry(e) + seq!['\n']
            } else {
                rest
            },
            ChangelogEntry::AwsSdkModel(_) => rest,
        }
    }
}

/// The SDK model entries of the given kind (feature or not), one line each, in order.
pub open spec fn model_lines(entries: Seq<ChangelogEntry>, feature: bool) -> Seq<char>
    decreases entries.len(),
{
    if entries.len() == 0 {
        seq![]
    } else {
        let rest = model_lines(entries.drop_last(), feature);
        match entries.last() {
            ChangelogEntry::AwsSdkModel(m) => if (m.kind == SdkModelChangeKind::Feature)
                == feature {
                rest + rendered_model_entry(m) + seq!['\n']
            } else {
                rest
            },
            ChangelogEntry::HandAuthored(_) => rest,
        }
    }
}

/// Breaking changes first, then the other hand-authored entries.
pub open spec fn rendered_hand_authored(entries: Seq<ChangelogEntry>) -> Seq<char> {
    section("**Breaking Changes:**\n"@, hand_authored_lines(entries, true)) + section(
        "**New this release:**\n"@,
        hand_authored_lines(entries, false),
    )
}

/// Features first, then documentation updates.
pub open spec fn rendered_model_entries(entries: Seq<ChangelogEntry>) -> Seq<char> {
    section("**Service Features:**\n"@, model_lines(entries, true)) + section(
        "**Service Documentation:**\n"@,
        model_lines(entries, false),
    )
}

fn hand_authored_section_lines(entries: &[ChangelogEntry], breaking: bool) -> (r: Vec<char>)
    ensures
        r@ == hand_authored_lines(entries@, breaking),
{
    let mut out: Vec<char> = Vec::new();
    let mut i: usize = 0;
    while i < entries.len()
        invariant
            i <= entries.len(),
            out@ == hand_authored_lines(entries@.take(i as int), breaking),
        decreases entries.len() - i,
    {
        assert(entries@.take(i + 1).drop_last() =~= entries@.take(i as int));
        assert(entries@.take(i + 1).last() == entries@[i as int]);
        match &entries[i] {
            ChangelogEntry::HandAuthored(e) => {
                if e.meta.breaking == breaking {
                    render_entry(e, &mut out);
                    out.push('\n');
                }
            },
            ChangelogEntry::AwsSdkModel(_) => {},
        }
        i = i + 1;
    }
    assert(entries@.take(entries.len() as int) =~= entries@);
    out
}

fn model_section_lines(entries: &[ChangelogEntry], feature: bool) -> (r: Vec<char>)
    ensures
        r@ == model_lines(entries@, feature),
{
    let mut out: Vec<char> = Vec::new();
    let mut i: usize = 0;
    while i < entries.len()
        invariant
            i <= entries.len(),
            out@ == model_lines(entries@.take(i as int), feature),
        decreases entries.len() - i,
    {
        assert(entries@.take(i + 1).drop_last() =~= entries@.take(i as int));
        assert(entries@.take(i + 1).last() == entries@[i as int]);
        match &entries[i] {
            ChangelogEntry::AwsSdkModel(m) => {
                let is_feature = match m.kind {
                    SdkModelChangeKind::Feature => true,
                    SdkModelChangeKind::Documentation => false,
                };
                if is_feature == feature {
                    render_model_entry(m, &mut out);
                    out.push('\n');
                }
            },
            ChangelogEntry::HandAuthored(_) => {},
        }
        i = i + 1;
    }
    assert(entries@.take(entries.len() as int) =~= entries@);
    out
}

fn push_section(out: &mut Vec<char>, title: &str, body: &Vec<char>)
    ensures
        final(out)@ == old(out)@ + section(title@, body@),
{
    if body.len() > 0 {
        push_str(out, title);
        push_chars(out, body);
        out.push('\n');
        assert(out@ =~= old(out)@ + section(title@, body@));
    } else {
        assert(out@ =~= old(out)@ + section(title@, body@));
    }
}

/// Appends the breaking and the other hand-authored entries under their headings.
pub fn render_handauthored(entries: &[ChangelogEntry], out: &mut Vec<char>)
    ensures
        final(out)@ == old(out)@ + rendered_hand_authored(entries@),
{
    let breaking = hand_authored_section_lines(entries, true);
    let non_breaking = hand_authored_section_lines(entries, false);
    push_section(out, "**Breaking Changes:**\n", &breaking);
    push_section(out, "**New this release:**\n", &non_breaking);
    assert(out@ =~= old(out)@ + rendered_hand_authored(entries@));
}

/// Appends the SDK model feature and documentation entries under their headings.
pub fn render_sdk_model_entries(entries: &[ChangelogEntry], out: &mut Vec<char>)
    ensures
        final(out)@ == old(out)@ + rendered_model_entries(entries@),
{
    let features = model_section_lines(entries, true);
    let docs = model_section_lines(entries, false);
    push_section(out, "**Service Features:**\n", &features);
    push_section(out, "**Service Documentation:**\n", &docs);
    assert(out@ =~= old(out)@ + rendered_model_entries(entries@));
}


// ---------------------------------------------------------------------------
// Contributors
// ---------------------------------------------------------------------------

/// The lower-cased authors of the hand-authored entries who are not maintainers, in
/// entry order (with repetitions).
pub open spec fn external_handles(entries: Seq<ChangelogEntry>) -> Seq<Seq<char>>
    decreases entries.len(),
{
    if entries.len() == 0 {
        seq![]
    } else {
        let rest = external_handles(entries.drop_last());
        match entries.last() {
            ChangelogEntry::HandAuthored(e) => {
                let a = ascii_lowercase(e.author@);
                if is_maintainer(a) {
                    rest
                } else {
                    rest.push(a)
                }
            },
            ChangelogEntry::AwsSdkModel(_) => rest,
        }
    }
}

/// The links of the references of every hand-authored entry whose author equals
/// `handle` ignoring ASCII case, in entry order (with repetitions).
pub open spec fn contribution_links(entries: Seq<ChangelogEntry>, handle: Seq<char>) -> Seq<
    Seq<char>,
>
    decreases entries.len(),
{
    if entries.len() == 0 {
        seq![]
    } else {
        let rest = contribution_links(entries.drop_last(), handle);
        match entries.last() {
            ChangelogEntry::HandAuthored(e) => if ascii_lowercase(e.author@) == ascii_lowercase(
                handle,
            ) {
                rest + e.references@.map_values(|r: Reference| md_link(r))
            } else {
                rest
            },
            ChangelogEntry::AwsSdkModel(_) => rest,
        }
    }
}

/// `- @handle`, then the contributor's distinct links in order, in parentheses.
pub open spec fn contributor_line(entries: Seq<ChangelogEntry>, handle: Seq<char>) -> Seq<char> {
    let refs = sorted_unique(contribution_links(entries, handle));
    "- @"@ + handle + (if refs.len() > 0 {
        " ("@ + join(refs, ", "@) + ")"@
    } else {
        seq![]
    }) + seq!['\n']
}

pub open spec fn contributor_lines(entries: Seq<ChangelogEntry>, handles: Seq<Seq<char>>) -> Seq<
    char,
>
    decreases handles.len(),
{
    if handles.len() == 0 {
        seq![]
    } else {
        contributor_lines(entries, handles.drop_last()) + contributor_line(entries, handles.last())
    }
}

/// The thanks section: every external contributor once, in order, or nothing when
/// there is none.
pub open spec fn rendered_contributors(entries: Seq<ChangelogEntry>) -> Seq<char> {
    let handles = sorted_unique(external_handles(entries));
    if handles.len() > 0 {
        "**Contributors**\nThank you for your contributions! ❤\n"@ + contributor_lines(
            entries,
            handles,
        )
    } else {
        seq![]
    }
}

fn external_handle_list(entries: &[ChangelogEntry]) -> (r: Vec<Vec<char>>)
    ensures
        views(r@) == external_handles(entries@),
{
    let mut r: Vec<Vec<char>> = Vec::new();
    let mut i: usize = 0;
    while i < entries.len()
        invariant
            i <= entries.len(),
            views(r@) == external_handles(entries@.take(i as int)),
        decreases entries.len() - i,
    {
        assert(entries@.take(i + 1).drop_last() =~= entries@.take(i as int));
        assert(entries@.take(i + 1).last() == entries@[i as int]);
        match &entries[i] {
            ChangelogEntry::HandAuthored(e) => {
                let a = to_ascii_lowercase(&to_chars(e.author.as_str()));
                if !is_maintainer_handle(&a) {
                    let ghost before = views(r@);
                    r.push(a);
                    assert(views(r@) =~= before.push(a@));
                }
            },
            ChangelogEntry::AwsSdkModel(_) => {},
        }
        i = i + 1;
    }
    assert(entries@.take(entries.len() as int) =~= entries@);
    r
}

fn contribution_link_list(entries: &[ChangelogEntry], handle: &Vec<char>) -> (r: Vec<Vec<char>>)
    ensures
        views(r@) == contribution_links(entries@, handle@),
{
    let lowered = to_ascii_lowercase(handle);
    let mut r: Vec<Vec<char>> = Vec::new();
    let mut i: usize = 0;
    while i < entries.len()
        invariant
            i <= entries.len(),
            lowered@ == ascii_lowercase(handle@),
            views(r@) == contribution_links(entries@.take(i as int), handle@),
        decreases entries.len() - i,
    {
        assert(entries@.take(i + 1).drop_last() =~= entries@.take(i as int));
        assert(entries@.take(i + 1).last() == entries@[i as int]);
        match &entries[i] {
            ChangelogEntry::HandAuthored(e) => {
                let a = to_ascii_lowercase(&to_chars(e.author.as_str()));
                if chars_eq(&a, &lowered) {
                    let links = reference_links(e);
                    let ghost before = views(r@);
                    let mut j: usize = 0;
                    while j < links.len()
                        invariant
                            j <= links.len(),
                            views(r@) == before + views(links@).take(j as int),
                        decreases links.len() - j,
                    {
                        let ghost mid = views(r@);
                        r.push(links[j].clone());
                        assert(views(r@) =~= mid.push(links@[j as int]@));
                        assert(views(links@).take(j + 1) =~= views(links@).take(j as int).push(
                            links@[j as int]@,
                        ));
                        j = j + 1;
                    }
                    assert(views(links@).take(links.len() as int) =~= views(links@));
                }
            },
            ChangelogEntry::AwsSdkModel(_) => {},
        }
        i = i + 1;
    }
    assert(entries@.take(entries.len() as int) =~= entries@);
    r
}

fn push_contributor_line(out: &mut Vec<char>, entries: &[ChangelogEntry], handle: &Vec<char>)
    ensures
        final(out)@ == old(out)@ + contributor_line(entries@, handle@),
{
    let links = contribution_link_list(entries, handle);
    let refs = sort_unique(&links);
    push_str(out, "- @");
    push_chars(out, handle);
    if refs.len() > 0 {
        push_str(out, " (");
        push_joined(out, &refs, ", ");
        push_str(out, ")");
    }
    out.push('\n');
    assert(out@ =~= old(out)@ + contributor_line(entries@, handle@));
}

/// Appends the thanks to the external contributors and their contributions.
pub fn get_contributors(entries: &[ChangelogEntry], out: &mut Vec<char>)
    ensures
        final(out)@ == old(out)@ + rendered_contributors(entries@),
{
    let handles = external_handle_list(entries);
    let external = sort_unique(&handles);
    if external.len() > 0 {
        push_str(out, "**Contributors**\nThank you for your contributions! ❤\n");
        let ghost start = out@;
        let mut i: usize = 0;
        while i < external.len()
            invariant
                i <= external.len(),
                out@ == start + contributor_lines(entries@, views(external@).take(i as int)),
            decreases external.len() - i,
        {
            push_contributor_line(out, entries, &external[i]);
            assert(views(external@).take(i + 1).drop_last() =~= views(external@).take(i as int));
            assert(views(external@).take(i + 1).last() == external@[i as int]@);
            assert(out@ =~= start + contributor_lines(entries@, views(external@).take(i + 1)));
            i = i + 1;
        }
        assert(views(external@).take(external.len() as int) =~= views(external@));
    }
    assert(out@ =~= old(out)@ + rendered_contributors(entries@));
}

// ---------------------------------------------------------------------------
// Server and client entries
// ---------------------------------------------------------------------------

/// Whether a hand-authored entry concerns the server SDK (`server` or `both`).
pub open spec fn affects_server(e: HandAuthoredEntry) -> bool {
    e.meta.sdk == Some(SdkAffected::Server) || e.meta.sdk == Some(SdkAffected::Both)
}

/// Whether a hand-authored entry concerns the client SDK (`client`, `both`, or no
/// `sdk` flag).
pub open spec fn affects_client(e: HandAuthoredEntry) -> bool {
    e.meta.sdk is None || e.meta.sdk == Some(SdkAffected::Client) || e.meta.sdk == Some(
        SdkAffected::Both,
    )
}

/// The hand-authored entries that `server` selects (`true`: server, `false`: client), in
/// order.
pub open spec fn sdk_entries(entries: Seq<ChangelogEntry>, server: bool) -> Seq<HandAuthoredEntry>
    decreases entries.len(),
{
    if entries.len() == 0 {
        seq![]
    } else {
        let rest = sdk_entries(entries.drop_last(), server);
        match entries.last() {
            ChangelogEntry::HandAuthored(e) => if (server && affects_server(e)) || (!server
                && affects_client(e)) {
                rest.push(e)
            } else {
                rest
            },
            ChangelogEntry::AwsSdkModel(_) => rest,
        }
    }
}

pub open spec fn derefs<'a>(v: Seq<&'a HandAuthoredEntry>) -> Seq<HandAuthoredEntry> {
    v.map_values(|e: &HandAuthoredEntry| *e)
}

/// The hand-authored entries for the server changelog and for the client changelog.
pub fn split_by_sdk(entries: &[ChangelogEntry]) -> (r: (
    Vec<&HandAuthoredEntry>,
    Vec<&HandAuthoredEntry>,
))
    ensures
        derefs(r.0@) == sdk_entries(entries@, true),
        derefs(r.1@) == sdk_entries(entries@, false),
{
    let mut se: Vec<&HandAuthoredEntry> = Vec::new();
    let mut ce: Vec<&HandAuthoredEntry> = Vec::new();
    let mut i: usize = 0;
    while i < entries.len()
        invariant
            i <= entries.len(),
            derefs(se@) == sdk_entries(entries@.take(i as int), true),
            derefs(ce@) == sdk_entries(entries@.take(i as int), false),
        decreases entries.len() - i,
    {
        assert(entries@.take(i + 1).drop_last() =~= entries@.take(i as int));
        assert(entries@.take(i + 1).last() == entries@[i as int]);
        let ghost se0 = derefs(se@);
        let ghost ce0 = derefs(ce@);
        if let ChangelogEntry::HandAuthored(he) = &entries[i] {
            match he.meta.sdk {
                None => ce.push(he),
                Some(affected_sdk) => match affected_sdk {
                    SdkAffected::Client => ce.push(he),
                    SdkAffected::Server => se.push(he),
                    SdkAffected::Both => {
                        ce.push(he);
                        se.push(he);
                    },
                },
            }
            assert(derefs(se@) =~= sdk_entries(entries@.take(i + 1), true));
            assert(derefs(ce@) =~= sdk_entries(entries@.take(i + 1), false));
        }
        i = i + 1;
    }
    assert(entries@.take(entries.len() as int) =~= entries@);
    (se, ce)
}

// ---------------------------------------------------------------------------
// Release notes
// ---------------------------------------------------------------------------

/// The release title underlined with one `=` per byte of the title.
pub open spec fn rendered_header(release_header: &str) -> Seq<char> {
    release_header@ + seq!['\n'] + Seq::new(release_header.len() as nat, |i: int| '=') + seq![
        '\n',
    ]
}

/// The release notes: hand-authored entries, SDK model entries, then contributors.
pub open spec fn rendered_body(entries: Seq<ChangelogEntry>) -> Seq<char> {
    rendered_hand_authored(entries) + rendered_model_entries(entries) + rendered_contributors(
        entries,
    )
}

/// Converts a list of changelog entries into markdown; returns (header, body).
pub fn render(entries: &[ChangelogEntry], release_header: &str) -> (r: (String, String))
    ensures
        r.0@ == rendered_header(release_header),
        r.1@ == rendered_body(entries@),
{
    let mut header: Vec<char> = Vec::new();
    push_str(&mut header, release_header);
    header.push('\n');
    let n = release_header.len();
    let ghost start = header@;
    let mut i: usize = 0;
    while i < n
        invariant
            i <= n,
            n == release_header.len(),
            header@ == start + Seq::new(i as nat, |k: int| '='),
        decreases n - i,
    {
        header.push('=');
        assert(header@ =~= start + Seq::new((i + 1) as nat, |k: int| '='));
        i = i + 1;
    }
    header.push('\n');
    assert(header@ =~= rendered_header(release_header));
    let mut out: Vec<char> = Vec::new();
    render_handauthored(entries, &mut out);
    render_sdk_model_entries(entries, &mut out);
    get_contributors(entries, &mut out);
    assert(out@ =~= rendered_body(entries@));
    (text_of(&header), text_of(&out))
}


// ---------------------------------------------------------------------------
// Laws
// ---------------------------------------------------------------------------

/// How many of an entry's flags (bug, breaking, notable) are set.
pub open spec fn flag_count(m: Meta) -> nat {
    (if m.bug { 1nat } else { 0nat }) + (if m.breaking { 1nat } else { 0nat }) + (if m.tada {
        1nat
    } else {
        0nat
    })
}

proof fn lemma_marks_of_flags(m: Meta)
    ensures
        meta_marks(m).len() == flag_count(m),
        meta_marks(m).contains('🐛') == m.bug,
        meta_marks(m).contains('⚠') == m.breaking,
        meta_marks(m).contains('🎉') == m.tada,
        m.bug ==> meta_marks(m)[0] == '🐛',
        m.tada ==> meta_marks(m).last() == '🎉',
{
    let k = meta_marks(m);
    let b: Seq<char> = if m.bug { seq!['🐛'] } else { seq![] };
    let w: Seq<char> = if m.breaking { seq!['⚠'] } else { seq![] };
    let t: Seq<char> = if m.tada { seq!['🎉'] } else { seq![] };
    assert(k =~= b + w + t);
    assert forall|c: char| k.contains(c) implies (c == '🐛' && m.bug) || (c == '⚠' && m.breaking)
        || (c == '🎉' && m.tada) by {
        let i = choose|i: int| 0 <= i < k.len() && k[i] == c;
        if i < b.len() {
            assert(k[i] == b[i]);
        } else if i < b.len() + w.len() {
            assert(k[i] == w[i - b.len()]);
        } else {
            assert(k[i] == t[i - b.len() - w.len()]);
        }
    }
    if m.bug {
        assert(k[0] == '🐛');
    }
    if m.breaking {
        assert(k[b.len() as int] == '⚠');
    }
    if m.tada {
        assert(k[(b.len() + w.len()) as int] == '🎉');
    }
}

/// After `- `, an entry shows one mark per set flag, in the order bug, breaking,
/// notable: 🐛 exactly when it fixes a bug, ⚠ exactly when it is breaking and 🎉
/// exactly when it is notable, each whatever the other flags are.
pub proof fn lemma_entry_marks_follow_flags(e: HandAuthoredEntry)
    ensures
        rendered_entry(e).len() >= 2 + flag_count(e.meta),
        rendered_entry(e).take(2) == seq!['-', ' '],
        rendered_entry(e).subrange(2, 2 + flag_count(e.meta) as int).contains('🐛') == e.meta.bug,
        rendered_entry(e).subrange(2, 2 + flag_count(e.meta) as int).contains('⚠') == e.meta.breaking,
        rendered_entry(e).subrange(2, 2 + flag_count(e.meta) as int).contains('🎉') == e.meta.tada,
        e.meta.bug ==> rendered_entry(e)[2] == '🐛',
        e.meta.tada ==> rendered_entry(e)[1 + flag_count(e.meta) as int] == '🎉',
{
    let m = e.meta;
    lemma_marks_of_flags(m);
    let k = meta_marks(m);
    let n = flag_count(m) as int;
    let r = rendered_entry(e);
    let p = entry_prefix(e);
    assert(p.len() >= k.len() && p.subrange(0, k.len() as int) =~= k) by {
        let marks = if k.len() > 0 { k.push(' ') } else { k };
        assert(marks.subrange(0, k.len() as int) =~= k);
        let labels = reference_labels(e);
        if labels.len() > 0 {
            let q = marks + seq!['('] + join(labels, ", "@) + seq![')', ' '];
            assert(q.subrange(0, k.len() as int) =~= k);
        }
    }
    assert(r =~= seq!['-', ' '] + p + indented(e.message@));
    assert(r.take(2) =~= seq!['-', ' ']);
    assert(r.subrange(2, 2 + n) =~= k) by {
        assert forall|i: int| 0 <= i < n implies r.subrange(2, 2 + n)[i] == k[i] by {
            assert(r[2 + i] == p[i]);
            assert(p[i] == p.subrange(0, k.len() as int)[i]);
        }
    }
    if m.bug {
        assert(r[2] == r.subrange(2, 2 + n)[0]);
    }
    if m.tada {
        assert(r[1 + n] == r.subrange(2, 2 + n)[n - 1]);
    }
}

/// In a two-line message the second line is indented by four spaces under the first.
pub proof fn lemma_second_line_indented(first: Seq<char>, second: Seq<char>)
    requires
        !has_newline(first),
        !has_newline(second),
        second.len() > 0,
        first.len() == 0 || first.last() != '\r',
    ensures
        indented(first + seq!['\n'] + second) == first + seq!['\n', ' ', ' ', ' ', ' '] + second,
{
    crate::text::lemma_lines_step(first, second);
    lemma_lines_no_newline(second);
    let ls = lines(first + seq!['\n'] + second);
    assert(crate::text::strip_cr(first) == first);
    assert(ls =~= seq![first, second]);
    assert(ls.drop_last() =~= seq![first]);
    assert(indent_lines(ls.drop_last()) == first);
    assert(ls.last() == second);
    assert(indented(first + seq!['\n'] + second) =~= first + seq!['\n', ' ', ' ', ' ', ' '] + second);
}

/// A message without line breaks is rendered as it is.
pub proof fn lemma_single_line_message_unchanged(message: Seq<char>)
    requires
        !has_newline(message),
    ensures
        indented(message) == message,
{
    lemma_lines_no_newline(message);
    if message.len() == 0 {
        assert(indented(message) =~= message);
    }
}

proof fn lemma_external_handles_contains(entries: Seq<ChangelogEntry>, h: Seq<char>)
    ensures
        external_handles(entries).contains(h) <==> (!is_maintainer(h) && exists|i: int|
            0 <= i < entries.len() && (#[trigger] entries[i] matches ChangelogEntry::HandAuthored(e)
                && ascii_lowercase(e.author@) == h)),
    decreases entries.len(),
{
    if entries.len() > 0 {
        let init = entries.drop_last();
        lemma_external_handles_contains(init, h);
        let rest = external_handles(init);
        if external_handles(entries).contains(h) {
            let k = choose|k: int| 0 <= k < external_handles(entries).len() && external_handles(entries)[k] == h;
            if k < rest.len() {
                assert(rest[k] == h);
                let i = choose|i: int| 0 <= i < init.len() && (#[trigger] init[i] matches ChangelogEntry::HandAuthored(e)
                    && ascii_lowercase(e.author@) == h);
                assert(entries[i] == init[i]);
            } else {
                assert(entries[entries.len() - 1] == entries.last());
            }
        }
        if !is_maintainer(h) && exists|i: int| 0 <= i < entries.len() && (#[trigger] entries[i] matches ChangelogEntry::HandAuthored(e)
            && ascii_lowercase(e.author@) == h) {
            let i = choose|i: int| 0 <= i < entries.len() && (#[trigger] entries[i] matches ChangelogEntry::HandAuthored(e)
                && ascii_lowercase(e.author@) == h);
            if i < entries.len() - 1 {
                assert(init[i] == entries[i]);
                let k = choose|k: int| 0 <= k < rest.len() && rest[k] == h;
                assert(external_handles(entries)[k] == h);
            } else {
                assert(external_handles(entries) == rest.push(h));
                assert(external_handles(entries)[rest.len() as int] == h);
            }
        }
    }
}

/// The thanks section names each external contributor once and in order: the
/// lower-cased authors of the hand-authored entries who are not maintainers.
pub proof fn lemma_contributors_are_the_external_authors(entries: Seq<ChangelogEntry>)
    ensures
        strictly_sorted(sorted_unique(external_handles(entries))),
        forall|h: Seq<char>|
            #![trigger sorted_unique(external_handles(entries)).contains(h)]
            sorted_unique(external_handles(entries)).contains(h) <==> (!is_maintainer(h)
                && exists|i: int|
                0 <= i < entries.len() && (#[trigger] entries[i] matches ChangelogEntry::HandAuthored(
                    e,
                ) && ascii_lowercase(e.author@) == h)),
{
    lemma_sorted_unique_exists(external_handles(entries));
    assert forall|h: Seq<char>|
        #![trigger sorted_unique(external_handles(entries)).contains(h)]
        sorted_unique(external_handles(entries)).contains(h) <==> (!is_maintainer(h) && exists|i: int|
            0 <= i < entries.len() && (#[trigger] entries[i] matches ChangelogEntry::HandAuthored(e)
                && ascii_lowercase(e.author@) == h)) by {
        lemma_external_handles_contains(entries, h);
    }
}

/// Whether `c` is a hand-authored entry by `handle` (ignoring ASCII case) with a
/// reference whose link is `link`.
pub open spec fn entry_has_link(c: ChangelogEntry, handle: Seq<char>, link: Seq<char>) -> bool {
    c matches ChangelogEntry::HandAuthored(e) && ascii_lowercase(e.author@) == ascii_lowercase(
        handle,
    ) && exists|j: int| 0 <= j < e.references@.len() && md_link(#[trigger] e.references@[j]) == link
}

proof fn lemma_contribution_links_contains(
    entries: Seq<ChangelogEntry>,
    handle: Seq<char>,
    link: Seq<char>,
)
    ensures
        contribution_links(entries, handle).contains(link) <==> exists|i: int|
            0 <= i < entries.len() && entry_has_link(#[trigger] entries[i], handle, link),
    decreases entries.len(),
{
    if entries.len() > 0 {
        let init = entries.drop_last();
        lemma_contribution_links_contains(init, handle, link);
        let rest = contribution_links(init, handle);
        let whole = contribution_links(entries, handle);
        let last = entries.last();
        assert(entries[entries.len() - 1] == last);
        assert forall|i: int| 0 <= i < init.len() implies entries[i] == init[i] by {}
        match last {
            ChangelogEntry::HandAuthored(e) => {
                if ascii_lowercase(e.author@) == ascii_lowercase(handle) {
                    let links = e.references@.map_values(|r: Reference| md_link(r));
                    assert(whole == rest + links);
                    if whole.contains(link) {
                        let k = choose|k: int| 0 <= k < whole.len() && whole[k] == link;
                        if k < rest.len() {
                            assert(rest[k] == link);
                            let i = choose|i: int| 0 <= i < init.len() && entry_has_link(
                                #[trigger] init[i],
                                handle,
                                link,
                            );
                            assert(entries[i] == init[i]);
                        } else {
                            assert(links[k - rest.len()] == link);
                            assert(md_link(e.references@[k - rest.len()]) == link);
                            assert(entry_has_link(entries[entries.len() - 1], handle, link));
                        }
                    }
                    if exists|i: int| 0 <= i < entries.len() && entry_has_link(#[trigger] entries[i], handle, link) {
                        let i = choose|i: int| 0 <= i < entries.len() && entry_has_link(#[trigger] entries[i], handle, link);
                        if i < entries.len() - 1 {
                            assert(entry_has_link(init[i], handle, link));
                            let k = choose|k: int| 0 <= k < rest.len() && rest[k] == link;
                            assert(whole[k] == link);
                        } else {
                            let j = choose|j: int| 0 <= j < e.references@.len() && md_link(#[trigger] e.references@[j]) == link;
                            assert(whole[rest.len() + j] == link);
                        }
                    }
                } else {
                    if exists|i: int| 0 <= i < entries.len() && entry_has_link(#[trigger] entries[i], handle, link) {
                        let i = choose|i: int| 0 <= i < entries.len() && entry_has_link(#[trigger] entries[i], handle, link);
                        if i == entries.len() - 1 {
                            assert(false);
                        }
                        assert(entry_has_link(init[i], handle, link));
                    }
                    if whole.contains(link) {
                        let i = choose|i: int| 0 <= i < init.len() && entry_has_link(#[trigger] init[i], handle, link);
                        assert(entries[i] == init[i]);
                    }
                }
            },
            ChangelogEntry::AwsSdkModel(_) => {
                if exists|i: int| 0 <= i < entries.len() && entry_has_link(#[trigger] entries[i], handle, link) {
                    let i = choose|i: int| 0 <= i < entries.len() && entry_has_link(#[trigger] entries[i], handle, link);
                    if i == entries.len() - 1 {
                        assert(false);
                    }
                    assert(entry_has_link(init[i], handle, link));
                }
                if whole.contains(link) {
                    let i = choose|i: int| 0 <= i < init.len() && entry_has_link(#[trigger] init[i], handle, link);
                    assert(entries[i] == init[i]);
                }
            },
        }
    }
}

/// A contributor's line lists, sorted and each once, exactly the links of the
/// references of all the hand-authored entries of that contributor.
pub proof fn lemma_contributor_links_are_all_contributions(
    entries: Seq<ChangelogEntry>,
    handle: Seq<char>,
)
    ensures
        strictly_sorted(sorted_unique(contribution_links(entries, handle))),
        forall|link: Seq<char>|
            #![trigger sorted_unique(contribution_links(entries, handle)).contains(link)]
            sorted_unique(contribution_links(entries, handle)).contains(link) <==> exists|i: int|
                0 <= i < entries.len() && entry_has_link(#[trigger] entries[i], handle, link),
{
    lemma_sorted_unique_exists(contribution_links(entries, handle));
    assert forall|link: Seq<char>|
        #![trigger sorted_unique(contribution_links(entries, handle)).contains(link)]
        sorted_unique(contribution_links(entries, handle)).contains(link) <==> exists|i: int|
            0 <= i < entries.len() && entry_has_link(#[trigger] entries[i], handle, link) by {
        lemma_contribution_links_contains(entries, handle, link);
    }
}

/// Release notes are empty exactly when there are no entries.
pub proof fn lemma_body_empty_iff_no_entries(entries: Seq<ChangelogEntry>)
    ensures
        rendered_body(entries).len() == 0 <==> entries.len() == 0,
{
    if entries.len() == 0 {
        let e: Seq<Seq<char>> = seq![];
        assert(external_handles(entries) =~= e);
        crate::text::lemma_sorted_unique_is(e, e);
        assert(rendered_body(entries) =~= seq![]);
    } else {
        match entries.last() {
            ChangelogEntry::HandAuthored(e) => {
                assert(hand_authored_lines(entries, e.meta.breaking).len() > 0);
            },
            ChangelogEntry::AwsSdkModel(m) => {
                assert(model_lines(entries, m.kind == SdkModelChangeKind::Feature).len() > 0);
            },
        }
    }
}

/// Whether `e` stands among the entries.
pub open spec fn has_hand_authored(entries: Seq<ChangelogEntry>, e: HandAuthoredEntry) -> bool {
    exists|i: int| 0 <= i < entries.len() && #[trigger] entries[i] == ChangelogEntry::HandAuthored(e)
}

/// An entry is on the server side exactly when it is flagged `server` or `both`, and on
/// the client side exactly when it is flagged `client`, `both` or not at all, whatever
/// its other flags.
pub proof fn lemma_split_by_sdk_sides(entries: Seq<ChangelogEntry>, e: HandAuthoredEntry)
    ensures
        sdk_entries(entries, true).contains(e) <==> (has_hand_authored(entries, e) && (e.meta.sdk
            == Some(SdkAffected::Server) || e.meta.sdk == Some(SdkAffected::Both))),
        sdk_entries(entries, false).contains(e) <==> (has_hand_authored(entries, e) && (
        e.meta.sdk is None || e.meta.sdk == Some(SdkAffected::Client) || e.meta.sdk == Some(
            SdkAffected::Both,
        ))),
    decreases entries.len(),
{
    if entries.len() > 0 {
        let init = entries.drop_last();
        lemma_split_by_sdk_sides(init, e);
        let last = entries.last();
        assert(entries[entries.len() - 1] == last);
        assert forall|i: int| 0 <= i < init.len() implies entries[i] == init[i] by {}
        assert(has_hand_authored(entries, e) <==> (has_hand_authored(init, e) || last
            == ChangelogEntry::HandAuthored(e))) by {
            if has_hand_authored(entries, e) {
                let i = choose|i: int| 0 <= i < entries.len() && #[trigger] entries[i]
                    == ChangelogEntry::HandAuthored(e);
                if i < init.len() {
                    assert(init[i] == entries[i]);
                }
            }
            if has_hand_authored(init, e) {
                let i = choose|i: int| 0 <= i < init.len() && #[trigger] init[i]
                    == ChangelogEntry::HandAuthored(e);
                assert(entries[i] == init[i]);
            }
        }
        assert forall|server: bool|
            #![trigger sdk_entries(entries, server)]
            sdk_entries(entries, server).contains(e) <==> (sdk_entries(init, server).contains(e)
                || (last == ChangelogEntry::HandAuthored(e) && ((server && (e.meta.sdk == Some(
                SdkAffected::Server) || e.meta.sdk == Some(SdkAffected::Both))) || (!server && (
            e.meta.sdk is None || e.meta.sdk == Some(SdkAffected::Client) || e.meta.sdk == Some(
                SdkAffected::Both,
            )))))) by {
            let rest = sdk_entries(init, server);
            let whole = sdk_entries(entries, server);
            match last {
                ChangelogEntry::HandAuthored(x) => {
                    if (server && affects_server(x)) || (!server && affects_client(x)) {
                        assert(whole == rest.push(x));
                        if whole.contains(e) {
                            let k = choose|k: int| 0 <= k < whole.len() && whole[k] == e;
                            if k < rest.len() {
                                assert(rest[k] == e);
                            }
                        }
                        if rest.contains(e) {
                            let k = choose|k: int| 0 <= k < rest.len() && rest[k] == e;
                            assert(whole[k] == e);
                        }
                        if x == e {
                            assert(whole[rest.len() as int] == e);
                        }
                    } else {
                        assert(whole == rest);
                    }
                },
                ChangelogEntry::AwsSdkModel(_) => {
                    assert(whole == rest);
                },
            }
        }
        assert(sdk_entries(entries, true).contains(e) == (sdk_entries(init, true).contains(e) || (
        last == ChangelogEntry::HandAuthored(e) && (e.meta.sdk == Some(SdkAffected::Server)
            || e.meta.sdk == Some(SdkAffected::Both)))));
        assert(sdk_entries(entries, false).contains(e) == (sdk_entries(init, false).contains(e) || (
        last == ChangelogEntry::HandAuthored(e) && (e.meta.sdk is None || e.meta.sdk == Some(
            SdkAffected::Client,
        ) || e.meta.sdk == Some(SdkAffected::Both)))));
    } else {
        assert(!has_hand_authored(entries, e));
    }
}

/// The entry sections of two lists of entries one after the other are the sections of
/// each, one after the other.
pub proof fn lemma_sections_of_concatenation(a: Seq<ChangelogEntry>, b: Seq<ChangelogEntry>, flag: bool)
    ensures
        hand_authored_lines(a + b, flag) == hand_authored_lines(a, flag) + hand_authored_lines(b, flag),
        model_lines(a + b, flag) == model_lines(a, flag) + model_lines(b, flag),
    decreases b.len(),
{
    if b.len() == 0 {
        assert(a + b =~= a);
        assert(hand_authored_lines(a, flag) + hand_authored_lines(b, flag) =~= hand_authored_lines(a, flag));
        assert(model_lines(a, flag) + model_lines(b, flag) =~= model_lines(a, flag));
    } else {
        lemma_sections_of_concatenation(a, b.drop_last(), flag);
        assert((a + b).drop_last() =~= a + b.drop_last());
        assert((a + b).last() == b.last());
        match b.last() {
            ChangelogEntry::HandAuthored(e) => {
                assert(hand_authored_lines(a + b, flag) =~= hand_authored_lines(a, flag) + hand_authored_lines(b, flag));
            },
            ChangelogEntry::AwsSdkModel(m) => {
                assert(model_lines(a + b, flag) =~= model_lines(a, flag) + model_lines(b, flag));
            },
        }
    }
}

/// A hand-authored entry is listed under the breaking changes exactly when it is
/// breaking, under the other changes exactly when it is not, and never among the SDK
/// model updates; an SDK model update is listed under the features exactly when it is
/// a feature, under the documentation updates exactly when it is not, and never among
/// the hand-authored changes.
pub proof fn lemma_section_of_one_entry(c: ChangelogEntry, flag: bool)
    ensures
        c matches ChangelogEntry::HandAuthored(e) ==> {
            &&& hand_authored_lines(seq![c], flag) == (if e.meta.breaking == flag {
                rendered_entry(e) + seq!['\n']
            } else {
                seq![]
            })
            &&& model_lines(seq![c], flag) == Seq::<char>::empty()
        },
        c matches ChangelogEntry::AwsSdkModel(m) ==> {
            &&& model_lines(seq![c], flag) == (if (m.kind == SdkModelChangeKind::Feature) == flag {
                rendered_model_entry(m) + seq!['\n']
            } else {
                seq![]
            })
            &&& hand_authored_lines(seq![c], flag) == Seq::<char>::empty()
        },
{
    let s = seq![c];
    assert(s.drop_last() =~= Seq::<ChangelogEntry>::empty());
    assert(s.last() == c);
    assert(hand_authored_lines(s.drop_last(), flag) =~= seq![]);
    assert(model_lines(s.drop_last(), flag) =~= seq![]);
    match c {
        ChangelogEntry::HandAuthored(e) => {
            if e.meta.breaking == flag {
                assert(hand_authored_lines(s, flag) =~= rendered_entry(e) + seq!['\n']);
            }
        },
        ChangelogEntry::AwsSdkModel(m) => {
            if (m.kind == SdkModelChangeKind::Feature) == flag {
                assert(model_lines(s, flag) =~= rendered_model_entry(m) + seq!['\n']);
            }
        },
    }
}

/// The number of hand-authored entries.
pub open spec fn hand_authored_count(entries: Seq<ChangelogEntry>) -> nat
    decreases entries.len(),
{
    if entries.len() == 0 {
        0
    } else {
        hand_authored_count(entries.drop_last()) + match entries.last() {
            ChangelogEntry::HandAuthored(_) => 1nat,
            ChangelogEntry::AwsSdkModel(_) => 0nat,
        }
    }
}

/// The number of hand-authored entries flagged for both SDKs.
pub open spec fn both_count(entries: Seq<ChangelogEntry>) -> nat
    decreases entries.len(),
{
    if entries.len() == 0 {
        0
    } else {
        both_count(entries.drop_last()) + match entries.last() {
            ChangelogEntry::HandAuthored(e) => if e.meta.sdk == Some(SdkAffected::Both) {
                1nat
            } else {
                0nat
            },
            ChangelogEntry::AwsSdkModel(_) => 0nat,
        }
    }
}

/// Splitting by SDK loses no entry: each hand-authored entry lands on one side, and
/// those flagged for both SDKs on both.
pub proof fn lemma_split_by_sdk_keeps_every_entry(entries: Seq<ChangelogEntry>)
    ensures
        sdk_entries(entries, true).len() + sdk_entries(entries, false).len() == hand_authored_count(
            entries,
        ) + both_count(entries),
    decreases entries.len(),
{
    if entries.len() > 0 {
        lemma_split_by_sdk_keeps_every_entry(entries.drop_last());
        match entries.last() {
            ChangelogEntry::HandAuthored(e) => {
                match e.meta.sdk {
                    None => {},
                    Some(SdkAffected::Client) => {},
                    Some(SdkAffected::Server) => {},
                    Some(SdkAffected::Both) => {},
                }
            },
            ChangelogEntry::AwsSdkModel(_) => {},
        }
    }
}

} // verus!

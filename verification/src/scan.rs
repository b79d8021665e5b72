//! The scan of the installed extensions: where the manifest of each is
//! looked for, and what the manifests that were read amount to.

use vstd::prelude::*;
use vstd::seq_lib::*;
use vstd::string::*;

use crate::themes::ThemeEntry;
use crate::vscode_data::{Manifest, Result, Theme};

verus! {

/// The name of the manifest file inside the directory of an extension.
pub const MANIFEST_FILE_NAME: &'static str = "package.json";

/// An install location without the separator that the encoding of a path
/// as a URI puts in front of a drive letter: on Windows one leading `/` is
/// dropped, elsewhere the location stays as it is.
pub open spec fn install_dir(location: Seq<char>, windows: bool) -> Seq<char> {
    if windows && location.len() > 0 && location[0] == '/' {
        location.skip(1)
    } else {
        location
    }
}

/// Undoes what the encoding as a URI did to an install location.
pub fn undo_the_node_path_thing(s: &str, windows: bool) -> (path: &str)
    ensures
        path@ == install_dir(s@, windows),
{
    if windows {
        let n = s.unicode_len();
        if n > 0 && s.get_char(0) == '/' {
            return s.substring_char(1, n);
        }
    }
    s
}

/// What came of reading the manifest of one installed extension: the
/// manifest, or nothing where it could not be found or understood.
#[derive(Debug)]
pub struct ManifestScan {
    pub record: Result,
    pub manifest: Option<Manifest>,
}

/// The labels of the themes that a manifest declares, in its order.
pub open spec fn declared_labels(manifest: Manifest) -> Seq<Seq<char>> {
    manifest.contributes.themes@.map_values(|theme: Theme| theme.label@)
}

/// The entries that the extension `id` contributes by declaring `labels`:
/// one for each label, in their order, but none that would name no theme or
/// no extension. An empty label is passed over, and an extension without
/// identifier contributes nothing.
pub open spec fn contributions(id: Seq<char>, labels: Seq<Seq<char>>) -> Seq<ThemeEntry>
    decreases labels.len(),
{
    if labels.len() == 0 {
        Seq::empty()
    } else {
        let earlier = contributions(id, labels.drop_last());
        let entry = ThemeEntry { label: labels.last(), id };
        if entry.is_named() {
            earlier.push(entry)
        } else {
            earlier
        }
    }
}

/// The contributions of the first `j + 1` labels are those of the first `j`,
/// followed by the entry of the label at `j` where that entry is named.
pub proof fn lemma_contributions_step(id: Seq<char>, labels: Seq<Seq<char>>, j: int)
    requires
        0 <= j < labels.len(),
    ensures
        contributions(id, labels.take(j + 1)) == if labels[j].len() > 0 && id.len() > 0 {
            contributions(id, labels.take(j)).push(ThemeEntry { label: labels[j], id })
        } else {
            contributions(id, labels.take(j))
        },
{
    assert(labels.take(j + 1).drop_last() =~= labels.take(j));
}

/// Every contribution names a theme and an extension, and carries the
/// identifier of the extension and one of the labels.
pub proof fn lemma_contributions_are_named(id: Seq<char>, labels: Seq<Seq<char>>)
    ensures
        forall|k: int|
            0 <= k < contributions(id, labels).len() ==> {
                &&& (#[trigger] contributions(id, labels)[k]).is_named()
                &&& contributions(id, labels)[k].id == id
                &&& labels.contains(contributions(id, labels)[k].label)
            },
    decreases labels.len(),
{
    if labels.len() > 0 {
        lemma_contributions_are_named(id, labels.drop_last());
        let earlier = contributions(id, labels.drop_last());
        assert forall|k: int| 0 <= k < contributions(id, labels).len() implies {
            &&& (#[trigger] contributions(id, labels)[k]).is_named()
            &&& contributions(id, labels)[k].id == id
            &&& labels.contains(contributions(id, labels)[k].label)
        } by {
            if k < earlier.len() {
                let label = earlier[k].label;
                let rest = labels.drop_last();
                let at = choose|at: int| 0 <= at < rest.len() && rest[at] == label;
                assert(labels[at] == label);
            } else {
                assert(labels[labels.len() - 1] == labels.last());
            }
        }
    }
}

/// Where the extension has an identifier and every label is a text, nothing
/// is passed over: there is one contribution for each label.
pub proof fn lemma_contributions_of_named(id: Seq<char>, labels: Seq<Seq<char>>)
    requires
        id.len() > 0,
        forall|j: int| 0 <= j < labels.len() ==> (#[trigger] labels[j]).len() > 0,
    ensures
        contributions(id, labels) == labels.map_values(|label: Seq<char>| ThemeEntry { label, id }),
    decreases labels.len(),
{
    if labels.len() > 0 {
        lemma_contributions_of_named(id, labels.drop_last());
    }
    assert(contributions(id, labels) =~= labels.map_values(
        |label: Seq<char>| ThemeEntry { label, id },
    ));
}

impl ManifestScan {
    /// The entries that this extension adds to the index: one for each theme
    /// of its manifest that has a label, none where the extension has no
    /// identifier, and none where there is no manifest.
    pub open spec fn entries(self) -> Seq<ThemeEntry> {
        match self.manifest {
            Some(manifest) => contributions(self.record.identifier.id@, declared_labels(manifest)),
            None => Seq::empty(),
        }
    }

    /// Whether the scan names what it found: the identifier of the
    /// extension is not empty, and neither is the label of any theme that
    /// its manifest declares.
    pub open spec fn is_named(self) -> bool {
        &&& self.record.identifier.id@.len() > 0
        &&& self.manifest matches Some(manifest) ==> forall|j: int|
            0 <= j < declared_labels(manifest).len() ==> (#[trigger] declared_labels(
                manifest,
            )[j]).len() > 0
    }
}

/// The index that a sequence of scans amounts to: the entries of each scan,
/// one scan after the other.
pub open spec fn collated(scans: Seq<ManifestScan>) -> Seq<ThemeEntry>
    decreases scans.len(),
{
    if scans.len() == 0 {
        Seq::empty()
    } else {
        collated(scans.drop_last()) + scans.last().entries()
    }
}

/// Collating one scan more appends the entries of that scan.
pub proof fn lemma_collated_step(scans: Seq<ManifestScan>, i: int)
    requires
        0 <= i < scans.len(),
    ensures
        collated(scans.take(i + 1)) == collated(scans.take(i)) + scans[i].entries(),
{
    assert(scans.take(i + 1).drop_last() =~= scans.take(i));
}

/// Collating two runs of scans one after the other is collating each and
/// joining the results.
pub proof fn lemma_collated_concat(first: Seq<ManifestScan>, second: Seq<ManifestScan>)
    ensures
        collated(first + second) == collated(first) + collated(second),
    decreases second.len(),
{
    if second.len() == 0 {
        assert(first + second =~= first);
        assert(collated(first) + collated(second) =~= collated(first));
    } else {
        lemma_collated_concat(first, second.drop_last());
        assert((first + second).drop_last() =~= first + second.drop_last());
        assert((first + second).last() == second.last());
        assert(collated(first + second) =~= collated(first) + collated(second));
    }
}

/// A single scan amounts to its own entries.
pub proof fn lemma_collated_one(scan: ManifestScan)
    ensures
        collated(seq![scan]) == scan.entries(),
{
    let one = seq![scan];
    assert(one.drop_last() =~= Seq::<ManifestScan>::empty());
    assert(one.last() == scan);
    assert(collated(one.drop_last()) =~= Seq::<ThemeEntry>::empty());
    assert(collated(one) =~= scan.entries());
}

/// The index seen from one scan: the index of the scans before it, its own
/// entries, and the index of the scans after it. Without that scan the
/// index is the first part followed by the last.
pub proof fn lemma_collated_around(scans: Seq<ManifestScan>, i: int)
    requires
        0 <= i < scans.len(),
    ensures
        collated(scans) == collated(scans.take(i)) + scans[i].entries() + collated(
            scans.skip(i + 1),
        ),
        collated(scans.remove(i)) == collated(scans.take(i)) + collated(scans.skip(i + 1)),
{
    let before = scans.take(i);
    let after = scans.skip(i + 1);
    let one = seq![scans[i]];
    assert(scans =~= before + one + after);
    assert(scans.remove(i) =~= before + after);
    lemma_collated_concat(before + one, after);
    lemma_collated_concat(before, one);
    lemma_collated_concat(before, after);
    lemma_collated_one(scans[i]);
}

/// A scan that came back without a manifest adds nothing: the index is the
/// one that the other scans give.
pub proof fn lemma_missing_manifest_adds_nothing(scans: Seq<ManifestScan>, i: int)
    requires
        0 <= i < scans.len(),
        scans[i].manifest is None,
    ensures
        collated(scans) == collated(scans.remove(i)),
{
    lemma_collated_around(scans, i);
    assert(collated(scans.take(i)) + scans[i].entries() =~= collated(scans.take(i)));
}

/// The index holds nothing where no manifest could be read.
pub proof fn lemma_no_manifest_no_entries(scans: Seq<ManifestScan>)
    requires
        forall|i: int| 0 <= i < scans.len() ==> (#[trigger] scans[i]).manifest is None,
    ensures
        collated(scans) == Seq::<ThemeEntry>::empty(),
    decreases scans.len(),
{
    if scans.len() > 0 {
        lemma_no_manifest_no_entries(scans.drop_last());
        assert(collated(scans) =~= Seq::<ThemeEntry>::empty());
    }
}

/// The index holds the same entries, each as often, in whatever order the
/// scans come in: scans that are a rearrangement of one another give
/// indexes that are a rearrangement of one another.
pub proof fn lemma_collated_any_order(first: Seq<ManifestScan>, second: Seq<ManifestScan>)
    requires
        first.to_multiset() == second.to_multiset(),
    ensures
        collated(first).to_multiset() == collated(second).to_multiset(),
    decreases first.len(),
{
    broadcast use vstd::multiset::group_multiset_axioms;

    to_multiset_len(first);
    to_multiset_len(second);
    if first.len() == 0 {
        assert(first =~= second);
    } else {
        let last = first.last();
        let rest = first.drop_last();
        assert(first =~= rest.push(last));
        to_multiset_build(rest, last);
        to_multiset_contains(second, last);
        let at = choose|at: int| 0 <= at < second.len() && second[at] == last;
        let others = second.remove(at);
        to_multiset_remove(second, at);
        assert(rest.to_multiset() =~= others.to_multiset());
        lemma_collated_any_order(rest, others);
        lemma_collated_around(second, at);

        let before = collated(second.take(at));
        let after = collated(second.skip(at + 1));
        lemma_multiset_commutative(collated(rest), last.entries());
        lemma_multiset_commutative(before + last.entries(), after);
        lemma_multiset_commutative(before, last.entries());
        lemma_multiset_commutative(before, after);
        assert(collated(first).to_multiset() =~= collated(second).to_multiset());
    }
}

/// Every entry of the index names a theme and an extension: neither its
/// label nor its identifier is empty, whatever the scans hold.
pub proof fn lemma_collated_is_named(scans: Seq<ManifestScan>)
    ensures
        forall|k: int|
            0 <= k < collated(scans).len() ==> (#[trigger] collated(scans)[k]).is_named(),
{
    assert forall|k: int| 0 <= k < collated(scans).len() implies (#[trigger] collated(
        scans,
    )[k]).is_named() by {
        lemma_entry_has_origin(scans, k);
        let (i, j) = choose|i: int, j: int|
            0 <= i < scans.len() && 0 <= j < #[trigger] scans[i].entries().len() && collated(
                scans,
            )[k] == #[trigger] scans[i].entries()[j];
        let manifest = scans[i].manifest->0;
        lemma_contributions_are_named(scans[i].record.identifier.id@, declared_labels(manifest));
    }
}

/// The number of themes that a scan found: those that its manifest
/// declares, and none where there is no manifest.
pub open spec fn declared_count(scan: ManifestScan) -> nat {
    match scan.manifest {
        Some(manifest) => manifest.contributes.themes@.len(),
        None => 0,
    }
}

/// A scan that names what it found loses nothing: it adds one entry for
/// each theme that its manifest declares.
pub proof fn lemma_named_scan_keeps_all(scan: ManifestScan)
    requires
        scan.is_named(),
    ensures
        scan.entries().len() == declared_count(scan),
{
    if scan.manifest is Some {
        lemma_contributions_of_named(
            scan.record.identifier.id@,
            declared_labels(scan.manifest->0),
        );
    }
}

/// The number of entries that all the scans add together.
pub open spec fn total_entries(scans: Seq<ManifestScan>) -> nat
    decreases scans.len(),
{
    if scans.len() == 0 {
        0
    } else {
        total_entries(scans.drop_last()) + scans.last().entries().len()
    }
}

/// The index holds the entries of every scan, no more and no fewer.
pub proof fn lemma_collated_len(scans: Seq<ManifestScan>)
    ensures
        collated(scans).len() == total_entries(scans),
    decreases scans.len(),
{
    if scans.len() > 0 {
        lemma_collated_len(scans.drop_last());
    }
}

/// Where the manifest of every extension was read and declares exactly one
/// theme, and every scan names what it found, the index holds as many
/// entries as there are extensions.
pub proof fn lemma_one_theme_each(scans: Seq<ManifestScan>)
    requires
        forall|i: int|
            0 <= i < scans.len() ==> (#[trigger] scans[i]).is_named() && declared_count(scans[i])
                == 1,
    ensures
        collated(scans).len() == scans.len(),
    decreases scans.len(),
{
    if scans.len() > 0 {
        lemma_one_theme_each(scans.drop_last());
        lemma_named_scan_keeps_all(scans.last());
    }
}

/// Every entry of the index stems from a scan: it carries the identifier of
/// an extension whose manifest was read, and a label which that manifest
/// declares.
pub proof fn lemma_entry_has_origin(scans: Seq<ManifestScan>, k: int)
    requires
        0 <= k < collated(scans).len(),
    ensures
        exists|i: int, j: int|
            0 <= i < scans.len() && 0 <= j < #[trigger] scans[i].entries().len() && collated(
                scans,
            )[k] == #[trigger] scans[i].entries()[j],
    decreases scans.len(),
{
    let head = collated(scans.drop_last());
    if k < head.len() {
        lemma_entry_has_origin(scans.drop_last(), k);
        let (i, j) = choose|i: int, j: int|
            0 <= i < scans.drop_last().len() && 0 <= j
                < #[trigger] scans.drop_last()[i].entries().len() && head[k]
                == #[trigger] scans.drop_last()[i].entries()[j];
        assert(scans[i] == scans.drop_last()[i]);
        assert(collated(scans)[k] == scans[i].entries()[j]);
    } else {
        let i = scans.len() - 1;
        let j = k - head.len();
        assert(collated(scans)[k] == scans[i].entries()[j]);
    }
}

/// Every theme that was found is in the index: the entry of the `j`-th
/// theme of the `i`-th scan.
pub proof fn lemma_theme_is_indexed(scans: Seq<ManifestScan>, i: int, j: int)
    requires
        0 <= i < scans.len(),
        0 <= j < scans[i].entries().len(),
    ensures
        collated(scans).contains(scans[i].entries()[j]),
    decreases scans.len(),
{
    let head = collated(scans.drop_last());
    if i == scans.len() - 1 {
        assert(collated(scans)[head.len() + j] == scans[i].entries()[j]);
    } else {
        lemma_theme_is_indexed(scans.drop_last(), i, j);
        let k = choose|k: int| 0 <= k < head.len() && head[k] == scans.drop_last()[i].entries()[j];
        assert(collated(scans)[k] == scans[i].entries()[j]);
    }
}

} // verus!

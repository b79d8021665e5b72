//! The index of the themes that the installed extensions contribute, and the
//! search for the extension behind a theme.

use vstd::prelude::*;
use vstd::seq_lib::*;
use vstd::string::*;
use vstd::utf8::*;

use crate::scan::{
    collated, contributions, declared_labels, lemma_collated_is_named, lemma_collated_step,
    lemma_contributions_step, ManifestScan,
};

verus! {

/// The address of an extension in the marketplace, up to its identifier.
pub const MARKETPLACE_ITEM_URL: &'static str =
    "https://marketplace.visualstudio.com/items?itemName=";

/// One entry of the index, as texts: a theme's label and the identifier of
/// the extension that contributes it.
pub struct ThemeEntry {
    pub label: Seq<char>,
    pub id: Seq<char>,
}

/// A theme's label together with the identifier of the extension that
/// contributes it.
#[derive(Debug)]
pub struct LabeledTheme {
    pub label: String,
    pub id: String,
}

impl ThemeEntry {
    /// Whether the entry names both a theme and an extension: neither its
    /// label nor its identifier is empty.
    pub open spec fn is_named(self) -> bool {
        self.label.len() > 0 && self.id.len() > 0
    }
}

impl View for LabeledTheme {
    type V = ThemeEntry;

    open spec fn view(&self) -> ThemeEntry {
        ThemeEntry { label: self.label@, id: self.id@ }
    }
}

/// The entries that a sequence of labelled themes stands for.
pub open spec fn entries_of(themes: Seq<LabeledTheme>) -> Seq<ThemeEntry> {
    themes.map_values(|theme: LabeledTheme| theme@)
}

/// The first entry of `index` that carries `label`, if there is one.
pub open spec fn resolve(index: Seq<ThemeEntry>, label: Seq<char>) -> Option<ThemeEntry>
    decreases index.len(),
{
    if index.len() == 0 {
        None
    } else if index.first().label == label {
        Some(index.first())
    } else {
        resolve(index.drop_first(), label)
    }
}

/// Whether `at` is the place of the first entry of `index` that carries
/// `label`.
pub open spec fn is_first_with_label(index: Seq<ThemeEntry>, label: Seq<char>, at: int) -> bool {
    &&& 0 <= at < index.len()
    &&& index[at].label == label
    &&& forall|earlier: int| 0 <= earlier < at ==> (#[trigger] index[earlier]).label != label
}

/// The search finds nothing exactly where no entry of the index carries the
/// label.
pub proof fn lemma_resolve_none(index: Seq<ThemeEntry>, label: Seq<char>)
    ensures
        resolve(index, label) is None <==> forall|i: int|
            0 <= i < index.len() ==> (#[trigger] index[i]).label != label,
    decreases index.len(),
{
    if index.len() > 0 {
        let rest = index.drop_first();
        lemma_resolve_none(rest, label);
        if index.first().label != label {
            if resolve(index, label) is None {
                assert forall|i: int| 0 <= i < index.len() implies (#[trigger] index[i]).label
                    != label by {
                    if i > 0 {
                        assert(index[i] == rest[i - 1]);
                    }
                }
            } else {
                let i = choose|i: int| 0 <= i < rest.len() && (#[trigger] rest[i]).label == label;
                assert(index[i + 1] == rest[i]);
            }
        }
    }
}

/// What the search finds is the first entry of the index that carries the
/// label: it stands at a place before which no entry carries it.
pub proof fn lemma_resolve_first(index: Seq<ThemeEntry>, label: Seq<char>)
    requires
        resolve(index, label) is Some,
    ensures
        exists|at: int| #[trigger]
            is_first_with_label(index, label, at) && resolve(index, label) == Some(index[at]),
    decreases index.len(),
{
    if index.first().label == label {
        assert(is_first_with_label(index, label, 0));
    } else {
        let rest = index.drop_first();
        lemma_resolve_first(rest, label);
        let at = choose|at: int| #[trigger]
            is_first_with_label(rest, label, at) && resolve(rest, label) == Some(rest[at]);
        assert forall|earlier: int| 0 <= earlier < at + 1 implies (#[trigger] index[earlier]).label
            != label by {
            if earlier > 0 {
                assert(index[earlier] == rest[earlier - 1]);
            }
        }
        assert(index[at + 1] == rest[at]);
        assert(is_first_with_label(index, label, at + 1));
    }
}

/// What the search finds in an index carries the label and is an entry of
/// every rearrangement of that index, in which the search then finds a theme
/// too.
pub proof fn lemma_resolved_is_shared(
    first: Seq<ThemeEntry>,
    second: Seq<ThemeEntry>,
    label: Seq<char>,
)
    requires
        first.to_multiset() == second.to_multiset(),
        resolve(first, label) is Some,
    ensures
        resolve(first, label)->0.label == label,
        second.contains(resolve(first, label)->0),
        resolve(second, label) is Some,
{
    lemma_resolve_none(second, label);
    lemma_resolve_first(first, label);
    let at = choose|at: int| #[trigger]
        is_first_with_label(first, label, at) && resolve(first, label) == Some(first[at]);
    let entry = first[at];
    assert(first.contains(entry));
    to_multiset_contains(first, entry);
    to_multiset_contains(second, entry);
}

/// Whatever order the index is in, the search finds a theme exactly where
/// some entry carries the label, and what it finds is an entry of the index
/// that carries it.
pub proof fn lemma_resolve_any_order(
    first: Seq<ThemeEntry>,
    second: Seq<ThemeEntry>,
    label: Seq<char>,
)
    requires
        first.to_multiset() == second.to_multiset(),
    ensures
        resolve(first, label) is Some <==> resolve(second, label) is Some,
        resolve(first, label) matches Some(entry) ==> entry.label == label && second.contains(
            entry,
        ),
{
    if resolve(first, label) is Some {
        lemma_resolved_is_shared(first, second, label);
    }
    if resolve(second, label) is Some {
        lemma_resolved_is_shared(second, first, label);
    }
}

/// A found theme (extension) from the extension cache.
#[derive(Debug, PartialEq, Eq, Hash, PartialOrd, Ord)]
pub struct FoundTheme<'a> {
    id: &'a str,
    variant: &'a str,
}

impl<'a> View for FoundTheme<'a> {
    type V = ThemeEntry;

    closed spec fn view(&self) -> ThemeEntry {
        ThemeEntry { label: self.variant@, id: self.id@ }
    }
}

impl<'a> FoundTheme<'a> {
    /// Gets the url of the extension (theme): the marketplace address
    /// followed by the identifier of the extension.
    pub fn url(&self) -> (url: String)
        ensures
            url@ == MARKETPLACE_ITEM_URL@ + self@.id,
    {
        String::from_str(MARKETPLACE_ITEM_URL).concat(self.id)
    }

    /// Gets the variant provided during filtering: the label of the theme.
    pub fn variant(&self) -> (label: &str)
        ensures
            label@ == self@.label,
    {
        self.variant
    }
}

/// Whether two texts are the same, byte for byte.
fn same_text(a: &str, b: &str) -> (same: bool)
    ensures
        same == (a@ == b@),
{
    let left = a.as_bytes();
    let right = b.as_bytes();
    if left.len() != right.len() {
        return false;
    }
    let mut i: usize = 0;
    while i < left.len()
        invariant
            left@ == encode_utf8(a@),
            right@ == encode_utf8(b@),
            left.len() == right.len(),
            i <= left.len(),
            left@.take(i as int) == right@.take(i as int),
        decreases left.len() - i,
    {
        if left[i] != right[i] {
            return false;
        }
        assert(left@.take(i + 1) =~= left@.take(i as int).push(left@[i as int]));
        assert(right@.take(i + 1) =~= right@.take(i as int).push(right@[i as int]));
        i += 1;
    }
    proof {
        assert(left@.take(i as int) =~= left@);
        assert(right@.take(i as int) =~= right@);
        encode_utf8_decode_utf8(a@);
        encode_utf8_decode_utf8(b@);
    }
    true
}

/// The themes that the installed extensions contribute, with the means to
/// find the extension behind a theme.
pub struct VsCodeSettings {
    list: Vec<LabeledTheme>,
}

impl View for VsCodeSettings {
    type V = Seq<ThemeEntry>;

    closed spec fn view(&self) -> Seq<ThemeEntry> {
        entries_of(self.list@)
    }
}

impl VsCodeSettings {
    /// Every entry of the index names a theme and an extension.
    #[verifier::type_invariant]
    spec fn holds_named_entries(self) -> bool {
        forall|k: int| 0 <= k < self.list@.len() ==> (#[trigger] self.list@[k])@.is_named()
    }

    /// Creates the index of what a scan of the installed extensions found.
    /// Every entry of it names a theme and an extension.
    pub fn new_from(list: Vec<ManifestScan>) -> (settings: Self)
        ensures
            settings@ == collated(list@),
            forall|k: int| 0 <= k < settings@.len() ==> (#[trigger] settings@[k]).is_named(),
    {
        proof {
            lemma_collated_is_named(list@);
        }
        VsCodeSettings { list: Self::collate_themes(list) }
    }

    /// Filters the cache by a variant name: the first entry that carries the
    /// label `current`, under exact equality of the texts. What is found
    /// names a theme and an extension.
    pub fn find_theme<'a>(&'a self, current: &'a str) -> (found: Option<FoundTheme<'a>>)
        ensures
            match resolve(self@, current@) {
                Some(entry) => found matches Some(theme) && theme@ == entry,
                None => found is None,
            },
            found matches Some(theme) ==> theme@.is_named(),
    {
        proof {
            use_type_invariant(self);
        }
        let mut i: usize = 0;
        assert(self@.skip(0) =~= self@);
        while i < self.list.len()
            invariant
                self.holds_named_entries(),
                i <= self.list.len(),
                resolve(self@, current@) == resolve(self@.skip(i as int), current@),
            decreases self.list.len() - i,
        {
            let entry = &self.list[i];
            assert(self@.skip(i as int).first() == entry@);
            if same_text(entry.label.as_str(), current) {
                return Some(FoundTheme { id: entry.id.as_str(), variant: entry.label.as_str() });
            }
            assert(self@.skip(i as int).drop_first() =~= self@.skip(i + 1));
            i += 1;
        }
        None
    }

    /// Gathers the themes that the scanned extensions contribute: for each
    /// scan in turn, one entry for each theme that its manifest declares.
    /// A theme without label and the themes of an extension without
    /// identifier are passed over, so that every entry names a theme and an
    /// extension.
    pub fn collate_themes(list: Vec<ManifestScan>) -> (themes: Vec<LabeledTheme>)
        ensures
            entries_of(themes@) == collated(list@),
            forall|k: int| 0 <= k < themes@.len() ==> (#[trigger] themes@[k])@.is_named(),
    {
        let mut themes: Vec<LabeledTheme> = Vec::new();
        for scan in it: list.into_iter()
            invariant
                it.seq() == list@,
                entries_of(themes@) == collated(list@.take(it.index())),
        {
            let ghost before = themes@;
            proof {
                lemma_collated_step(list@, it.index());
            }
            let ManifestScan { record, manifest } = scan;
            if let Some(manifest) = manifest {
                let ghost labels = declared_labels(manifest);
                let identified = !record.identifier.id.as_str().is_empty();
                for theme in jt: manifest.contributes.themes.into_iter()
                    invariant
                        jt.seq() == manifest.contributes.themes@,
                        labels == declared_labels(manifest),
                        identified == (record.identifier.id@.len() > 0),
                        entries_of(themes@) =~= entries_of(before) + contributions(
                            record.identifier.id@,
                            labels.take(jt.index()),
                        ),
                {
                    proof {
                        lemma_contributions_step(record.identifier.id@, labels, jt.index());
                    }
                    if identified && !theme.label.as_str().is_empty() {
                        let ghost earlier = themes@;
                        themes.push(
                            LabeledTheme { label: theme.label, id: record.identifier.id.clone() },
                        );
                        assert(entries_of(themes@) =~= entries_of(earlier).push(
                            ThemeEntry { label: labels[jt.index()], id: record.identifier.id@ },
                        ));
                    }
                }
                assert(labels.take(labels.len() as int) =~= labels);
            }
            assert(entries_of(themes@) =~= entries_of(before) + scan.entries());
        }
        proof {
            assert(list@.take(list@.len() as int) =~= list@);
            lemma_collated_is_named(list@);
            assert forall|k: int| 0 <= k < themes@.len() implies (#[trigger] themes@[k])@.is_named(
            ) by {
                assert(entries_of(themes@)[k] == themes@[k]@);
            }
        }
        themes
    }
}

} // verus!

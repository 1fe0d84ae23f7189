use vstd::prelude::*;

verus! {

/// What the listing of the originals directory tells about one entry.
#[derive(Debug)]
pub struct EntryInfo {
    /// The entry's name, or `None` when it is not valid Unicode.
    pub name: Option<String>,
    /// Whether the entry is a regular file.
    pub is_file: bool,
}

/// The character that marks a hidden name when it comes first.
pub const HIDDEN_MARKER: char = '.';

/// A name is hidden when it starts with the marker.
pub open spec fn is_hidden_spec(name: Seq<char>) -> bool {
    name.len() > 0 && name[0] == HIDDEN_MARKER
}

/// Whether an entry takes part in a verification pass.
pub open spec fn is_candidate(e: EntryInfo) -> bool {
    &&& e.is_file
    &&& e.name is Some
    &&& !is_hidden_spec(e.name->0@)
}

/// The names of the candidate entries, in listing order.
pub open spec fn candidate_names(entries: Seq<EntryInfo>) -> Seq<Seq<char>>
    decreases entries.len(),
{
    if entries.len() == 0 {
        Seq::empty()
    } else {
        let prev = candidate_names(entries.drop_last());
        let e = entries.last();
        if is_candidate(e) {
            prev.push(e.name->0@)
        } else {
            prev
        }
    }
}

/// Whether `name` starts with the hidden marker.
pub fn is_hidden(name: &str) -> (r: bool)
    ensures
        r == is_hidden_spec(name@),
{
    let mut chars = name.chars();
    match chars.next() {
        Some(c) => c == HIDDEN_MARKER,
        None => false,
    }
}

/// The names to verify, in listing order: those of regular files with a
/// valid name that is not hidden.
pub fn select_names(entries: &Vec<EntryInfo>) -> (r: Vec<String>)
    ensures
        r@.map_values(|s: String| s@) == candidate_names(entries@),
{
    let mut r: Vec<String> = Vec::new();
    let mut i: usize = 0;
    while i < entries.len()
        invariant
            i <= entries@.len(),
            r@.map_values(|s: String| s@) == candidate_names(entries@.take(i as int)),
        decreases entries@.len() - i,
    {
        let e = &entries[i];
        assert(entries@.take(i + 1).drop_last() =~= entries@.take(i as int));
        if e.is_file {
            match &e.name {
                Some(name) => {
                    if !is_hidden(name.as_str()) {
                        r.push(name.clone());
                    }
                },
                None => {},
            }
        }
        assert(r@.map_values(|s: String| s@) =~= candidate_names(entries@.take(i + 1)));
        i = i + 1;
    }
    assert(entries@.take(entries@.len() as int) =~= entries@);
    r
}

/// Every selected name comes from a regular file entry with a valid name,
/// and no selected name is hidden.
pub proof fn lemma_hidden_never_selected(entries: Seq<EntryInfo>)
    ensures
        forall|k: int|
            0 <= k < candidate_names(entries).len() ==> !is_hidden_spec(
                #[trigger] candidate_names(entries)[k],
            ),
        forall|k: int|
            #![trigger candidate_names(entries)[k]]
            0 <= k < candidate_names(entries).len() ==> exists|j: int|
                0 <= j < entries.len() && is_candidate(#[trigger] entries[j])
                    && entries[j].name->0@ == candidate_names(entries)[k],
        candidate_names(entries).len() <= entries.len(),
    decreases entries.len(),
{
    if entries.len() > 0 {
        let init = entries.drop_last();
        lemma_hidden_never_selected(init);
        let c = candidate_names(entries);
        let p = candidate_names(init);
        assert forall|k: int| #![trigger c[k]] 0 <= k < c.len() implies exists|j: int|
            0 <= j < entries.len() && is_candidate(#[trigger] entries[j]) && entries[j].name->0@
                == c[k] by {
            if k < p.len() {
                let j = choose|j: int|
                    0 <= j < init.len() && is_candidate(#[trigger] init[j]) && init[j].name->0@
                        == p[k];
                assert(entries[j] == init[j]);
            } else {
                assert(entries[entries.len() - 1] == entries.last());
            }
        }
        assert forall|k: int| 0 <= k < c.len() implies !is_hidden_spec(#[trigger] c[k]) by {
            if k < p.len() {
                assert(c[k] == p[k]);
            }
        }
    }
}

} // verus!

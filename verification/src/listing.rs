//! The order of directory listings: directories first, then by name without
//! regard to case.

use vstd::prelude::*;
use vstd::string::*;
use crate::files::FileEntry;
use crate::text::{chars_before, str_before, text_before, to_chars};

verus! {

/// The lower-case form of a text.
pub uninterp spec fn lowercase(s: Seq<char>) -> Seq<char>;

/// `str::to_lowercase`: the lower-case form of `s` in the sense of Unicode,
/// which depends on `s` alone.
#[verifier::external_body]
pub(crate) fn to_lowercase(s: &str) -> (r: String)
    ensures
        r@ == lowercase(s@),
{
    s.to_lowercase()
}

/// Whether `a` stands before `b` in a listing: a directory before a file,
/// else the one whose lower-case name comes first.
pub open spec fn entry_before(a: FileEntry, b: FileEntry) -> bool {
    if a.is_dir != b.is_dir {
        a.is_dir
    } else {
        text_before(lowercase(a.name@), lowercase(b.name@))
    }
}

/// Whether no entry of a listing stands behind one that it should precede.
pub open spec fn listing_sorted(v: Seq<FileEntry>) -> bool {
    forall|i: int, j: int| 0 <= i < j < v.len() ==> !entry_before(#[trigger] v[j], #[trigger] v[i])
}

pub proof fn lemma_text_before_irreflexive(a: Seq<char>)
    ensures
        !text_before(a, a),
    decreases a.len(),
{
    if a.len() > 0 {
        lemma_text_before_irreflexive(a.skip(1));
    }
}

pub proof fn lemma_text_before_transitive(a: Seq<char>, b: Seq<char>, c: Seq<char>)
    requires
        text_before(a, b),
        text_before(b, c),
    ensures
        text_before(a, c),
    decreases a.len(),
{
    if a.len() > 0 && b.len() > 0 && c.len() > 0 {
        if a[0] == b[0] && b[0] == c[0] {
            lemma_text_before_transitive(a.skip(1), b.skip(1), c.skip(1));
        }
    }
}

/// The order of listings is a strict order: nothing precedes itself, and
/// what precedes a predecessor precedes.
pub proof fn lemma_entry_order(a: FileEntry, b: FileEntry, c: FileEntry)
    ensures
        !entry_before(a, a),
        entry_before(a, b) && entry_before(b, c) ==> entry_before(a, c),
{
    lemma_text_before_irreflexive(lowercase(a.name@));
    if entry_before(a, b) && entry_before(b, c) {
        if a.is_dir == b.is_dir && b.is_dir == c.is_dir {
            lemma_text_before_transitive(
                lowercase(a.name@),
                lowercase(b.name@),
                lowercase(c.name@),
            );
        }
    }
}

/// Whether `a` stands before `b` in a listing.
pub fn comes_before(a: &FileEntry, b: &FileEntry) -> (r: bool)
    ensures
        r == entry_before(*a, *b),
{
    if a.is_dir != b.is_dir {
        a.is_dir
    } else {
        let x = to_lowercase(a.name.as_str());
        let y = to_lowercase(b.name.as_str());
        str_before(x.as_str(), y.as_str())
    }
}

/// The lower-case name of an entry as characters.
fn sort_key(e: &FileEntry) -> (key: Vec<char>)
    ensures
        key@ == lowercase(e.name@),
{
    let lower = to_lowercase(e.name.as_str());
    to_chars(lower.as_str())
}

/// Whether `a` stands before `b` in a listing, by their lower-case names.
fn keyed_before(a: &FileEntry, a_key: &Vec<char>, b: &FileEntry, b_key: &Vec<char>) -> (r: bool)
    requires
        a_key@ == lowercase(a.name@),
        b_key@ == lowercase(b.name@),
    ensures
        r == entry_before(*a, *b),
{
    if a.is_dir != b.is_dir {
        a.is_dir
    } else {
        chars_before(a_key.as_slice(), b_key.as_slice())
    }
}

/// Whether every key is the lower-case name of its entry.
pub open spec fn keys_match(keys: Seq<Vec<char>>, entries: Seq<FileEntry>) -> bool {
    &&& keys.len() == entries.len()
    &&& forall|i: int| 0 <= i < keys.len() ==> (#[trigger] keys[i])@ == lowercase(entries[i].name@)
}

/// Sorts a listing: the same entries, directories first, then by name
/// without regard to case.
pub fn sort_entries(entries: Vec<FileEntry>) -> (out: Vec<FileEntry>)
    ensures
        listing_sorted(out@),
        out@.to_multiset() == entries@.to_multiset(),
        out@.len() == entries@.len(),
{
    let mut rest = entries;
    let mut out: Vec<FileEntry> = Vec::new();
    let mut keys: Vec<Vec<char>> = Vec::new();
    proof {
        assert(out@.to_multiset().add(rest@.to_multiset()) =~= entries@.to_multiset()) by {
            out@.to_multiset_ensures();
            assert(out@.to_multiset().len() == 0);
        }
    }
    while rest.len() > 0
        invariant
            listing_sorted(out@),
            keys_match(keys@, out@),
            out@.to_multiset().add(rest@.to_multiset()) == entries@.to_multiset(),
            out@.len() + rest@.len() == entries@.len(),
        decreases rest@.len(),
    {
        let ghost rest_before = rest@;
        let ghost out_before = out@;
        let ghost keys_before = keys@;
        let e = rest.remove(0);
        let key = sort_key(&e);
        let mut p: usize = 0;
        while p < out.len() && !keyed_before(&e, &key, &out[p], &keys[p])
            invariant
                p <= out@.len(),
                out@ == out_before,
                keys@ == keys_before,
                keys_match(keys@, out@),
                key@ == lowercase(e.name@),
                forall|i: int| 0 <= i < p ==> !entry_before(e, #[trigger] out@[i]),
            decreases out@.len() - p,
        {
            p += 1;
        }
        out.insert(p, e);
        keys.insert(p, key);
        proof {
            let v = out@;
            assert(v == out_before.insert(p as int, e));
            assert forall|i: int, j: int| 0 <= i < j < v.len() implies !entry_before(
                #[trigger] v[j],
                #[trigger] v[i],
            ) by {
                if j == p {
                    assert(v[i] == out_before[i]);
                } else if i == p {
                    let other = out_before[j - 1];
                    assert(v[j] == other);
                    assert(entry_before(e, out_before[p as int]));
                    lemma_entry_order(other, e, out_before[p as int]);
                    lemma_entry_order(out_before[p as int], e, out_before[p as int]);
                    if j - 1 > p {
                        assert(!entry_before(other, out_before[p as int]));
                    }
                } else {
                    let a = if i < p {
                        i
                    } else {
                        i - 1
                    };
                    let b = if j < p {
                        j
                    } else {
                        j - 1
                    };
                    assert(v[i] == out_before[a]);
                    assert(v[j] == out_before[b]);
                }
            }
            assert forall|i: int| 0 <= i < keys@.len() implies (#[trigger] keys@[i])@ == lowercase(
                out@[i].name@,
            ) by {
                if i < p {
                    assert(keys@[i] == keys_before[i]);
                    assert(out@[i] == out_before[i]);
                } else if i > p {
                    assert(keys@[i] == keys_before[i - 1]);
                    assert(out@[i] == out_before[i - 1]);
                }
            }
            assert(rest@ == rest_before.remove(0));
            assert(e == rest_before[0]);
            assert(out@.to_multiset().add(rest@.to_multiset()) =~= out_before.to_multiset().add(
                rest_before.to_multiset(),
            )) by {
                broadcast use vstd::multiset::group_multiset_axioms;

                vstd::seq_lib::to_multiset_insert(out_before, p as int, e);
                vstd::seq_lib::to_multiset_remove(rest_before, 0);
                rest_before.to_multiset_ensures();
                assert(rest_before.to_multiset().count(rest_before[0]) > 0);
                assert(out@.to_multiset() == out_before.to_multiset().insert(e));
                assert(rest@.to_multiset() == rest_before.to_multiset().remove(e));
            }
        }
    }
    proof {
        assert(rest@.to_multiset() =~= vstd::multiset::Multiset::<FileEntry>::empty()) by {
            rest@.to_multiset_ensures();
            assert(rest@.to_multiset().len() == 0);
        }
        assert(out@.to_multiset().add(rest@.to_multiset()) =~= out@.to_multiset());
    }
    out
}

} // verus!

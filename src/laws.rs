use vstd::prelude::*;

use crate::media::media_type_of;
use crate::paths::{extension_of, file_name_of, key_of};
use crate::table::{loaded, lookup_of, media_type_for_key};

verus! {

/// Every file found under the root is in the loaded table, under `/` followed
/// by its normalised relative path, with its exact contents and the media type
/// of its extension (for a file whose key no later file shares).
pub proof fn lemma_every_file_loaded(files: Seq<(Seq<char>, Seq<u8>)>, i: int)
    requires
        0 <= i < files.len(),
        forall|j: int| i < j < files.len() ==> key_of(#[trigger] files[j].0) != key_of(files[i].0),
    ensures
        loaded(files).contains_key(key_of(files[i].0)),
        loaded(files)[key_of(files[i].0)] == (media_type_for_key(key_of(files[i].0)), files[i].1),
    decreases files.len(),
{
    if i < files.len() - 1 {
        let rest = files.drop_last();
        assert forall|j: int| i < j < rest.len() implies key_of(#[trigger] rest[j].0) != key_of(
            rest[i].0,
        ) by {
            assert(rest[j] == files[j]);
        }
        lemma_every_file_loaded(rest, i);
        assert(rest[i] == files[i]);
        assert(key_of(files.last().0) != key_of(files[i].0));
    }
}

/// A key is in the loaded table exactly when some loaded file has it.
pub proof fn lemma_keys_are_files(files: Seq<(Seq<char>, Seq<u8>)>, k: Seq<char>)
    ensures
        loaded(files).contains_key(k) <==> exists|i: int|
            0 <= i < files.len() && key_of(#[trigger] files[i].0) == k,
    decreases files.len(),
{
    if files.len() > 0 {
        let rest = files.drop_last();
        lemma_keys_are_files(rest, k);
        if loaded(files).contains_key(k) {
            if key_of(files.last().0) != k {
                let i = choose|i: int| 0 <= i < rest.len() && key_of(#[trigger] rest[i].0) == k;
                assert(files[i] == rest[i]);
            } else {
                assert(key_of(files[files.len() - 1].0) == k);
            }
        }
        if exists|i: int| 0 <= i < files.len() && key_of(#[trigger] files[i].0) == k {
            let i = choose|i: int| 0 <= i < files.len() && key_of(#[trigger] files[i].0) == k;
            if i < files.len() - 1 {
                assert(rest[i] == files[i]);
            }
        }
    }
}

/// Every stored media type is the one of its key's extension: `text/html` for
/// `html`, and so on through the fixed table, and `application/octet-stream`
/// for any other extension or none.
pub proof fn lemma_media_type_by_extension(files: Seq<(Seq<char>, Seq<u8>)>, k: Seq<char>)
    requires
        loaded(files).contains_key(k),
    ensures
        loaded(files)[k].0 == media_type_of(extension_of(file_name_of(k))),
    decreases files.len(),
{
    if files.len() > 0 && key_of(files.last().0) != k {
        lemma_media_type_by_extension(files.drop_last(), k);
    }
}

/// Looking up `/` finds what looking up `/index.html` finds, in any table.
pub proof fn lemma_root_is_index(m: Map<Seq<char>, (Seq<char>, Seq<u8>)>)
    ensures
        lookup_of(m, "/"@) == lookup_of(m, "/index.html"@),
{
    reveal_strlit("/");
    reveal_strlit("/index.html");
    assert("/index.html"@ != "/"@) by {
        assert("/index.html"@.len() != "/"@.len());
    }
}

/// A path other than `/` that is not a key is not found: there is no partial
/// or fuzzy match.
pub proof fn lemma_absent_not_found(m: Map<Seq<char>, (Seq<char>, Seq<u8>)>, p: Seq<char>)
    requires
        !m.contains_key(p),
        p != "/"@,
    ensures
        lookup_of(m, p) is None,
{
}

/// Loading no files gives an empty table, in which every lookup, `/` included,
/// finds nothing.
pub proof fn lemma_empty_root(p: Seq<char>)
    ensures
        loaded(Seq::empty()) == Map::<Seq<char>, (Seq<char>, Seq<u8>)>::empty(),
        lookup_of(loaded(Seq::empty()), p) is None,
{
}

} // verus!

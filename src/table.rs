use vstd::prelude::*;
use vstd::hash_map::StringHashMap;
use vstd::string::*;

use crate::media::{media_type, media_type_of};
use crate::paths::{extension, extension_of, file_name_of, key_for, key_of};

verus! {

/// The media type stored for the file whose key is `key`.
pub open spec fn media_type_for_key(key: Seq<char>) -> Seq<char> {
    media_type_of(extension_of(file_name_of(key)))
}

/// The key that a request path is looked up under: `/` stands for `/index.html`.
pub open spec fn resolve(path: Seq<char>) -> Seq<char> {
    if path == "/"@ {
        "/index.html"@
    } else {
        path
    }
}

/// What a lookup of `path` finds in a table whose contents are `m`.
pub open spec fn lookup_of(m: Map<Seq<char>, (Seq<char>, Seq<u8>)>, path: Seq<char>) -> Option<
    (Seq<char>, Seq<u8>),
> {
    if m.contains_key(resolve(path)) {
        Some(m[resolve(path)])
    } else {
        None
    }
}

/// The table that loading the files `files` (root-relative path, contents), in
/// this order, builds: a later file with the same key replaces an earlier one.
pub open spec fn loaded(files: Seq<(Seq<char>, Seq<u8>)>) -> Map<Seq<char>, (Seq<char>, Seq<u8>)>
    decreases files.len(),
{
    if files.len() == 0 {
        Map::empty()
    } else {
        let (rel, bytes) = files.last();
        loaded(files.drop_last()).insert(key_of(rel), (media_type_for_key(key_of(rel)), bytes))
    }
}

/// The key that `path` is looked up under.
pub fn resolve_path(path: &str) -> (r: &str)
    ensures
        r@ == resolve(path@),
{
    if crate::media::str_eq(path, "/") {
        "/index.html"
    } else {
        path
    }
}

/// A loaded file: its media type and its whole contents.
pub struct Asset {
    pub media_type: String,
    pub contents: Vec<u8>,
}

impl View for Asset {
    type V = (Seq<char>, Seq<u8>);

    open spec fn view(&self) -> (Seq<char>, Seq<u8>) {
        (self.media_type@, self.contents@)
    }
}

/// A file found under the root directory, as handed to `load`.
pub struct SourceFile {
    pub rel_path: String,
    pub contents: Vec<u8>,
}

impl View for SourceFile {
    type V = (Seq<char>, Seq<u8>);

    open spec fn view(&self) -> (Seq<char>, Seq<u8>) {
        (self.rel_path@, self.contents@)
    }
}

/// The view of each file of a sequence.
pub open spec fn files_view(files: Seq<SourceFile>) -> Seq<(Seq<char>, Seq<u8>)> {
    files.map_values(|f: SourceFile| f@)
}

/// The in-memory table from request keys to assets.
pub struct AssetTable {
    files: StringHashMap<Asset>,
}

impl View for AssetTable {
    type V = Map<Seq<char>, (Seq<char>, Seq<u8>)>;

    closed spec fn view(&self) -> Map<Seq<char>, (Seq<char>, Seq<u8>)> {
        self.files@.map_values(|a: Asset| a@)
    }
}

impl AssetTable {
    /// An empty table.
    pub fn new() -> (r: AssetTable)
        ensures
            r@ == Map::<Seq<char>, (Seq<char>, Seq<u8>)>::empty(),
    {
        let r = AssetTable { files: StringHashMap::new() };
        assert(r@ =~= Map::<Seq<char>, (Seq<char>, Seq<u8>)>::empty());
        r
    }

    /// Adds the file at `rel` (relative to the root) with the given contents,
    /// under its key and with the media type of its extension.
    pub fn insert_file(&mut self, rel: &str, contents: Vec<u8>)
        ensures
            final(self)@ == old(self)@.insert(
                key_of(rel@),
                (media_type_for_key(key_of(rel@)), contents@),
            ),
    {
        let key = key_for(rel);
        let mt = media_type(extension(key.as_str()));
        let asset = Asset { media_type: String::from_str(mt), contents };
        self.files.insert(key, asset);
        assert(self@ =~= old(self)@.insert(
            key_of(rel@),
            (media_type_for_key(key_of(rel@)), asset.contents@),
        ));
    }

    /// The asset served for `path`; `/` is served as `/index.html`.
    pub fn lookup(&self, path: &str) -> (r: Option<&Asset>)
        ensures
            match r {
                Some(a) => lookup_of(self@, path@) == Some(a@),
                None => lookup_of(self@, path@) is None,
            },
    {
        self.files.get(resolve_path(path))
    }

    /// The number of keys in the table.
    pub fn len(&self) -> (r: usize)
        ensures
            r == self@.len(),
    {
        assert(self@.dom() =~= self.files@.dom());
        self.files.len()
    }

    /// Whether the table holds no key.
    pub fn is_empty(&self) -> (r: bool)
        ensures
            r == (self@.len() == 0),
    {
        self.len() == 0
    }
}

/// Builds the table from every file found under the root directory.
pub fn load(files: Vec<SourceFile>) -> (r: AssetTable)
    ensures
        r@ == loaded(files_view(files@)),
{
    let ghost all = files_view(files@);
    let mut table = AssetTable::new();
    for f in it: files.into_iter()
        invariant
            it.seq() == files@,
            all == files_view(files@),
            table@ == loaded(all.take(it.index() as int)),
    {
        let ghost i = it.index();
        table.insert_file(f.rel_path.as_str(), f.contents);
        assert(all.take(i + 1).drop_last() =~= all.take(i as int));
    }
    assert(all.take(all.len() as int) =~= all);
    table
}

} // verus!

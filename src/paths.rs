use vstd::prelude::*;
use vstd::string::*;

verus! {

/// A path with every backslash turned into a forward slash.
pub open spec fn normalized(s: Seq<char>) -> Seq<char> {
    s.map_values(|c: char| if c == '\\' { '/' } else { c })
}

/// The table key of a file: `/` followed by its root-relative path, with
/// separators normalised to `/`.
pub open spec fn key_of(rel: Seq<char>) -> Seq<char> {
    seq!['/'] + normalized(rel)
}

/// The index of the last occurrence of `c` in `s`, or -1 when there is none.
pub open spec fn last_index_of(s: Seq<char>, c: char) -> int
    decreases s.len(),
{
    if s.len() == 0 {
        -1
    } else if s.last() == c {
        s.len() - 1
    } else {
        last_index_of(s.drop_last(), c)
    }
}

/// The last `/`-separated segment of a key.
pub open spec fn file_name_of(key: Seq<char>) -> Seq<char> {
    key.subrange(last_index_of(key, '/') + 1, key.len() as int)
}

/// What follows the last dot of a file name; a name with no dot, or whose only
/// dot opens it (`.profile`), has no extension.
pub open spec fn extension_of(name: Seq<char>) -> Option<Seq<char>> {
    let d = last_index_of(name, '.');
    if d <= 0 {
        None
    } else {
        Some(name.subrange(d + 1, name.len() as int))
    }
}

/// The last index lies within the sequence and holds `c`, unless it is -1.
pub proof fn lemma_last_index_bounds(s: Seq<char>, c: char)
    ensures
        -1 <= last_index_of(s, c) < s.len(),
        last_index_of(s, c) >= 0 ==> s[last_index_of(s, c)] == c,
    decreases s.len(),
{
    if s.len() > 0 && s.last() != c {
        lemma_last_index_bounds(s.drop_last(), c);
    }
}

/// The position of the last `c` in `s`.
pub fn last_index(s: &str, c: char) -> (r: Option<usize>)
    ensures
        match r {
            Some(i) => i as int == last_index_of(s@, c),
            None => last_index_of(s@, c) == -1,
        },
{
    let n = s.unicode_len();
    let mut i: usize = n;
    assert(s@.subrange(0, n as int) =~= s@);
    while i > 0
        invariant
            n == s@.len(),
            i <= n,
            last_index_of(s@, c) == last_index_of(s@.subrange(0, i as int), c),
        decreases i,
    {
        if s.get_char(i - 1) == c {
            return Some(i - 1);
        }
        assert(s@.subrange(0, i as int).drop_last() =~= s@.subrange(0, i - 1));
        i = i - 1;
    }
    None
}

/// The table key for a file at `rel`, relative to the root directory.
pub fn key_for(rel: &str) -> (r: String)
    ensures
        r@ == key_of(rel@),
{
    proof {
        reveal_strlit("/");
    }
    let mut out = String::from_str("/");
    let n = rel.unicode_len();
    let mut start: usize = 0;
    let mut i: usize = 0;
    while i < n
        invariant
            n == rel@.len(),
            start <= i <= n,
            out@ == seq!['/'] + normalized(rel@.subrange(0, start as int)),
            forall|k: int| start <= k < i ==> rel@[k] != '\\',
        decreases n - i,
    {
        if rel.get_char(i) == '\\' {
            let seg = rel.substring_char(start, i);
            proof {
                assert(normalized(rel@.subrange(0, i + 1)) =~= normalized(
                    rel@.subrange(0, start as int),
                ) + seg@ + seq!['/']);
            }
            out.append(seg);
            out.append("/");
            proof {
                reveal_strlit("/");
            }
            assert(out@ =~= seq!['/'] + normalized(rel@.subrange(0, i + 1)));
            start = i + 1;
        }
        i = i + 1;
    }
    let last = rel.substring_char(start, n);
    proof {
        assert(normalized(rel@.subrange(0, n as int)) =~= normalized(
            rel@.subrange(0, start as int),
        ) + last@);
        assert(rel@.subrange(0, n as int) =~= rel@);
    }
    out.append(last);
    out
}

/// The extension of the last segment of `key`, if it has one.
pub fn extension(key: &str) -> (r: Option<&str>)
    ensures
        match r {
            Some(e) => extension_of(file_name_of(key@)) == Some(e@),
            None => extension_of(file_name_of(key@)) is None,
        },
{
    let n = key.unicode_len();
    proof {
        lemma_last_index_bounds(key@, '/');
    }
    let start = match last_index(key, '/') {
        Some(i) => i + 1,
        None => 0,
    };
    let name = key.substring_char(start, n);
    proof {
        lemma_last_index_bounds(name@, '.');
    }
    match last_index(name, '.') {
        Some(d) => {
            if d > 0 {
                Some(name.substring_char(d + 1, name.unicode_len()))
            } else {
                None
            }
        },
        None => None,
    }
}

} // verus!

//! Verified path text handling. Paths are plain UTF-8 text with `/` as the
//! separator; the file name is everything after the last separator, and the
//! stem and extension split at the last dot of the file name (a name whose
//! only dot is its first character has no extension).

use vstd::prelude::*;

use crate::text::find_last_char;

verus! {

/// Index of the last occurrence of `c` in `s`, if any.
pub open spec fn last_index_of(s: Seq<char>, c: char) -> Option<int>
    decreases s.len(),
{
    if s.len() == 0 {
        None
    } else if s.last() == c {
        Some(s.len() - 1)
    } else {
        last_index_of(s.drop_last(), c)
    }
}

/// What `last_index_of` returns: the last position holding `c`.
pub proof fn lemma_last_index_of_props(s: Seq<char>, c: char)
    ensures
        match last_index_of(s, c) {
            Some(i) => 0 <= i < s.len() && s[i] == c && forall|j: int|
                i < j < s.len() ==> s[j] != c,
            None => forall|j: int| 0 <= j < s.len() ==> s[j] != c,
        },
    decreases s.len(),
{
    if s.len() > 0 && s.last() != c {
        lemma_last_index_of_props(s.drop_last(), c);
        assert(forall|j: int| 0 <= j < s.len() - 1 ==> s.drop_last()[j] == s[j]);
    }
}

/// A position holding `c` with nothing but other characters after it is
/// the last occurrence.
pub proof fn lemma_last_index_of_unique(s: Seq<char>, c: char, i: int)
    requires
        0 <= i < s.len(),
        s[i] == c,
        forall|j: int| i < j < s.len() ==> s[j] != c,
    ensures
        last_index_of(s, c) == Some(i),
{
    lemma_last_index_of_props(s, c);
    match last_index_of(s, c) {
        Some(k) => {
            if k < i {
                assert(s[i] != c);
            } else if k > i {
                assert(s[k] != c);
            }
        },
        None => {
            assert(s[i] != c);
        },
    }
}

/// If no position holds `c`, there is no last occurrence.
pub proof fn lemma_last_index_of_none(s: Seq<char>, c: char)
    requires
        forall|j: int| 0 <= j < s.len() ==> s[j] != c,
    ensures
        last_index_of(s, c) == None::<int>,
{
    lemma_last_index_of_props(s, c);
    match last_index_of(s, c) {
        Some(k) => {
            assert(s[k] != c);
        },
        None => {},
    }
}

/// The file name of a path: everything after the last separator.
pub open spec fn spec_file_name(p: Seq<char>) -> Seq<char> {
    match last_index_of(p, '/') {
        Some(k) => p.skip(k + 1),
        None => p,
    }
}

/// The stem of a path: its file name up to the last dot, except that a
/// name whose only dot leads it is all stem.
pub open spec fn spec_file_stem(p: Seq<char>) -> Seq<char> {
    let name = spec_file_name(p);
    match last_index_of(name, '.') {
        Some(k) => if k == 0 {
            name
        } else {
            name.take(k)
        },
        None => name,
    }
}

/// The extension of a path: its file name after the last dot, absent when
/// there is no dot past the first character of the name.
pub open spec fn spec_extension(p: Seq<char>) -> Option<Seq<char>> {
    let name = spec_file_name(p);
    match last_index_of(name, '.') {
        Some(k) => if k == 0 {
            None
        } else {
            Some(name.skip(k + 1))
        },
        None => None,
    }
}

/// `p` with its file name replaced by `name`.
pub open spec fn spec_with_file_name(p: Seq<char>, name: Seq<char>) -> Seq<char> {
    match last_index_of(p, '/') {
        Some(k) => p.take(k + 1) + name,
        None => name,
    }
}

/// The file name of `path`: everything after the last `/`.
pub fn file_name(path: &str) -> (r: &str)
    ensures
        r@ == spec_file_name(path@),
{
    let len = path.unicode_len();
    match find_last_char(path, '/') {
        Some(k) => {
            proof {
                lemma_last_index_of_unique(path@, '/', k as int);
            }
            let r = path.substring_char(k + 1, len);
            proof {
                assert(r@ =~= path@.skip(k + 1));
            }
            r
        },
        None => {
            proof {
                lemma_last_index_of_none(path@, '/');
            }
            path
        },
    }
}

/// The stem of `path`: its file name without the extension.
pub fn file_stem(path: &str) -> (r: &str)
    ensures
        r@ == spec_file_stem(path@),
{
    let name = file_name(path);
    match find_last_char(name, '.') {
        Some(k) => {
            proof {
                lemma_last_index_of_unique(name@, '.', k as int);
            }
            if k == 0 {
                name
            } else {
                let r = name.substring_char(0, k);
                proof {
                    assert(r@ =~= name@.take(k as int));
                }
                r
            }
        },
        None => {
            proof {
                lemma_last_index_of_none(name@, '.');
            }
            name
        },
    }
}

/// The extension of `path`, if its file name has one.
pub fn extension(path: &str) -> (r: Option<&str>)
    ensures
        match r {
            Some(e) => spec_extension(path@) == Some(e@),
            None => spec_extension(path@) == None::<Seq<char>>,
        },
{
    let name = file_name(path);
    let len = name.unicode_len();
    match find_last_char(name, '.') {
        Some(k) => {
            proof {
                lemma_last_index_of_unique(name@, '.', k as int);
            }
            if k == 0 {
                None
            } else {
                let r = name.substring_char(k + 1, len);
                proof {
                    assert(r@ =~= name@.skip(k + 1));
                }
                Some(r)
            }
        },
        None => {
            proof {
                lemma_last_index_of_none(name@, '.');
            }
            None
        },
    }
}

/// `path` with its file name replaced by `name`.
pub fn with_file_name(path: &str, name: &str) -> (r: String)
    ensures
        r@ == spec_with_file_name(path@, name@),
{
    let len = path.unicode_len();
    match find_last_char(path, '/') {
        Some(k) => {
            proof {
                lemma_last_index_of_unique(path@, '/', k as int);
            }
            let dir = path.substring_char(0, k + 1);
            proof {
                assert(dir@ =~= path@.take(k + 1));
            }
            let r = dir.to_owned().concat(name);
            r
        },
        None => {
            proof {
                lemma_last_index_of_none(path@, '/');
            }
            name.to_owned()
        },
    }
}

/// A file name cut to at most `len` characters: a longer name keeps its
/// first `len - 1` characters and gains a three-dot tail.
pub open spec fn spec_file_name_short(p: Seq<char>, len: int) -> Seq<char> {
    let name = spec_file_name(p);
    if name.len() > len {
        name.take(len - 1) + "..."@
    } else {
        name
    }
}

/// The file name of `path`, cut to at most `len` characters for display.
pub fn file_name_short(path: &str, len: usize) -> (r: String)
    requires
        1 <= len,
    ensures
        r@ == spec_file_name_short(path@, len as int),
{
    let name = file_name(path);
    let nlen = name.unicode_len();
    if nlen > len {
        let head = name.substring_char(0, len - 1);
        proof {
            assert(head@ =~= name@.take(len - 1));
        }
        head.to_owned().concat("...")
    } else {
        name.to_owned()
    }
}

/// A path trimmed for the progress display: its file name, cut to 64
/// characters and finished with an ellipsis when 65 or more.
pub open spec fn spec_trim_path(p: Seq<char>) -> Seq<char> {
    let name = spec_file_name(p);
    if name.len() >= 65 {
        name.take(64) + "\u{2026}"@
    } else {
        name
    }
}

/// The file name of `path`, cut to fit the progress display.
pub fn trim_path(path: &str) -> (r: String)
    ensures
        r@ == spec_trim_path(path@),
{
    let name = file_name(path);
    let nlen = name.unicode_len();
    if nlen >= 65 {
        let head = name.substring_char(0, 64);
        proof {
            assert(head@ =~= name@.take(64));
        }
        head.to_owned().concat("\u{2026}")
    } else {
        name.to_owned()
    }
}

} // verus!

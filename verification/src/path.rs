//! Paths as text: components are separated by `/`, and a file name ends in an
//! extension where a dot that is not its first character precedes it.
//! Separators at the end of a path, and components `.` there, do not count:
//! the file name of `/tmp/images/` is `images`. The components `.` and `..`
//! are no file names.

use crate::text::to_chars;
use vstd::prelude::*;

verus! {

/// The greatest index at which `c` stands in `s`, or -1 where it does not occur.
pub open spec fn last_index(s: Seq<char>, c: char) -> int
    decreases s.len(),
{
    if s.len() == 0 {
        -1
    } else if s.last() == c {
        s.len() - 1
    } else {
        last_index(s.drop_last(), c)
    }
}

/// What `last_index` finds: an occurrence with none after it, or none at all.
pub proof fn lemma_last_index(s: Seq<char>, c: char)
    ensures
        -1 <= last_index(s, c) < s.len(),
        last_index(s, c) >= 0 ==> s[last_index(s, c)] == c,
        forall|i: int| last_index(s, c) < i < s.len() ==> s[i] != c,
    decreases s.len(),
{
    if s.len() > 0 && s.last() != c {
        lemma_last_index(s.drop_last(), c);
        assert forall|i: int| last_index(s, c) < i < s.len() implies s[i] != c by {
            if i < s.len() - 1 {
                assert(s.drop_last()[i] == s[i]);
            }
        }
    }
}

/// Whether a path ends in what does not count: a separator, or a component
/// `.` behind a separator.
pub open spec fn ends_in_ignored(path: Seq<char>) -> bool {
    path.len() > 0 && (path.last() == '/' || (path.last() == '.' && path.len() >= 2
        && path[path.len() - 2] == '/'))
}

/// The path without what does not count at its end.
pub open spec fn trimmed(path: Seq<char>) -> Seq<char>
    decreases path.len(),
{
    if ends_in_ignored(path) {
        trimmed(path.drop_last())
    } else {
        path
    }
}

/// The last component of a path: what follows the last `/` of the path
/// without what does not count at its end.
pub open spec fn last_component(path: Seq<char>) -> Seq<char> {
    trimmed(path).skip(last_index(trimmed(path), '/') + 1)
}

/// The file name of a path: its last component; empty where the path has no
/// component, or where the last one is `.` or `..`.
pub open spec fn file_name_of(path: Seq<char>) -> Seq<char> {
    if last_component(path) == seq!['.'] || last_component(path) == seq!['.', '.'] {
        Seq::<char>::empty()
    } else {
        last_component(path)
    }
}

/// The directory of a path: what precedes the last component; `/` where the
/// last component stands in the root, empty where nothing precedes it.
pub open spec fn parent_of(path: Seq<char>) -> Seq<char> {
    if last_index(trimmed(path), '/') < 0 {
        Seq::<char>::empty()
    } else if last_index(trimmed(path), '/') == 0 {
        seq!['/']
    } else {
        trimmed(path).take(last_index(trimmed(path), '/'))
    }
}

/// The path without what does not count at its end is a head of the path,
/// and nothing that does not count is left at its end.
pub proof fn lemma_trimmed(path: Seq<char>)
    ensures
        trimmed(path).len() <= path.len(),
        trimmed(path) == path.take(trimmed(path).len() as int),
        !ends_in_ignored(trimmed(path)),
    decreases path.len(),
{
    if ends_in_ignored(path) {
        lemma_trimmed(path.drop_last());
        assert(path.drop_last().take(trimmed(path).len() as int) =~= path.take(
            trimmed(path).len() as int,
        ));
    } else {
        assert(path.take(path.len() as int) =~= path);
    }
}

/// The index of the dot that starts the extension of `name`, or -1: the last
/// dot, unless it is the first character.
pub open spec fn extension_dot(name: Seq<char>) -> int {
    if last_index(name, '.') > 0 {
        last_index(name, '.')
    } else {
        -1
    }
}

/// The file name without its extension.
pub open spec fn stem_of(name: Seq<char>) -> Seq<char> {
    if extension_dot(name) >= 0 {
        name.take(extension_dot(name))
    } else {
        name
    }
}

/// The extension of a file name, without the dot, if it has one.
pub open spec fn extension_of(name: Seq<char>) -> Option<Seq<char>> {
    if extension_dot(name) >= 0 {
        Some(name.skip(extension_dot(name) + 1))
    } else {
        None
    }
}

/// The file name made of a stem and an extension.
pub open spec fn full_name(stem: Seq<char>, extension: Option<Seq<char>>) -> Seq<char> {
    match extension {
        Some(e) => stem + seq!['.'] + e,
        None => stem,
    }
}

/// The path of `name` inside the directory `dir`.
pub open spec fn join(dir: Seq<char>, name: Seq<char>) -> Seq<char> {
    if dir.len() == 0 {
        name
    } else if dir.last() == '/' {
        dir + name
    } else {
        dir + seq!['/'] + name
    }
}

/// Whether `path` lies below the directory `dir`.
pub open spec fn is_within(path: Seq<char>, dir: Seq<char>) -> bool {
    &&& 0 < dir.len() < path.len()
    &&& path.take(dir.len() as int) == dir
    &&& (dir.last() == '/' || path[dir.len() as int] == '/')
}

/// A stem and an extension put together again give the file name they were
/// taken from.
pub proof fn lemma_split_round_trip(name: Seq<char>)
    ensures
        full_name(stem_of(name), extension_of(name)) == name,
{
    lemma_last_index(name, '.');
    let dot = extension_dot(name);
    if dot >= 0 {
        assert(name.take(dot) + seq!['.'] + name.skip(dot + 1) =~= name);
    }
}

/// Whether `c` does not occur in `s`.
pub open spec fn has_no(s: Seq<char>, c: char) -> bool {
    forall|i: int| 0 <= i < s.len() ==> s[i] != c
}

/// Whether a stem and an extension are what their file name parts into.
pub open spec fn is_split(stem: Seq<char>, extension: Option<Seq<char>>) -> bool {
    &&& stem_of(full_name(stem, extension)) == stem
    &&& extension_of(full_name(stem, extension)) == extension
}

/// Whether a directory is written without a separator at its end.
pub open spec fn is_plain_directory(dir: Seq<char>) -> bool {
    dir.len() > 0 && dir.last() != '/'
}

/// A tail without `c` does not move the last `c`.
pub proof fn lemma_last_index_append(s: Seq<char>, tail: Seq<char>, c: char)
    requires
        has_no(tail, c),
    ensures
        last_index(s + tail, c) == last_index(s, c),
    decreases tail.len(),
{
    if tail.len() == 0 {
        assert(s + tail =~= s);
    } else {
        assert((s + tail).drop_last() =~= s + tail.drop_last());
        assert((s + tail).last() == tail.last());
        lemma_last_index_append(s, tail.drop_last(), c);
    }
}

/// Where `c` is followed by a tail without `c`, that is the last `c`.
pub proof fn lemma_last_index_before_tail(s: Seq<char>, tail: Seq<char>, c: char)
    requires
        has_no(tail, c),
    ensures
        last_index(s + seq![c] + tail, c) == s.len(),
{
    lemma_last_index_append(s + seq![c], tail, c);
    assert((s + seq![c]).last() == c);
}

/// What a file name parts into is a stem and an extension of that file name.
pub proof fn lemma_parts_are_split(name: Seq<char>)
    ensures
        is_split(stem_of(name), extension_of(name)),
        has_no(name, '/') ==> has_no(stem_of(name), '/'),
        has_no(name, '/') ==> (extension_of(name) matches Some(e) ==> has_no(e, '/')),
{
    lemma_split_round_trip(name);
    lemma_last_index(name, '.');
}

/// The file name of a path holds no separator.
pub proof fn lemma_file_name_has_no_separator(path: Seq<char>)
    ensures
        has_no(file_name_of(path), '/'),
{
    lemma_last_index(trimmed(path), '/');
}

/// A path that ends in a separator has the file name of the path without
/// that separator, and so has a path that ends in a component `.`.
pub proof fn lemma_file_name_skips_the_end(path: Seq<char>)
    requires
        ends_in_ignored(path),
    ensures
        file_name_of(path) == file_name_of(path.drop_last()),
{
}

/// A path that does not end in what does not count has what follows its
/// last separator as its last component.
pub proof fn lemma_file_name_of_plain_path(path: Seq<char>)
    requires
        !ends_in_ignored(path),
    ensures
        last_component(path) == path.skip(last_index(path, '/') + 1),
{
}

/// A stem stays a stem when a tail without a dot is put behind it.
pub proof fn lemma_split_with_tail(stem: Seq<char>, extension: Option<Seq<char>>, tail: Seq<char>)
    requires
        is_split(stem, extension),
        has_no(tail, '.'),
    ensures
        is_split(stem + tail, extension),
{
    let name = full_name(stem, extension);
    lemma_last_index(name, '.');
    match extension {
        Some(e) => {
            let dot = extension_dot(name);
            assert(dot >= 0);
            assert(name.take(dot).len() == dot);
            assert(dot == stem.len());
            assert forall|i: int| 0 <= i < e.len() implies e[i] != '.' by {
                assert(name[dot + 1 + i] == e[i]);
            }
            let longer = full_name(stem + tail, extension);
            lemma_last_index_before_tail(stem + tail, e, '.');
            assert(longer.take((stem + tail).len() as int) =~= stem + tail);
            assert(longer.skip((stem + tail).len() as int + 1) =~= e);
        },
        None => {
            lemma_last_index_append(stem, tail, '.');
        },
    }
}

/// Two paths that are equal, each made of a directory and a file name, have
/// equal directories and equal file names, where the directories are the
/// same or both written without a separator at the end.
pub proof fn lemma_join_injective(d1: Seq<char>, n1: Seq<char>, d2: Seq<char>, n2: Seq<char>)
    requires
        join(d1, n1) == join(d2, n2),
        has_no(n1, '/'),
        has_no(n2, '/'),
        d1 == d2 || (is_plain_directory(d1) && is_plain_directory(d2)),
    ensures
        d1 == d2,
        n1 == n2,
{
    if d1 == d2 {
        let head = join(d1, Seq::<char>::empty());
        assert(join(d1, n1) =~= head + n1);
        assert(join(d2, n2) =~= head + n2);
        assert((head + n1).len() == (head + n2).len());
        assert forall|i: int| 0 <= i < n1.len() implies n1[i] == n2[i] by {
            assert((head + n1)[head.len() + i] == n1[i]);
            assert((head + n2)[head.len() + i] == n2[i]);
        }
        assert(n1 =~= n2);
    } else {
        crate::collision::lemma_split_at_last_separator(d1, n1, d2, n2, '/');
    }
}

/// The greatest index at which `c` stands in `v`.
pub fn find_last(v: &Vec<char>, c: char) -> (r: Option<usize>)
    ensures
        match r {
            Some(i) => i == last_index(v@, c) && i < v.len(),
            None => last_index(v@, c) == -1,
        },
{
    assert(v@.take(v.len() as int) =~= v@);
    find_last_before(v, v.len(), c)
}

/// The greatest index before `end` at which `c` stands in `v`.
pub fn find_last_before(v: &Vec<char>, end: usize, c: char) -> (r: Option<usize>)
    requires
        end <= v.len(),
    ensures
        match r {
            Some(i) => i == last_index(v@.take(end as int), c) && i < end,
            None => last_index(v@.take(end as int), c) == -1,
        },
{
    let mut i: usize = end;
    while i > 0
        invariant
            i <= end <= v.len(),
            last_index(v@.take(end as int), c) == last_index(v@.take(i as int), c),
        decreases i,
    {
        proof {
            let s = v@.take(i as int);
            assert(s.drop_last() =~= v@.take(i as int - 1));
            assert(s.last() == v@[i as int - 1]);
        }
        if v[i - 1] == c {
            return Some(i - 1);
        }
        i = i - 1;
    }
    assert(v@.take(0).len() == 0);
    None
}

/// The characters of an optional text.
pub open spec fn text_of(text: Option<String>) -> Option<Seq<char>> {
    match text {
        Some(t) => Some(t@),
        None => None,
    }
}

/// Whether the first `end` characters of `v` end in what does not count.
fn ends_ignored(v: &Vec<char>, end: usize) -> (r: bool)
    requires
        end <= v.len(),
    ensures
        r == ends_in_ignored(v@.take(end as int)),
{
    if end == 0 {
        false
    } else if v[end - 1] == '/' {
        true
    } else {
        v[end - 1] == '.' && end >= 2 && v[end - 2] == '/'
    }
}

/// The length of the path without what does not count at its end.
pub fn trimmed_length(v: &Vec<char>) -> (end: usize)
    ensures
        end <= v.len(),
        v@.take(end as int) == trimmed(v@),
{
    let mut end: usize = v.len();
    assert(v@.take(end as int) =~= v@);
    while ends_ignored(v, end)
        invariant
            end <= v.len(),
            trimmed(v@) == trimmed(v@.take(end as int)),
        decreases end,
    {
        assert(v@.take(end as int).drop_last() =~= v@.take(end as int - 1));
        end = end - 1;
    }
    end
}

/// The file name of `path`: its last component, not counting separators and
/// components `.` at the end; empty where there is none, or where it is `.`
/// or `..`.
pub fn file_name(path: &str) -> (r: String)
    ensures
        r@ == file_name_of(path@),
{
    let chars = to_chars(path);
    let end = trimmed_length(&chars);
    let start: usize = match find_last_before(&chars, end, '/') {
        Some(i) => i + 1,
        None => 0,
    };
    let ghost name = last_component(path@);
    assert(name =~= path@.subrange(start as int, end as int));
    let one_dot = end - start == 1 && chars[start] == '.';
    let two_dots = end - start == 2 && chars[start] == '.' && chars[start + 1] == '.';
    assert(name.len() == end - start);
    assert(one_dot == (name =~= seq!['.'])) by {
        if name.len() == 1 {
            assert(name[0] == chars@[start as int]);
            assert(seq!['.'][0] == '.');
        }
    }
    assert(two_dots == (name =~= seq!['.', '.'])) by {
        if name.len() == 2 {
            assert(name[0] == chars@[start as int]);
            assert(name[1] == chars@[start as int + 1]);
            assert(seq!['.', '.'][0] == '.');
            assert(seq!['.', '.'][1] == '.');
        }
    }
    if one_dot || two_dots {
        String::new()
    } else {
        String::from_str(path.substring_char(start, end))
    }
}

/// The directory of `path`: what precedes its last component.
pub fn parent(path: &str) -> (r: String)
    ensures
        r@ == parent_of(path@),
{
    let chars = to_chars(path);
    let end = trimmed_length(&chars);
    match find_last_before(&chars, end, '/') {
        Some(i) => {
            if i == 0 {
                proof {
                    reveal_strlit("/");
                }
                let r = String::from_str("/");
                assert(r@ =~= seq!['/']);
                r
            } else {
                let r = String::from_str(path.substring_char(0, i));
                assert(r@ =~= parent_of(path@));
                r
            }
        },
        None => String::new(),
    }
}

/// Parts a file name into its stem and its extension.
pub fn split_file_name(name: &str) -> (r: (String, Option<String>))
    ensures
        r.0@ == stem_of(name@),
        text_of(r.1) == extension_of(name@),
{
    let chars = to_chars(name);
    match find_last(&chars, '.') {
        Some(dot) if dot > 0 => {
            let stem = String::from_str(name.substring_char(0, dot));
            let extension = String::from_str(name.substring_char(dot + 1, chars.len()));
            assert(stem@ =~= stem_of(name@));
            assert(extension@ =~= name@.skip(dot as int + 1));
            (stem, Some(extension))
        },
        _ => (String::from_str(name), None),
    }
}

/// Puts a stem and an extension together.
pub fn file_name_from(stem: &str, extension: &Option<String>) -> (r: String)
    ensures
        r@ == full_name(stem@, text_of(*extension)),
{
    let mut r = String::from_str(stem);
    match extension {
        Some(e) => {
            proof {
                reveal_strlit(".");
            }
            r.append(".");
            r.append(e.as_str());
            assert(r@ =~= stem@ + seq!['.'] + e@);
        },
        None => {},
    }
    r
}

/// The path of `name` inside the directory `dir`.
pub fn join_path(dir: &str, name: &str) -> (r: String)
    ensures
        r@ == join(dir@, name@),
{
    let chars = to_chars(dir);
    let mut r = String::from_str(dir);
    if chars.len() > 0 && chars[chars.len() - 1] != '/' {
        proof {
            reveal_strlit("/");
        }
        r.append("/");
    }
    r.append(name);
    assert(r@ =~= join(dir@, name@));
    r
}

/// Whether `path` lies below the directory `dir`.
pub fn within(path: &str, dir: &str) -> (r: bool)
    ensures
        r == is_within(path@, dir@),
{
    let p = to_chars(path);
    let d = to_chars(dir);
    if d.len() == 0 || d.len() >= p.len() {
        return false;
    }
    let mut i: usize = 0;
    while i < d.len()
        invariant
            i <= d.len() < p.len(),
            p@ == path@,
            d@ == dir@,
            p@.take(i as int) == d@.take(i as int),
        decreases d.len() - i,
    {
        if p[i] != d[i] {
            assert(p@.take(d.len() as int)[i as int] != d@[i as int]);
            return false;
        }
        assert(p@.take(i as int + 1) =~= p@.take(i as int).push(p@[i as int]));
        assert(d@.take(i as int + 1) =~= d@.take(i as int).push(d@[i as int]));
        i = i + 1;
    }
    assert(d@.take(d.len() as int) =~= d@);
    d[d.len() - 1] == '/' || p[d.len()] == '/'
}

} // verus!

//! Small questions about text: equality, containment, trailing slashes, directories.

use vstd::prelude::*;
use vstd::string::*;

verus! {

/// Whether `needle` stands in `hay` at position `i`.
pub open spec fn stands_at(hay: Seq<char>, needle: Seq<char>, i: int) -> bool {
    &&& 0 <= i <= hay.len() - needle.len()
    &&& hay.subrange(i, i + needle.len()) == needle
}

/// Whether `needle` occurs in `hay`.
pub open spec fn occurs(hay: Seq<char>, needle: Seq<char>) -> bool {
    exists|i: int| stands_at(hay, needle, i)
}

/// The text without its trailing slashes.
pub open spec fn trimmed(s: Seq<char>) -> Seq<char>
    decreases s.len(),
{
    if s.len() > 0 && s.last() == '/' {
        trimmed(s.drop_last())
    } else {
        s
    }
}

/// The text before its last slash; all of it where it has none.
pub open spec fn directory(s: Seq<char>) -> Seq<char> {
    if s.contains('/') {
        before_last_slash(s)
    } else {
        s
    }
}

/// The text before its last slash; nothing where it has none.
pub open spec fn before_last_slash(s: Seq<char>) -> Seq<char>
    decreases s.len(),
{
    if s.len() == 0 {
        s
    } else if s.last() == '/' {
        s.drop_last()
    } else {
        before_last_slash(s.drop_last())
    }
}

/// Whether two texts are the same.
pub fn same(a: &str, b: &str) -> (r: bool)
    ensures
        r == (a@ == b@),
{
    let n: usize = a.unicode_len();
    if n != b.unicode_len() {
        return false;
    }
    let mut i: usize = 0;
    while i < n
        invariant
            i <= n,
            n == a@.len(),
            n == b@.len(),
            forall|j: int| 0 <= j < i ==> a@[j] == b@[j],
        decreases n - i,
    {
        if a.get_char(i) != b.get_char(i) {
            return false;
        }
        i = i + 1;
    }
    assert(a@ =~= b@);
    true
}

fn matches_at(hay: &str, needle: &str, at: usize) -> (r: bool)
    requires
        at + needle@.len() <= hay@.len() <= usize::MAX,
    ensures
        r == stands_at(hay@, needle@, at as int),
{
    let n: usize = needle.unicode_len();
    let mut i: usize = 0;
    while i < n
        invariant
            i <= n,
            n == needle@.len(),
            at + n <= hay@.len() <= usize::MAX,
            forall|j: int| 0 <= j < i ==> hay@[at + j] == needle@[j],
        decreases n - i,
    {
        if hay.get_char(at + i) != needle.get_char(i) {
            proof {
                assert(hay@.subrange(at as int, at + n)[i as int] == hay@[at + i]);
            }
            return false;
        }
        i = i + 1;
    }
    assert(hay@.subrange(at as int, at + n) =~= needle@);
    true
}

/// Whether `needle` occurs in `hay`.
pub fn contains(hay: &str, needle: &str) -> (r: bool)
    ensures
        r == occurs(hay@, needle@),
{
    let h: usize = hay.unicode_len();
    let n: usize = needle.unicode_len();
    if n > h {
        return false;
    }
    let mut i: usize = 0;
    while i <= h - n
        invariant
            h == hay@.len(),
            n == needle@.len(),
            n <= h,
            i <= h - n + 1,
            forall|j: int| 0 <= j < i ==> !stands_at(hay@, needle@, j),
        decreases h - n + 1 - i,
    {
        if matches_at(hay, needle, i) {
            return true;
        }
        if i == h - n {
            return false;
        }
        i = i + 1;
    }
    false
}

/// The text without its trailing slashes.
pub fn trim_slashes(s: &str) -> (r: String)
    ensures
        r@ == trimmed(s@),
{
    let mut n: usize = s.unicode_len();
    assert(s@ =~= s@.subrange(0, n as int));
    while n > 0 && s.get_char(n - 1) == '/'
        invariant
            n <= s@.len(),
            trimmed(s@) == trimmed(s@.subrange(0, n as int)),
        decreases n,
    {
        assert(s@.subrange(0, n as int).drop_last() =~= s@.subrange(0, n - 1));
        n = n - 1;
    }
    s.substring_char(0, n).to_owned()
}

proof fn slash_is_in_the_front_part(s: Seq<char>, n: int)
    requires
        0 <= n < s.len(),
        s[n] == '/',
        forall|j: int| n < j < s.len() ==> s[j] != '/',
    ensures
        s.contains('/'),
        before_last_slash(s) == s.subrange(0, n),
    decreases s.len(),
{
    assert(s.contains('/'));
    if n == s.len() - 1 {
        assert(s.drop_last() =~= s.subrange(0, n));
    } else {
        assert(s.drop_last()[n] == '/');
        slash_is_in_the_front_part(s.drop_last(), n);
        assert(s.drop_last().subrange(0, n) =~= s.subrange(0, n));
    }
}

/// The text before its last slash; all of it where it has none.
pub fn directory_of(s: &str) -> (r: String)
    ensures
        r@ == directory(s@),
{
    let len: usize = s.unicode_len();
    let mut n: usize = len;
    while n > 0
        invariant
            n <= len,
            len == s@.len(),
            forall|j: int| n <= j < len ==> s@[j] != '/',
        decreases n,
    {
        if s.get_char(n - 1) == '/' {
            proof {
                slash_is_in_the_front_part(s@, n - 1);
            }
            return s.substring_char(0, n - 1).to_owned();
        }
        n = n - 1;
    }
    assert(!s@.contains('/'));
    s.to_owned()
}

/// The texts of a list.
pub open spec fn texts(v: Seq<String>) -> Seq<Seq<char>> {
    v.map_values(|s: String| s@)
}

/// The first position from `from` on at which `name` stands.
pub open spec fn position(names: Seq<Seq<char>>, name: Seq<char>, from: int) -> Option<int>
    decreases names.len() - from,
{
    if from < 0 || from >= names.len() {
        None
    } else if names[from] == name {
        Some(from)
    } else {
        position(names, name, from + 1)
    }
}

/// The first position at which `name` stands.
pub fn find_name(names: &Vec<String>, name: &str) -> (r: Option<usize>)
    ensures
        match r {
            Some(i) => position(texts(names@), name@, 0) == Some(i as int),
            None => position(texts(names@), name@, 0) is None,
        },
{
    let mut i: usize = 0;
    while i < names.len()
        invariant
            i <= names@.len(),
            position(texts(names@), name@, 0) == position(texts(names@), name@, i as int),
        decreases names@.len() - i,
    {
        assert(texts(names@)[i as int] == names@[i as int]@);
        if same(names[i].as_str(), name) {
            return Some(i);
        }
        i = i + 1;
    }
    None
}

/// A position that is found is the first one: the name stands there, and nowhere before.
pub proof fn positions_are_first(names: Seq<Seq<char>>, name: Seq<char>, from: int)
    requires
        0 <= from,
    ensures
        position(names, name, from) matches Some(i) ==> from <= i < names.len() && names[i] == name
            && forall|j: int| from <= j < i ==> names[j] != name,
        position(names, name, from) is None ==> forall|j: int|
            from <= j < names.len() ==> names[j] != name,
    decreases names.len() - from,
{
    if from < names.len() && names[from] != name {
        positions_are_first(names, name, from + 1);
    }
}

/// Two texts one behind the other.
pub fn joined(a: &str, b: &str) -> (r: String)
    ensures
        r@ == a@ + b@,
{
    let mut r: String = a.to_owned();
    r.append(b);
    r
}

/// Trimming leaves no trailing slash, takes away nothing but slashes, and does nothing the
/// second time.
pub proof fn trimming_takes_trailing_slashes(s: Seq<char>)
    ensures
        trimmed(s).len() == 0 || trimmed(s).last() != '/',
        trimmed(s).len() <= s.len(),
        trimmed(s) == s.subrange(0, trimmed(s).len() as int),
        forall|i: int| trimmed(s).len() <= i < s.len() ==> s[i] == '/',
        trimmed(trimmed(s)) == trimmed(s),
    decreases s.len(),
{
    if s.len() > 0 && s.last() == '/' {
        let rest = s.drop_last();
        trimming_takes_trailing_slashes(rest);
        assert(rest.subrange(0, trimmed(s).len() as int) =~= s.subrange(
            0,
            trimmed(s).len() as int,
        ));
        assert forall|i: int| trimmed(s).len() <= i < s.len() implies s[i] == '/' by {
            if i < rest.len() {
                assert(rest[i] == s[i]);
            }
        }
    } else {
        assert(s =~= s.subrange(0, s.len() as int));
    }
}

/// The directory of a path is what stands before its last slash, and all of it where it has none.
pub proof fn directories_end_before_the_last_slash(dir: Seq<char>, page: Seq<char>)
    requires
        !page.contains('/'),
    ensures
        directory(dir + seq!['/'] + page) == dir,
        directory(page) == page,
{
    let path = dir + seq!['/'] + page;
    assert forall|j: int| dir.len() < j < path.len() implies path[j] != '/' by {
        assert(path[j] == page[j - dir.len() - 1]);
    }
    slash_is_in_the_front_part(path, dir.len() as int);
    assert(path.subrange(0, dir.len() as int) =~= dir);
}

/// A text occurs in another exactly where that other is it with something before and after.
pub proof fn what_occurs_is_a_part(before: Seq<char>, needle: Seq<char>, after: Seq<char>)
    ensures
        occurs(before + needle + after, needle),
{
    let (hay, at) = (before + needle + after, before.len() as int);
    assert(hay.subrange(at, at + needle.len()) =~= needle);
    assert(stands_at(hay, needle, at));
}

/// Where a text occurs in another, the other has it, letter by letter, from some place on.
pub proof fn what_occurs_is_there(hay: Seq<char>, needle: Seq<char>) -> (at: int)
    requires
        occurs(hay, needle),
    ensures
        0 <= at <= hay.len() - needle.len(),
        forall|j: int| 0 <= j < needle.len() ==> hay[at + j] == #[trigger] needle[j],
{
    let at = choose|i: int| stands_at(hay, needle, i);
    assert forall|j: int| 0 <= j < needle.len() implies hay[at + j] == #[trigger] needle[j] by {
        assert(hay.subrange(at, at + needle.len())[j] == hay[at + j]);
    }
    at
}

} // verus!

//! Case-sensitive substring search, identifier lists and identifier escaping.
use vstd::prelude::*;

verus! {

/// `needle` occurs in `hay` as a contiguous run of characters.
pub open spec fn has_substring(hay: Seq<char>, needle: Seq<char>) -> bool {
    exists|i: int|
        0 <= i && i + needle.len() <= hay.len() && #[trigger] hay.subrange(i, i + needle.len())
            == needle
}

/// `id` is one of the identifiers in `list`.
pub open spec fn listed(list: Seq<String>, id: Seq<char>) -> bool {
    exists|i: int| 0 <= i < list.len() && #[trigger] list[i]@ == id
}

/// The transport escaping of one character of an identifier.
pub open spec fn escape_char(c: char) -> Seq<char> {
    if c == '@' {
        seq!['%', '4', '0']
    } else if c == ':' {
        seq!['%', '3', 'A']
    } else {
        seq![c]
    }
}

/// An identifier with every `@` written `%40` and every `:` written `%3A`.
pub open spec fn escaped_id(s: Seq<char>) -> Seq<char>
    decreases s.len(),
{
    if s.len() == 0 {
        Seq::empty()
    } else {
        escaped_id(s.drop_last()) + escape_char(s.last())
    }
}

fn matches_at(hay: &str, needle: &str, i: usize, n: usize, h: usize) -> (r: bool)
    requires
        n == needle@.len(),
        h == hay@.len(),
        i + n <= hay@.len(),
    ensures
        r == (hay@.subrange(i as int, i + n) == needle@),
{
    let mut j: usize = 0;
    while j < n
        invariant
            n == needle@.len(),
            h == hay@.len(),
            i + n <= hay@.len(),
            j <= n,
            forall|k: int| 0 <= k < j ==> hay@[i + k] == needle@[k],
        decreases n - j,
    {
        if hay.get_char(i + j) != needle.get_char(j) {
            assert(hay@.subrange(i as int, i + n)[j as int] != needle@[j as int]);
            return false;
        }
        j += 1;
    }
    assert(hay@.subrange(i as int, i + n) =~= needle@);
    true
}

/// Whether `needle` occurs in `hay`, compared character by character.
pub fn contains_substring(hay: &str, needle: &str) -> (r: bool)
    ensures
        r == has_substring(hay@, needle@),
{
    let h = hay.unicode_len();
    let n = needle.unicode_len();
    if n > h {
        return false;
    }
    let mut i: usize = 0;
    loop
        invariant
            h == hay@.len(),
            n == needle@.len(),
            n <= h,
            i <= h - n,
            forall|k: int| 0 <= k < i ==> #[trigger] hay@.subrange(k, k + n) != needle@,
        decreases h - n - i,
    {
        if matches_at(hay, needle, i, n, h) {
            return true;
        }
        if i == h - n {
            return false;
        }
        i += 1;
    }
}

/// Whether `id` is one of the identifiers in `list`.
pub fn contains_id(list: &Vec<String>, id: &String) -> (r: bool)
    ensures
        r == listed(list@, id@),
{
    let mut i: usize = 0;
    while i < list.len()
        invariant
            i <= list@.len(),
            forall|k: int| 0 <= k < i ==> #[trigger] list@[k]@ != id@,
        decreases list.len() - i,
    {
        if list[i] == *id {
            return true;
        }
        i += 1;
    }
    false
}

/// Escapes an identifier for matching inside URL-encoded markup:
/// `@` becomes `%40` and `:` becomes `%3A`, every other character stays.
pub fn escape_identifier(id: &str) -> (r: String)
    ensures
        r@ == escaped_id(id@),
{
    let n = id.unicode_len();
    let mut r = String::new();
    let mut i: usize = 0;
    while i < n
        invariant
            n == id@.len(),
            i <= n,
            r@ == escaped_id(id@.subrange(0, i as int)),
        decreases n - i,
    {
        let c = id.get_char(i);
        assert(id@.subrange(0, i + 1).drop_last() =~= id@.subrange(0, i as int));
        if c == '@' {
            proof {
                reveal_strlit("%40");
            }
            r.append("%40");
        } else if c == ':' {
            proof {
                reveal_strlit("%3A");
            }
            r.append("%3A");
        } else {
            let one = id.substring_char(i, i + 1);
            assert(one@ =~= seq![c]);
            r.append(one);
        }
        i += 1;
    }
    assert(id@.subrange(0, n as int) =~= id@);
    r
}

} // verus!

//! Text as sequences of characters: finding, splitting and cutting.

use vstd::prelude::*;
use vstd::std_specs::iter::IteratorSpec;

verus! {

/// The strings of a sequence as sequences of characters.
pub open spec fn views(strings: Seq<String>) -> Seq<Seq<char>> {
    Seq::new(strings.len(), |i: int| strings[i]@)
}

/// The characters of a string, one by one.
pub fn chars_of(s: &str) -> (chars: Vec<char>)
    ensures
        chars@ == s@,
{
    broadcast use vstd::string::group_string_axioms;

    let mut it = s.chars();
    let mut chars: Vec<char> = Vec::new();
    loop
        invariant
            chars@ + it.remaining() == s@,
        ensures
            chars@ == s@,
        decreases s@.len() - chars@.len(),
    {
        let ghost rest = it.remaining();
        let ghost done = chars@;
        match it.next() {
            Some(c) => {
                chars.push(c);
                proof {
                    assert(chars@ + it.remaining() =~= done + rest);
                }
            },
            None => {
                proof {
                    assert(done + rest =~= done);
                }
                break ;
            },
        }
    }
    chars
}

/// The position of the first `c` in `chars`.
pub fn find_first(chars: &Vec<char>, c: char) -> (found: Option<usize>)
    ensures
        match found {
            Some(i) => chars@.index_of_first(c) == Some(i as int),
            None => chars@.index_of_first(c) is None,
        },
{
    let mut i: usize = 0;
    while i < chars.len()
        invariant
            i <= chars@.len(),
            forall|j: int| 0 <= j < i ==> chars@[j] != c,
        decreases chars@.len() - i,
    {
        if chars[i] == c {
            proof {
                chars@.index_of_first_ensures(c);
                assert(chars@.contains(c));
            }
            return Some(i);
        }
        i += 1;
    }
    proof {
        chars@.index_of_first_ensures(c);
    }
    None
}

/// The position of the last `c` in `chars`.
pub fn find_last(chars: &Vec<char>, c: char) -> (found: Option<usize>)
    ensures
        match found {
            Some(i) => chars@.index_of_last(c) == Some(i as int),
            None => chars@.index_of_last(c) is None,
        },
{
    let mut i: usize = chars.len();
    while i > 0
        invariant
            i <= chars@.len(),
            forall|j: int| i <= j < chars@.len() ==> chars@[j] != c,
        decreases i,
    {
        i -= 1;
        if chars[i] == c {
            proof {
                chars@.index_of_last_ensures(c);
                assert(chars@.contains(c));
            }
            return Some(i);
        }
    }
    proof {
        chars@.index_of_last_ensures(c);
    }
    None
}

/// The position of the first `c` in the part of `chars` from `from` up to
/// `to`, counted from `from`.
pub fn find_first_between(chars: &Vec<char>, c: char, from: usize, to: usize) -> (found: Option<
    usize,
>)
    requires
        from <= to <= chars@.len(),
    ensures
        match found {
            Some(i) => chars@.subrange(from as int, to as int).index_of_first(c) == Some(
                i as int,
            ),
            None => chars@.subrange(from as int, to as int).index_of_first(c) is None,
        },
{
    let ghost part = chars@.subrange(from as int, to as int);
    let mut i: usize = from;
    while i < to
        invariant
            from <= i <= to <= chars@.len(),
            part == chars@.subrange(from as int, to as int),
            forall|j: int| 0 <= j < i - from ==> part[j] != c,
        decreases to - i,
    {
        if chars[i] == c {
            proof {
                part.index_of_first_ensures(c);
                assert(part[i - from] == c);
                assert(part.contains(c));
            }
            return Some(i - from);
        }
        i += 1;
    }
    proof {
        part.index_of_first_ensures(c);
    }
    None
}

/// The position of the last `c` in the part of `chars` from `from` on,
/// counted from `from`.
pub fn find_last_from(chars: &Vec<char>, c: char, from: usize) -> (found: Option<usize>)
    requires
        from <= chars@.len(),
    ensures
        match found {
            Some(i) => chars@.subrange(from as int, chars@.len() as int).index_of_last(c) == Some(
                i as int,
            ),
            None => chars@.subrange(from as int, chars@.len() as int).index_of_last(c) is None,
        },
{
    let ghost part = chars@.subrange(from as int, chars@.len() as int);
    let mut i: usize = chars.len();
    while i > from
        invariant
            from <= i <= chars@.len(),
            part == chars@.subrange(from as int, chars@.len() as int),
            forall|j: int| i - from <= j < part.len() ==> part[j] != c,
        decreases i,
    {
        i -= 1;
        if chars[i] == c {
            proof {
                part.index_of_last_ensures(c);
                assert(part[i - from] == c);
                assert(part.contains(c));
            }
            return Some(i - from);
        }
    }
    proof {
        part.index_of_last_ensures(c);
    }
    None
}

/// Whether `chars` begins with `prefix`.
pub fn starts_with(chars: &Vec<char>, prefix: &Vec<char>) -> (yes: bool)
    ensures
        yes == prefix@.is_prefix_of(chars@),
{
    if prefix.len() > chars.len() {
        return false;
    }
    let mut i: usize = 0;
    while i < prefix.len()
        invariant
            i <= prefix@.len() <= chars@.len(),
            forall|j: int| 0 <= j < i ==> chars@[j] == prefix@[j],
        decreases prefix@.len() - i,
    {
        if chars[i] != prefix[i] {
            assert(chars@.subrange(0, prefix@.len() as int)[i as int] != prefix@[i as int]);
            return false;
        }
        i += 1;
    }
    assert(prefix@ =~= chars@.subrange(0, prefix@.len() as int));
    true
}

/// Whether the first `len` characters of `chars` end with `suffix`.
pub fn ends_with_at(chars: &Vec<char>, len: usize, suffix: &Vec<char>) -> (yes: bool)
    requires
        len <= chars@.len(),
    ensures
        yes == suffix@.is_suffix_of(chars@.take(len as int)),
{
    if suffix.len() > len {
        return false;
    }
    let start = len - suffix.len();
    let ghost head = chars@.take(len as int);
    let mut i: usize = 0;
    while i < suffix.len()
        invariant
            i <= suffix@.len() <= len <= chars@.len(),
            start == len - suffix@.len(),
            head == chars@.take(len as int),
            forall|j: int| 0 <= j < i ==> chars@[start + j] == suffix@[j],
        decreases suffix@.len() - i,
    {
        if chars[start + i] != suffix[i] {
            assert(head.subrange(start as int, len as int)[i as int] != suffix@[i as int]);
            return false;
        }
        i += 1;
    }
    assert(suffix@ =~= head.subrange(start as int, len as int));
    true
}

/// What `str::replace` yields: `text` with every match of `from`, found from
/// left to right without overlap, replaced by `to`.
pub uninterp spec fn replaced(text: Seq<char>, from: Seq<char>, to: Seq<char>) -> Seq<char>;

/// Replaces every match of `from` in `text` by `to`.
///
/// Calls `str::replace` of the standard library, whose result depends on its
/// arguments alone and is named `replaced`.
#[verifier::external_body]
pub(crate) fn replace_all(text: &str, from: &str, to: &str) -> (result: String)
    ensures
        result@ == replaced(text@, from@, to@),
{
    text.replace(from, to)
}

/// What `str::split_whitespace` yields: the non-empty pieces of `text` between
/// runs of Unicode whitespace, in their order.
pub uninterp spec fn whitespace_words(text: Seq<char>) -> Seq<Seq<char>>;

/// Splits `text` at whitespace.
///
/// Calls `str::split_whitespace` of the standard library, whose result depends
/// on its argument alone and is named `whitespace_words`.
#[verifier::external_body]
pub(crate) fn split_words(text: &str) -> (words: Vec<String>)
    ensures
        views(words@) == whitespace_words(text@),
{
    text.split_whitespace().map(|w| w.to_string()).collect()
}

} // verus!

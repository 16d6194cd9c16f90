//! Small helpers on strings that the rest of the library shares.

use vstd::prelude::*;
use vstd::string::*;

verus! {

/// Whether two string slices hold the same characters.
pub fn str_eq(a: &str, b: &str) -> (r: bool)
    ensures
        r == (a@ == b@),
{
    let left = a.to_owned();
    let right = b.to_owned();
    left == right
}

/// Copies an optional string.
pub fn clone_opt_string(s: &Option<String>) -> (r: Option<String>)
    ensures
        r.deep_view() == s.deep_view(),
{
    match s {
        Some(t) => Some(t.clone()),
        None => None,
    }
}

/// Copies a list of strings.
pub fn clone_strings(items: &Vec<String>) -> (r: Vec<String>)
    ensures
        r.deep_view() == items.deep_view(),
{
    let mut out: Vec<String> = Vec::new();
    let mut i: usize = 0;
    while i < items.len()
        invariant
            i <= items.len(),
            out.len() == i,
            forall|j: int| 0 <= j < i ==> out@[j]@ == items@[j]@,
        decreases items.len() - i,
    {
        out.push(items[i].clone());
        i += 1;
    }
    assert(out.deep_view() =~= items.deep_view());
    out
}

/// The order of strings: byte by byte, a prefix before what extends it.
pub open spec fn bytes_le(a: Seq<u8>, b: Seq<u8>) -> bool
    decreases a.len(),
{
    if a.len() == 0 {
        true
    } else if b.len() == 0 {
        false
    } else if a[0] != b[0] {
        a[0] < b[0]
    } else {
        bytes_le(a.drop_first(), b.drop_first())
    }
}

/// The order of strings, on their characters' encoding.
pub open spec fn string_le(a: Seq<char>, b: Seq<char>) -> bool {
    bytes_le(vstd::utf8::encode_utf8(a), vstd::utf8::encode_utf8(b))
}

/// Of two strings, one comes before the other or they are the same in order.
pub proof fn lemma_bytes_le_total(a: Seq<u8>, b: Seq<u8>)
    ensures
        bytes_le(a, b) || bytes_le(b, a),
    decreases a.len(),
{
    if a.len() > 0 && b.len() > 0 && a[0] == b[0] {
        lemma_bytes_le_total(a.drop_first(), b.drop_first());
    }
}

/// The order of strings is transitive.
pub proof fn lemma_bytes_le_transitive(a: Seq<u8>, b: Seq<u8>, c: Seq<u8>)
    requires
        bytes_le(a, b),
        bytes_le(b, c),
    ensures
        bytes_le(a, c),
    decreases a.len(),
{
    if a.len() > 0 && b.len() > 0 && c.len() > 0 && a[0] == b[0] && b[0] == c[0] {
        lemma_bytes_le_transitive(a.drop_first(), b.drop_first(), c.drop_first());
    }
}

/// Whether `a` comes before `b` in the order of strings, or is the same.
pub fn str_le(a: &str, b: &str) -> (r: bool)
    ensures
        r == string_le(a@, b@),
{
    let left = a.as_bytes();
    let right = b.as_bytes();
    let mut i: usize = 0;
    assert(left@.skip(0) =~= left@);
    assert(right@.skip(0) =~= right@);
    loop
        invariant
            i <= left@.len(),
            i <= right@.len(),
            left@ == a.spec_bytes(),
            right@ == b.spec_bytes(),
            bytes_le(left@, right@) == bytes_le(left@.skip(i as int), right@.skip(i as int)),
        decreases left@.len() - i,
    {
        if i >= left.len() {
            return true;
        }
        if i >= right.len() {
            return false;
        }
        if left[i] != right[i] {
            return left[i] < right[i];
        }
        proof {
            assert(left@.skip(i as int).drop_first() =~= left@.skip(i + 1));
            assert(right@.skip(i as int).drop_first() =~= right@.skip(i + 1));
        }
        i += 1;
    }
}

/// Where `name` enters a list of names: behind every name that comes
/// before it in order, or is the same.
pub open spec fn name_insertion_point(list: Seq<Seq<char>>, name: Seq<char>) -> int
    decreases list.len(),
{
    if list.len() == 0 {
        0
    } else if string_le(list.last(), name) {
        list.len() as int
    } else {
        name_insertion_point(list.drop_last(), name)
    }
}

/// The names in order; equal names keep the order in which they came.
pub open spec fn sorted_names(names: Seq<Seq<char>>) -> Seq<Seq<char>>
    decreases names.len(),
{
    if names.len() == 0 {
        Seq::empty()
    } else {
        let rest = sorted_names(names.drop_last());
        rest.insert(name_insertion_point(rest, names.last()), names.last())
    }
}

/// Each name comes before the next, or is the same.
pub open spec fn names_in_order(list: Seq<Seq<char>>) -> bool {
    forall|i: int, j: int|
        0 <= i < j < list.len() ==> string_le(#[trigger] list[i], #[trigger] list[j])
}

pub proof fn lemma_name_insertion_point(list: Seq<Seq<char>>, name: Seq<char>)
    requires
        names_in_order(list),
    ensures
        0 <= name_insertion_point(list, name) <= list.len(),
        forall|i: int|
            0 <= i < name_insertion_point(list, name) ==> string_le(#[trigger] list[i], name),
        forall|i: int|
            name_insertion_point(list, name) <= i < list.len() ==> string_le(
                name,
                #[trigger] list[i],
            ),
    decreases list.len(),
{
    if list.len() > 0 {
        let last = list.last();
        if string_le(last, name) {
            assert forall|i: int| 0 <= i < list.len() implies string_le(#[trigger] list[i], name) by {
                if i < list.len() - 1 {
                    assert(string_le(list[i], list[list.len() - 1]));
                    lemma_bytes_le_transitive(
                        vstd::utf8::encode_utf8(list[i]),
                        vstd::utf8::encode_utf8(last),
                        vstd::utf8::encode_utf8(name),
                    );
                }
            }
        } else {
            let shorter = list.drop_last();
            assert forall|i: int, j: int| 0 <= i < j < shorter.len() implies string_le(
                #[trigger] shorter[i],
                #[trigger] shorter[j],
            ) by {
                assert(shorter[i] == list[i]);
                assert(shorter[j] == list[j]);
                assert(string_le(list[i], list[j]));
            }
            lemma_name_insertion_point(shorter, name);
            let p = name_insertion_point(shorter, name);
            lemma_bytes_le_total(vstd::utf8::encode_utf8(last), vstd::utf8::encode_utf8(name));
            assert forall|i: int| 0 <= i < p implies string_le(#[trigger] list[i], name) by {
                assert(shorter[i] == list[i]);
            }
            assert forall|i: int| p <= i < list.len() implies string_le(name, #[trigger] list[i]) by {
                if i < list.len() - 1 {
                    assert(shorter[i] == list[i]);
                }
            }
        }
    }
}

/// Sorted names are in order, and are the names that were given, each as
/// often as it was given.
pub proof fn lemma_sorted_names(names: Seq<Seq<char>>)
    ensures
        names_in_order(sorted_names(names)),
        sorted_names(names).to_multiset() == names.to_multiset(),
        sorted_names(names).len() == names.len(),
    decreases names.len(),
{
    if names.len() > 0 {
        let rest = sorted_names(names.drop_last());
        let name = names.last();
        lemma_sorted_names(names.drop_last());
        lemma_name_insertion_point(rest, name);
        let p = name_insertion_point(rest, name);
        let full = rest.insert(p, name);
        assert forall|i: int, j: int| 0 <= i < j < full.len() implies string_le(
            #[trigger] full[i],
            #[trigger] full[j],
        ) by {
            if i < p && j > p {
                assert(full[i] == rest[i]);
                assert(full[j] == rest[j - 1]);
                assert(string_le(rest[i], rest[j - 1]));
            } else if i < p && j < p {
                assert(full[i] == rest[i]);
                assert(full[j] == rest[j]);
                assert(string_le(rest[i], rest[j]));
            } else if i > p {
                assert(full[i] == rest[i - 1]);
                assert(full[j] == rest[j - 1]);
                assert(string_le(rest[i - 1], rest[j - 1]));
            } else if i == p {
                assert(full[j] == rest[j - 1]);
            } else {
                assert(full[i] == rest[i]);
            }
        }
        assert(names.drop_last().push(name) =~= names);
        vstd::seq_lib::to_multiset_insert(rest, p, name);
        vstd::seq_lib::to_multiset_build(names.drop_last(), name);
        assert(full.to_multiset() =~= names.to_multiset());
    } else {
        assert(names =~= Seq::<Seq<char>>::empty());
    }
}

/// Sorts names into the order of strings.
pub fn sort_names(names: &Vec<String>) -> (r: Vec<String>)
    ensures
        r.deep_view() == sorted_names(names.deep_view()),
        names_in_order(r.deep_view()),
        r.deep_view().to_multiset() == names.deep_view().to_multiset(),
{
    let ghost given = names.deep_view();
    let mut out: Vec<String> = Vec::new();
    let mut i: usize = 0;
    assert(given.take(0) =~= Seq::<Seq<char>>::empty());
    assert(out.deep_view() =~= Seq::<Seq<char>>::empty());
    while i < names.len()
        invariant
            i <= names.len(),
            given == names.deep_view(),
            out.deep_view() == sorted_names(given.take(i as int)),
        decreases names.len() - i,
    {
        let ghost listed = out.deep_view();
        proof {
            assert(given.take(i + 1).drop_last() =~= given.take(i as int));
            assert(given.take(i + 1).last() == given[i as int]);
        }
        let name = names[i].clone();
        let mut at: usize = out.len();
        assert(listed.take(at as int) =~= listed);
        while at > 0 && !str_le(out[at - 1].as_str(), name.as_str())
            invariant
                at <= out.len(),
                listed == out.deep_view(),
                name_insertion_point(listed, name@) == name_insertion_point(
                    listed.take(at as int),
                    name@,
                ),
            decreases at,
        {
            proof {
                assert(listed.take(at as int).drop_last() =~= listed.take(at - 1));
                assert(listed.take(at as int).last() == listed[at - 1]);
            }
            at -= 1;
        }
        proof {
            if at > 0 {
                assert(listed.take(at as int).last() == listed[at - 1]);
            }
            assert(name_insertion_point(listed, name@) == at);
        }
        out.insert(at, name);
        assert(out.deep_view() =~= listed.insert(at as int, name@));
        i += 1;
    }
    proof {
        assert(given.take(i as int) =~= given);
        lemma_sorted_names(given);
    }
    out
}

/// The characters of a text.
pub fn chars_of(text: &str) -> (r: Vec<char>)
    ensures
        r@ == text@,
{
    broadcast use vstd::string::group_string_axioms;
    let mut out: Vec<char> = Vec::new();
    for c in it: text.chars()
        invariant
            it.seq() == text@,
            out@ == it.seq().take(it.index() as int),
    {
        let ghost before = out@;
        out.push(c);
        assert(out@ =~= it.seq().take(it.index() + 1));
    }
    assert(out@ =~= text@);
    out
}

/// Appends a character with `String::push`, which adds it at the end.
#[verifier::external_body]
fn push_char(text: &mut String, c: char)
    ensures
        final(text)@ == old(text)@.push(c),
{
    text.push(c)
}

/// The text made of the characters `chars[from..to]`.
pub fn text_of(chars: &Vec<char>, from: usize, to: usize) -> (r: String)
    requires
        from <= to <= chars.len(),
    ensures
        r@ == chars@.subrange(from as int, to as int),
{
    let mut out = String::new();
    let mut i: usize = from;
    while i < to
        invariant
            from <= i <= to,
            to <= chars.len(),
            out@ == chars@.subrange(from as int, i as int),
        decreases to - i,
    {
        push_char(&mut out, chars[i]);
        assert(out@ =~= chars@.subrange(from as int, i + 1));
        i += 1;
    }
    out
}

/// What `str::trim` returns for a text: the text without the white space
/// at its two ends.
pub uninterp spec fn trimmed(text: Seq<char>) -> Seq<char>;

/// What `str::to_lowercase` returns for a text: its lower-case equivalent.
pub uninterp spec fn lowercased(text: Seq<char>) -> Seq<char>;

/// Calls `str::trim`, which removes leading and trailing white space, and
/// names what it returns.
#[verifier::external_body]
pub(crate) fn trim_text(text: &str) -> (r: &str)
    ensures
        r@ == trimmed(text@),
{
    text.trim()
}

/// Calls `str::to_lowercase` and names what it returns.
#[verifier::external_body]
pub(crate) fn lowercase_text(text: &str) -> (r: String)
    ensures
        r@ == lowercased(text@),
{
    text.to_lowercase()
}

/// Inserts `c` into `chars` at `at`, or at the end where `at` lies beyond.
pub fn insert_char(chars: &mut Vec<char>, at: usize, c: char)
    ensures
        final(chars)@ == old(chars)@.insert(
            if at <= old(chars).len() {
                at as int
            } else {
                old(chars).len() as int
            },
            c,
        ),
{
    let place = if at <= chars.len() {
        at
    } else {
        chars.len()
    };
    chars.insert(place, c);
}

} // verus!

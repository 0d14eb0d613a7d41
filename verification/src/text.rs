use vstd::prelude::*;
use vstd::string::StringSliceAdditionalSpecFns;
use vstd::utf8::encode_utf8_decode_utf8;

verus! {

/// Whether two texts hold the same characters.
pub fn same_text(a: &str, b: &str) -> (same: bool)
    ensures
        same == (a@ == b@),
{
    let x = a.as_bytes();
    let y = b.as_bytes();
    proof {
        encode_utf8_decode_utf8(a@);
        encode_utf8_decode_utf8(b@);
    }
    if x.len() != y.len() {
        return false;
    }
    let mut i: usize = 0;
    while i < x.len()
        invariant
            i <= x.len(),
            x.len() == y.len(),
            x@ == a.spec_bytes(),
            y@ == b.spec_bytes(),
            forall|j: int| 0 <= j < i ==> x@[j] == y@[j],
        decreases x.len() - i,
    {
        if x[i] != y[i] {
            return false;
        }
        i += 1;
    }
    assert(x@ =~= y@);
    true
}

/// Whether `text` occurs in `list`.
pub fn holds_text(list: &Vec<String>, text: &str) -> (found: bool)
    ensures
        found == list.deep_view().contains(text@),
{
    let mut i: usize = 0;
    while i < list.len()
        invariant
            i <= list.len(),
            forall|j: int| 0 <= j < i ==> list.deep_view()[j] != text@,
        decreases list.len() - i,
    {
        if same_text(list[i].as_str(), text) {
            assert(list.deep_view()[i as int] == text@);
            return true;
        }
        i += 1;
    }
    false
}

/// A copy of `list`, text by text.
pub fn copy_texts(list: &Vec<String>) -> (copy: Vec<String>)
    ensures
        copy.deep_view() == list.deep_view(),
{
    let mut copy: Vec<String> = Vec::new();
    let mut i: usize = 0;
    while i < list.len()
        invariant
            i <= list.len(),
            copy.len() == i,
            forall|j: int| 0 <= j < i ==> copy[j]@ == list[j]@,
        decreases list.len() - i,
    {
        copy.push(list[i].clone());
        i += 1;
    }
    assert(copy.deep_view() =~= list.deep_view());
    copy
}

/// `list` with `text` at its end, unless `list` holds `text` already.
pub open spec fn with_text(list: Seq<Seq<char>>, text: Seq<char>) -> Seq<Seq<char>> {
    if list.contains(text) {
        list
    } else {
        list.push(text)
    }
}

/// Adding a text once keeps a list free of repetitions, and the list then
/// holds the text and what it held before, nothing else.
pub proof fn lemma_with_text(list: Seq<Seq<char>>, text: Seq<char>)
    requires
        list.no_duplicates(),
    ensures
        with_text(list, text).no_duplicates(),
        forall|t: Seq<char>| #[trigger]
            with_text(list, text).contains(t) <==> list.contains(t) || t == text,
{
    let after = with_text(list, text);
    if !list.contains(text) {
        let n = list.len() as int;
        assert(after[n] == text);
        assert forall|a: int, b: int|
            0 <= a < after.len() && 0 <= b < after.len() && a != b implies after[a] != after[b] by {
            if a < n {
                assert(list[a] == after[a]);
            }
            if b < n {
                assert(list[b] == after[b]);
            }
        }
        assert forall|t: Seq<char>| #[trigger]
            after.contains(t) <==> list.contains(t) || t == text by {
            if after.contains(t) {
                let i = choose|i: int| 0 <= i < after.len() && after[i] == t;
                if i < n {
                    assert(list[i] == t);
                }
            }
            if list.contains(t) {
                let i = choose|i: int| 0 <= i < list.len() && list[i] == t;
                assert(after[i] == t);
            }
        }
    }
}

/// Puts `text` at the end of `list`, unless `list` holds it already.
pub fn add_once(list: &mut Vec<String>, text: &str)
    ensures
        final(list).deep_view() == with_text(old(list).deep_view(), text@),
{
    if !holds_text(list, text) {
        list.push(text.to_owned());
        assert(list.deep_view() =~= old(list).deep_view().push(text@));
    }
}

} // verus!

//! Byte-level helpers shared by the parser, the header map and the
//! serializer: ASCII views of string literals, ASCII lowercasing, and
//! splitting a byte sequence on a separator.

use vstd::prelude::*;

verus! {

/// The bytes of an ASCII character sequence, one byte per character.
pub open spec fn ascii_bytes(s: Seq<char>) -> Seq<u8> {
    Seq::new(s.len(), |i: int| s[i] as u8)
}

/// Copies the bytes of an ASCII string.
pub(crate) fn ascii_vec(s: &str) -> (r: Vec<u8>)
    requires
        s.is_ascii(),
    ensures
        r@ == ascii_bytes(s@),
{
    proof {
        broadcast use vstd::string::is_ascii_spec_bytes;

    }
    let b = s.as_bytes();
    let r = vstd::slice::slice_to_vec(b);
    assert(r@ =~= ascii_bytes(s@));
    r
}

/// ASCII lowercasing of one byte: `A`..`Z` map to `a`..`z`.
pub open spec fn lower_byte(b: u8) -> u8 {
    if 65 <= b <= 90 {
        (b + 32) as u8
    } else {
        b
    }
}

/// ASCII lowercasing of a byte sequence.
pub open spec fn lower(s: Seq<u8>) -> Seq<u8> {
    s.map_values(|b: u8| lower_byte(b))
}

/// Copies `s`, lowercasing ASCII letters.
pub fn to_lower(s: &Vec<u8>) -> (r: Vec<u8>)
    ensures
        r@ == lower(s@),
{
    let mut r: Vec<u8> = Vec::new();
    let mut i: usize = 0;
    while i < s.len()
        invariant
            i <= s.len(),
            r@ =~= lower(s@.take(i as int)),
        decreases s.len() - i,
    {
        let b = s[i];
        if 65 <= b && b <= 90 {
            r.push(b + 32);
        } else {
            r.push(b);
        }
        assert(r@ =~= lower(s@.take(i + 1)));
        i = i + 1;
    }
    assert(s@.take(s.len() as int) =~= s@);
    r
}

/// A byte vector's deep view is its view.
pub proof fn lemma_bytes_deep_view(v: Vec<u8>)
    ensures
        v.deep_view() == v@,
{
    assert(v.deep_view() =~= v@);
}

/// The deep view of a vector of byte vectors is its elements' views.
pub proof fn lemma_lines_deep_view(v: Vec<Vec<u8>>)
    ensures
        v.deep_view().len() == v@.len(),
        forall|i: int| 0 <= i < v@.len() ==> v.deep_view()[i] == (#[trigger] v@[i])@,
{
    assert forall|i: int| 0 <= i < v@.len() implies v.deep_view()[i] == (#[trigger] v@[i])@ by {
        lemma_bytes_deep_view(v@[i]);
    }
}

/// Compares two byte vectors.
pub fn bytes_eq(a: &Vec<u8>, b: &Vec<u8>) -> (r: bool)
    ensures
        r == (a@ == b@),
{
    if a.len() != b.len() {
        return false;
    }
    let mut i: usize = 0;
    while i < a.len()
        invariant
            i <= a.len(),
            a@.len() == b@.len(),
            forall|k: int| 0 <= k < i ==> a@[k] == b@[k],
        decreases a.len() - i,
    {
        if a[i] != b[i] {
            return false;
        }
        i = i + 1;
    }
    assert(a@ =~= b@);
    true
}

/// Copies a byte vector.
pub(crate) fn copy_of(src: &Vec<u8>) -> (r: Vec<u8>)
    ensures
        r@ == src@,
{
    let r = copy_range(src, 0, src.len());
    assert(r@ =~= src@);
    r
}

/// True when `sep` occurs inside `s` starting at position `i`.
pub open spec fn occurs_at(s: Seq<u8>, sep: Seq<u8>, i: int) -> bool {
    &&& 0 <= i
    &&& i + sep.len() <= s.len()
    &&& s.subrange(i, i + sep.len()) == sep
}

/// The position of the first occurrence of `sep` in `s`, if any.
pub open spec fn first_occurrence(s: Seq<u8>, sep: Seq<u8>) -> Option<int>
    decreases s.len(),
{
    if sep.len() == 0 || s.len() < sep.len() {
        None
    } else if s.subrange(0, sep.len() as int) == sep {
        Some(0)
    } else {
        match first_occurrence(s.skip(1), sep) {
            None => None,
            Some(j) => Some(j + 1),
        }
    }
}

/// `first_occurrence` returns the least position where `sep` occurs, and
/// `None` exactly when it occurs nowhere.
pub proof fn lemma_first_occurrence(s: Seq<u8>, sep: Seq<u8>)
    requires
        sep.len() > 0,
    ensures
        match first_occurrence(s, sep) {
            None => forall|i: int| !occurs_at(s, sep, i),
            Some(j) => occurs_at(s, sep, j) && (forall|i: int| 0 <= i < j ==> !occurs_at(s, sep, i)),
        },
    decreases s.len(),
{
    if s.len() < sep.len() {
    } else if s.subrange(0, sep.len() as int) == sep {
        assert(occurs_at(s, sep, 0));
    } else {
        lemma_first_occurrence(s.skip(1), sep);
        assert forall|i: int| 1 <= i && i + sep.len() <= s.len() implies #[trigger] s.subrange(
            i,
            i + sep.len(),
        ) == s.skip(1).subrange(i - 1, i - 1 + sep.len()) by {
            assert(s.subrange(i, i + sep.len()) =~= s.skip(1).subrange(i - 1, i - 1 + sep.len()));
        }
        match first_occurrence(s.skip(1), sep) {
            None => {
                assert forall|i: int| !occurs_at(s, sep, i) by {
                    if 1 <= i && i + sep.len() <= s.len() {
                        assert(!occurs_at(s.skip(1), sep, i - 1));
                    }
                }
            },
            Some(j) => {
                assert(occurs_at(s.skip(1), sep, j));
                assert(occurs_at(s, sep, j + 1));
                assert forall|i: int| 0 <= i < j + 1 implies !occurs_at(s, sep, i) by {
                    if 1 <= i {
                        assert(!occurs_at(s.skip(1), sep, i - 1));
                    }
                }
            },
        }
    }
}

/// `s` split on every occurrence of `sep`, in order; the separators are not
/// part of the result. A sequence without `sep` splits into itself alone.
pub open spec fn split_bytes(s: Seq<u8>, sep: Seq<u8>) -> Seq<Seq<u8>>
    decreases s.len(),
{
    match first_occurrence(s, sep) {
        None => seq![s],
        Some(j) => if 0 <= j && j + sep.len() <= s.len() && sep.len() > 0 {
            seq![s.take(j)] + split_bytes(s.skip(j + sep.len()), sep)
        } else {
            seq![s]
        },
    }
}

/// Compares `sep` against the bytes of `s` at position `i`.
fn occurs_at_exec(s: &Vec<u8>, sep: &Vec<u8>, i: usize) -> (r: bool)
    requires
        i + sep@.len() <= s@.len(),
    ensures
        r == occurs_at(s@, sep@, i as int),
{
    let mut j: usize = 0;
    while j < sep.len()
        invariant
            j <= sep.len(),
            i + sep.len() <= s.len(),
            forall|k: int| 0 <= k < j ==> s@[i + k] == sep@[k],
        decreases sep.len() - j,
    {
        if s[i + j] != sep[j] {
            assert(!occurs_at(s@, sep@, i as int)) by {
                assert(s@.subrange(i as int, i + sep@.len())[j as int] == s@[i + j]);
            }
            return false;
        }
        j = j + 1;
    }
    assert(s@.subrange(i as int, i + sep@.len()) =~= sep@);
    true
}

/// Finds the first occurrence of `sep` in `s` at or after `from`.
#[verifier::loop_isolation(false)]
pub(crate) fn find_from(s: &Vec<u8>, sep: &Vec<u8>, from: usize) -> (r: Option<usize>)
    requires
        sep.len() >= 1,
        from <= s.len(),
    ensures
        match r {
            None => first_occurrence(s@.skip(from as int), sep@) is None,
            Some(k) => from <= k && k + sep@.len() <= s@.len() && first_occurrence(
                s@.skip(from as int),
                sep@,
            ) == Some(k - from),
        },
{
    let ghost tail = s@.skip(from as int);
    proof {
        lemma_first_occurrence(tail, sep@);
        assert forall|k: int| 0 <= k && k + sep@.len() <= tail.len() implies #[trigger] tail.subrange(
            k,
            k + sep@.len(),
        ) == s@.subrange(from + k, from + k + sep@.len()) by {
            assert(tail.subrange(k, k + sep@.len()) =~= s@.subrange(
                from + k,
                from + k + sep@.len(),
            ));
        }
    }
    if sep.len() > s.len() {
        return None;
    }
    let mut i: usize = from;
    while i <= s.len() - sep.len()
        invariant
            from <= i,
            sep.len() >= 1,
            forall|k: int| from <= k < i ==> !occurs_at(s@, sep@, k),
        decreases s.len() - i,
    {
        if occurs_at_exec(s, sep, i) {
            proof {
                assert(tail.subrange(i - from, i - from + sep@.len()) == s@.subrange(
                    i as int,
                    i + sep@.len(),
                ));
                assert(occurs_at(tail, sep@, i - from));
                match first_occurrence(tail, sep@) {
                    None => {
                        assert(false);
                    },
                    Some(j) => {
                        if j < i - from {
                            assert(tail.subrange(j, j + sep@.len()) == s@.subrange(
                                from + j,
                                from + j + sep@.len(),
                            ));
                            assert(occurs_at(s@, sep@, from + j));
                            assert(false);
                        } else if j > i - from {
                            assert(!occurs_at(tail, sep@, i - from));
                            assert(false);
                        }
                    },
                }
            }
            return Some(i);
        }
        i = i + 1;
    }
    proof {
        match first_occurrence(tail, sep@) {
            None => {},
            Some(j) => {
                assert(tail.subrange(j, j + sep@.len()) == s@.subrange(
                    from + j,
                    from + j + sep@.len(),
                ));
                assert(occurs_at(s@, sep@, from + j));
                assert(false);
            },
        }
    }
    None
}

/// Copies `s[a..b]` into a fresh vector.
pub(crate) fn copy_range(s: &Vec<u8>, a: usize, b: usize) -> (r: Vec<u8>)
    requires
        a <= b && b <= s.len(),
    ensures
        r@ == s@.subrange(a as int, b as int),
{
    let mut r: Vec<u8> = Vec::new();
    let mut i: usize = a;
    while i < b
        invariant
            a <= i <= b <= s.len(),
            r@ =~= s@.subrange(a as int, i as int),
        decreases b - i,
    {
        r.push(s[i]);
        assert(r@ =~= s@.subrange(a as int, i + 1));
        i = i + 1;
    }
    r
}

/// Splits `s` on every occurrence of `sep`.
#[verifier::loop_isolation(false)]
pub fn split_on(s: &Vec<u8>, sep: &Vec<u8>) -> (parts: Vec<Vec<u8>>)
    requires
        sep.len() >= 1,
    ensures
        parts.deep_view() == split_bytes(s@, sep@),
{
    let mut parts: Vec<Vec<u8>> = Vec::new();
    let mut start: usize = 0;
    proof {
        assert(s@.skip(0) =~= s@);
        assert(parts.deep_view() =~~= Seq::<Seq<u8>>::empty());
        assert(parts.deep_view() + split_bytes(s@, sep@) =~~= split_bytes(s@, sep@));
    }
    loop
        invariant
            start <= s.len(),
            sep.len() >= 1,
            split_bytes(s@, sep@) == parts.deep_view() + split_bytes(s@.skip(start as int), sep@),
        decreases s.len() - start,
    {
        let ghost tail = s@.skip(start as int);
        let ghost parts_before = parts.deep_view();
        match find_from(s, sep, start) {
            None => {
                let rest = copy_range(s, start, s.len());
                parts.push(rest);
                proof {
                    assert(split_bytes(tail, sep@) == seq![tail]);
                    assert(rest@ =~= tail);
                    assert(parts.deep_view() =~~= parts_before.push(tail));
                    assert(parts_before + split_bytes(tail, sep@) =~~= parts.deep_view());
                }
                return parts;
            },
            Some(k) => {
                let part = copy_range(s, start, k);
                parts.push(part);
                proof {
                    let j = k - start;
                    assert(split_bytes(tail, sep@) == seq![tail.take(j)] + split_bytes(
                        tail.skip(j + sep@.len()),
                        sep@,
                    ));
                    assert(part@ =~= tail.take(j));
                    assert(tail.skip(j + sep@.len()) =~= s@.skip(k + sep@.len()));
                    assert(parts.deep_view() =~~= parts_before.push(part@));
                    assert(parts_before + split_bytes(tail, sep@) =~~= parts.deep_view()
                        + split_bytes(s@.skip(k + sep@.len()), sep@));
                }
                start = k + sep.len();
            },
        }
    }
}

} // verus!

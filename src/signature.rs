use vstd::prelude::*;

verus! {

/// The MD5 digest of the UTF-8 encoding of a text.
pub uninterp spec fn md5_of(text: Seq<char>) -> Seq<u8>;

/// Relies on `md5::compute`: the 16-byte MD5 digest of the bytes it is given,
/// here the UTF-8 bytes of `text`.
#[verifier::external_body]
fn md5_digest(text: &str) -> (r: Vec<u8>)
    ensures
        r@ == md5_of(text@),
        r@.len() == 16,
{
    md5::compute(text.as_bytes()).0.to_vec()
}

/// An upper-case hexadecimal digit.
pub open spec fn upper_hex_digit(d: nat) -> char {
    if d < 10 {
        crate::text::digit(d)
    } else if d == 10 {
        'A'
    } else if d == 11 {
        'B'
    } else if d == 12 {
        'C'
    } else if d == 13 {
        'D'
    } else if d == 14 {
        'E'
    } else {
        'F'
    }
}

/// The bytes in upper-case hexadecimal, two digits each.
pub open spec fn upper_hex(b: Seq<u8>) -> Seq<char>
    decreases b.len(),
{
    if b.len() == 0 {
        Seq::empty()
    } else {
        upper_hex(b.drop_last()) + seq![
            upper_hex_digit((b.last() / 16) as nat),
            upper_hex_digit((b.last() % 16) as nat),
        ]
    }
}

/// Two digits for each byte.
pub proof fn lemma_upper_hex_len(b: Seq<u8>)
    ensures
        upper_hex(b).len() == 2 * b.len(),
    decreases b.len(),
{
    if b.len() > 0 {
        lemma_upper_hex_len(b.drop_last());
    }
}

fn upper_hex_char(d: u8) -> (c: char)
    requires
        d < 16,
    ensures
        c == upper_hex_digit(d as nat),
{
    match d {
        10 => 'A',
        11 => 'B',
        12 => 'C',
        13 => 'D',
        14 => 'E',
        15 => 'F',
        _ => crate::text::digit_char(d),
    }
}

/// The signature text of a digest: its bytes in upper-case hexadecimal.
pub fn signature_from_digest(digest: &Vec<u8>) -> (r: String)
    ensures
        r@ == upper_hex(digest@),
{
    let mut r = String::new();
    let n = digest.len();
    let mut i: usize = 0;
    while i < n
        invariant
            n == digest@.len(),
            i <= n,
            r@ == upper_hex(digest@.subrange(0, i as int)),
        decreases n - i,
    {
        let b = digest[i];
        r.push(upper_hex_char(b / 16));
        r.push(upper_hex_char(b % 16));
        proof {
            let pre = digest@.subrange(0, i + 1);
            assert(pre.drop_last() =~= digest@.subrange(0, i as int));
            assert(pre.last() == b);
        }
        i = i + 1;
    }
    assert(digest@.subrange(0, n as int) =~= digest@);
    r
}

/// `a` sorts before `b`: at the first position where they differ, `a` has
/// the smaller character, or `a` is a proper prefix of `b`. This is the order
/// of `String`'s `Ord`, since UTF-8 keeps the order of code points.
pub open spec fn text_lt(a: Seq<char>, b: Seq<char>) -> bool {
    exists|i: int|
        0 <= i <= a.len() && i <= b.len() && #[trigger] a.subrange(0, i) == b.subrange(0, i) && (
        (i == a.len() && i < b.len()) || (i < a.len() && i < b.len() && (a[i] as u32) < (
        b[i] as u32)))
}

/// `text_lt` is asymmetric.
pub proof fn lemma_text_lt_asymmetric(a: Seq<char>, b: Seq<char>)
    requires
        text_lt(a, b),
    ensures
        !text_lt(b, a),
{
    let i = choose|i: int|
        0 <= i <= a.len() && i <= b.len() && #[trigger] a.subrange(0, i) == b.subrange(0, i) && (
        (i == a.len() && i < b.len()) || (i < a.len() && i < b.len() && (a[i] as u32) < (
        b[i] as u32)));
    if text_lt(b, a) {
        let j = choose|j: int|
            0 <= j <= b.len() && j <= a.len() && #[trigger] b.subrange(0, j) == a.subrange(0, j) && (
            (j == b.len() && j < a.len()) || (j < b.len() && j < a.len() && (b[j] as u32) < (
            a[j] as u32)));
        if i < j {
            assert(a.subrange(0, j)[i] == b.subrange(0, j)[i]);
        } else if j < i {
            assert(a.subrange(0, i)[j] == b.subrange(0, i)[j]);
        }
    }
}

/// `text_lt` is transitive.
pub proof fn lemma_text_lt_transitive(a: Seq<char>, b: Seq<char>, c: Seq<char>)
    requires
        text_lt(a, b),
        text_lt(b, c),
    ensures
        text_lt(a, c),
{
    let i = choose|i: int|
        0 <= i <= a.len() && i <= b.len() && #[trigger] a.subrange(0, i) == b.subrange(0, i) && (
        (i == a.len() && i < b.len()) || (i < a.len() && i < b.len() && (a[i] as u32) < (
        b[i] as u32)));
    let j = choose|j: int|
        0 <= j <= b.len() && j <= c.len() && #[trigger] b.subrange(0, j) == c.subrange(0, j) && (
        (j == b.len() && j < c.len()) || (j < b.len() && j < c.len() && (b[j] as u32) < (
        c[j] as u32)));
    if i < j {
        assert(b.subrange(0, j)[i] == c.subrange(0, j)[i]);
        assert(a.subrange(0, i) =~= c.subrange(0, i)) by {
            assert forall|k: int| 0 <= k < i implies #[trigger] a.subrange(0, i)[k] == c.subrange(0, i)[k] by {
                assert(a.subrange(0, i)[k] == b.subrange(0, i)[k]);
                assert(b.subrange(0, j)[k] == c.subrange(0, j)[k]);
            }
        }
    } else if j < i {
        assert(a.subrange(0, i)[j] == b.subrange(0, i)[j]);
        assert(a.subrange(0, j) =~= c.subrange(0, j)) by {
            assert forall|k: int| 0 <= k < j implies #[trigger] a.subrange(0, j)[k] == c.subrange(0, j)[k] by {
                assert(a.subrange(0, i)[k] == b.subrange(0, i)[k]);
                assert(b.subrange(0, j)[k] == c.subrange(0, j)[k]);
            }
        }
    } else {
        assert(a.subrange(0, i) =~= c.subrange(0, i)) by {
            assert forall|k: int| 0 <= k < i implies #[trigger] a.subrange(0, i)[k] == c.subrange(0, i)[k] by {
                assert(a.subrange(0, i)[k] == b.subrange(0, i)[k]);
                assert(b.subrange(0, j)[k] == c.subrange(0, j)[k]);
            }
        }
    }
}

proof fn lemma_distinct_chars_ordered(x: char, y: char)
    requires
        x != y,
    ensures
        (x as u32) < (y as u32) || (y as u32) < (x as u32),
{
}

/// `text_lt` is total: of two distinct texts, one sorts before the other.
pub proof fn lemma_text_lt_total(a: Seq<char>, b: Seq<char>)
    requires
        !text_lt(a, b),
        !text_lt(b, a),
    ensures
        a == b,
    decreases a.len(),
{
    if a.len() == 0 {
        if b.len() > 0 {
            assert(a.subrange(0, 0) =~= b.subrange(0, 0));
        }
        assert(a =~= b);
    } else if b.len() == 0 {
        assert(a.subrange(0, 0) =~= b.subrange(0, 0));
    } else if a[0] != b[0] {
        assert(a.subrange(0, 0) =~= b.subrange(0, 0));
        lemma_distinct_chars_ordered(a[0], b[0]);
    } else {
        let a1 = a.drop_first();
        let b1 = b.drop_first();
        if text_lt(a1, b1) {
            let i = choose|i: int|
                0 <= i <= a1.len() && i <= b1.len() && #[trigger] a1.subrange(0, i) == b1.subrange(0, i) && (
                (i == a1.len() && i < b1.len()) || (i < a1.len() && i < b1.len() && (a1[i] as u32) < (
                b1[i] as u32)));
            assert(a.subrange(0, i + 1) =~= b.subrange(0, i + 1)) by {
                assert forall|k: int| 0 <= k < i + 1 implies #[trigger] a.subrange(0, i + 1)[k] == b.subrange(0, i + 1)[k] by {
                    if k > 0 {
                        assert(a1.subrange(0, i)[k - 1] == b1.subrange(0, i)[k - 1]);
                    }
                }
            }
        } else if text_lt(b1, a1) {
            let i = choose|i: int|
                0 <= i <= b1.len() && i <= a1.len() && #[trigger] b1.subrange(0, i) == a1.subrange(0, i) && (
                (i == b1.len() && i < a1.len()) || (i < b1.len() && i < a1.len() && (b1[i] as u32) < (
                a1[i] as u32)));
            assert(b.subrange(0, i + 1) =~= a.subrange(0, i + 1)) by {
                assert forall|k: int| 0 <= k < i + 1 implies #[trigger] b.subrange(0, i + 1)[k] == a.subrange(0, i + 1)[k] by {
                    if k > 0 {
                        assert(b1.subrange(0, i)[k - 1] == a1.subrange(0, i)[k - 1]);
                    }
                }
            }
        } else {
            lemma_text_lt_total(a1, b1);
            assert(a =~= b) by {
                assert forall|k: int| 0 <= k < a.len() implies #[trigger] a[k] == b[k] by {
                    if k > 0 {
                        assert(a1[k - 1] == b1[k - 1]);
                    }
                }
            }
        }
    }
}

/// Whether `a` sorts before `b`.
pub fn text_less(a: &str, b: &str) -> (r: bool)
    ensures
        r == text_lt(a@, b@),
{
    let n = a.unicode_len();
    let m = b.unicode_len();
    let mut i: usize = 0;
    while i < n && i < m
        invariant
            n == a@.len(),
            m == b@.len(),
            i <= n,
            i <= m,
            a@.subrange(0, i as int) == b@.subrange(0, i as int),
        decreases n - i,
    {
        let x = a.get_char(i);
        let y = b.get_char(i);
        if x != y {
            let r = (x as u32) < (y as u32);
            proof {
                assert forall|k: int| 0 <= k <= a@.len() && k <= b@.len() && #[trigger] a@.subrange(0, k) == b@.subrange(0, k) implies k <= i by {
                    if k > i {
                        assert(a@.subrange(0, k)[i as int] == b@.subrange(0, k)[i as int]);
                    }
                }
                if !r {
                    assert forall|k: int| 0 <= k <= a@.len() && k <= b@.len() && #[trigger] a@.subrange(0, k) == b@.subrange(0, k) implies !((k == a@.len() && k < b@.len()) || (k < a@.len() && k < b@.len() && (a@[k] as u32) < (b@[k] as u32))) by {
                        if k < i {
                            assert(a@.subrange(0, i as int)[k] == b@.subrange(0, i as int)[k]);
                        }
                    }
                } else {
                    assert(a@.subrange(0, i as int) == b@.subrange(0, i as int));
                }
            }
            return r;
        }
        assert(a@.subrange(0, i + 1) =~= a@.subrange(0, i as int).push(x));
        assert(b@.subrange(0, i + 1) =~= b@.subrange(0, i as int).push(y));
        i = i + 1;
    }
    let r = i == n && i < m;
    proof {
        if !r {
            assert forall|k: int| 0 <= k <= a@.len() && k <= b@.len() && #[trigger] a@.subrange(0, k) == b@.subrange(0, k) implies !((k == a@.len() && k < b@.len()) || (k < a@.len() && k < b@.len() && (a@[k] as u32) < (b@[k] as u32))) by {
                if k < i {
                    assert(a@.subrange(0, i as int)[k] == b@.subrange(0, i as int)[k]);
                }
            }
        } else {
            assert(a@.subrange(0, i as int) == b@.subrange(0, i as int));
        }
    }
    r
}

/// `x` inserted into `s` before the first element that does not sort before it.
pub open spec fn insert_sorted(x: Seq<char>, s: Seq<Seq<char>>) -> Seq<Seq<char>>
    decreases s.len(),
{
    if s.len() == 0 {
        seq![x]
    } else if !text_lt(s[0], x) {
        seq![x] + s
    } else {
        seq![s[0]] + insert_sorted(x, s.drop_first())
    }
}

/// The texts in ascending order (an insertion sort).
pub open spec fn sort_texts_spec(s: Seq<Seq<char>>) -> Seq<Seq<char>>
    decreases s.len(),
{
    if s.len() == 0 {
        Seq::empty()
    } else {
        insert_sorted(s.last(), sort_texts_spec(s.drop_last()))
    }
}

pub open spec fn texts_view(v: Seq<String>) -> Seq<Seq<char>> {
    v.map_values(|t: String| t@)
}

/// The texts one after the other.
pub open spec fn concat_texts(s: Seq<Seq<char>>) -> Seq<char>
    decreases s.len(),
{
    if s.len() == 0 {
        Seq::empty()
    } else {
        concat_texts(s.drop_last()) + s.last()
    }
}

/// No text sorts before one that comes earlier.
pub open spec fn texts_sorted(s: Seq<Seq<char>>) -> bool {
    forall|i: int, j: int| 0 <= i < j < s.len() ==> !text_lt(#[trigger] s[j], #[trigger] s[i])
}

proof fn lemma_insert_sorted(x: Seq<char>, s: Seq<Seq<char>>)
    requires
        texts_sorted(s),
    ensures
        texts_sorted(insert_sorted(x, s)),
        insert_sorted(x, s).len() == s.len() + 1,
        insert_sorted(x, s).to_multiset() == s.to_multiset().insert(x),
        forall|k: int|
            0 <= k < insert_sorted(x, s).len() ==> #[trigger] insert_sorted(x, s)[k] == x
                || s.contains(insert_sorted(x, s)[k]),
    decreases s.len(),
{
    broadcast use vstd::seq_lib::group_to_multiset_ensures;

    let r = insert_sorted(x, s);
    if s.len() == 0 {
        assert(r =~= s.insert(0, x));
    } else if !text_lt(s[0], x) {
        assert(r =~= s.insert(0, x));
        assert forall|i: int, j: int| 0 <= i < j < r.len() implies !text_lt(#[trigger] r[j], #[trigger] r[i]) by {
            if i == 0 {
                let e = s[j - 1];
                assert(r[j] == e);
                if j - 1 > 0 {
                    assert(!text_lt(s[j - 1], s[0]));
                }
                if text_lt(e, x) && e != s[0] {
                    if text_lt(s[0], e) {
                        lemma_text_lt_transitive(s[0], e, x);
                    } else {
                        lemma_text_lt_total(e, s[0]);
                    }
                }
            } else {
                assert(r[i] == s[i - 1] && r[j] == s[j - 1]);
            }
        }
        assert forall|k: int| 0 <= k < r.len() implies #[trigger] r[k] == x || s.contains(r[k]) by {
            if k > 0 {
                assert(r[k] == s[k - 1]);
            }
        }
    } else {
        let rest = s.drop_first();
        assert forall|i: int, j: int| 0 <= i < j < rest.len() implies !text_lt(#[trigger] rest[j], #[trigger] rest[i]) by {
            assert(rest[i] == s[i + 1] && rest[j] == s[j + 1]);
        }
        lemma_insert_sorted(x, rest);
        let t = insert_sorted(x, rest);
        assert(r == seq![s[0]] + t);
        assert(r =~= t.insert(0, s[0]));
        assert(s =~= rest.insert(0, s[0]));
        assert(r.to_multiset() =~= s.to_multiset().insert(x));
        assert forall|k: int| 0 <= k < t.len() implies !text_lt(#[trigger] t[k], s[0]) by {
            if t[k] == x {
                lemma_text_lt_asymmetric(s[0], x);
            } else {
                assert(rest.contains(t[k]));
                let m = choose|m: int| 0 <= m < rest.len() && rest[m] == t[k];
                assert(rest[m] == s[m + 1]);
            }
        }
        assert forall|i: int, j: int| 0 <= i < j < r.len() implies !text_lt(#[trigger] r[j], #[trigger] r[i]) by {
            if i == 0 {
                assert(r[j] == t[j - 1]);
            } else {
                assert(r[i] == t[i - 1] && r[j] == t[j - 1]);
            }
        }
        assert forall|k: int| 0 <= k < r.len() implies #[trigger] r[k] == x || s.contains(r[k]) by {
            if k == 0 {
                assert(s[0] == r[0]);
            } else {
                assert(r[k] == t[k - 1]);
                if t[k - 1] != x {
                    let m = choose|m: int| 0 <= m < rest.len() && rest[m] == t[k - 1];
                    assert(s[m + 1] == r[k]);
                }
            }
        }
    }
}

/// The signing order: `sort_texts_spec` puts the texts in ascending order
/// and keeps every text, as often as it occurs.
pub proof fn lemma_sort_texts_sorted_permutation(s: Seq<Seq<char>>)
    ensures
        texts_sorted(sort_texts_spec(s)),
        sort_texts_spec(s).to_multiset() == s.to_multiset(),
    decreases s.len(),
{
    broadcast use vstd::seq_lib::group_to_multiset_ensures;

    if s.len() == 0 {
        assert(sort_texts_spec(s) =~= s);
    } else {
        lemma_sort_texts_sorted_permutation(s.drop_last());
        lemma_insert_sorted(s.last(), sort_texts_spec(s.drop_last()));
        assert(s =~= s.drop_last().push(s.last()));
    }
}

/// Inserting before position `j` is `insert_sorted` when everything before `j`
/// sorts before `x` and the element at `j`, if any, does not.
proof fn lemma_insert_at(x: Seq<char>, s: Seq<Seq<char>>, j: int)
    requires
        0 <= j <= s.len(),
        forall|k: int| 0 <= k < j ==> text_lt(#[trigger] s[k], x),
        j < s.len() ==> !text_lt(s[j], x),
    ensures
        insert_sorted(x, s) == s.subrange(0, j) + seq![x] + s.subrange(j, s.len() as int),
    decreases j,
{
    if j == 0 {
        assert(s.subrange(0, 0) + seq![x] + s.subrange(0, s.len() as int) =~= seq![x] + s);
    } else {
        let t = s.drop_first();
        assert forall|k: int| 0 <= k < j - 1 implies text_lt(#[trigger] t[k], x) by {
            assert(t[k] == s[k + 1]);
        }
        lemma_insert_at(x, t, j - 1);
        assert(seq![s[0]] + (t.subrange(0, j - 1) + seq![x] + t.subrange(j - 1, t.len() as int))
            =~= s.subrange(0, j) + seq![x] + s.subrange(j, s.len() as int));
    }
}

/// Inserts `x` into the sorted list `out` at the place `insert_sorted` gives.
fn insert_text(out: &mut Vec<String>, x: String)
    ensures
        texts_view(final(out)@) == insert_sorted(x@, texts_view(old(out)@)),
{
    let n = out.len();
    let mut j: usize = 0;
    while j < n && text_less(out[j].as_str(), x.as_str())
        invariant
            n == out@.len(),
            j <= n,
            forall|k: int| 0 <= k < j ==> text_lt(#[trigger] out@[k]@, x@),
        decreases n - j,
    {
        j = j + 1;
    }
    let ghost before = texts_view(out@);
    proof {
        assert forall|k: int| 0 <= k < j implies text_lt(#[trigger] before[k], x@) by {
            assert(before[k] == out@[k]@);
        }
        lemma_insert_at(x@, before, j as int);
    }
    out.insert(j, x);
    assert(texts_view(out@) =~= before.subrange(0, j as int) + seq![x@] + before.subrange(
        j as int,
        before.len() as int,
    ));
}

/// The texts of `items` in ascending order.
pub fn sort_texts(items: &Vec<String>) -> (r: Vec<String>)
    ensures
        texts_view(r@) == sort_texts_spec(texts_view(items@)),
{
    let mut out: Vec<String> = Vec::new();
    let n = items.len();
    let mut i: usize = 0;
    while i < n
        invariant
            n == items@.len(),
            i <= n,
            texts_view(out@) == sort_texts_spec(texts_view(items@.subrange(0, i as int))),
        decreases n - i,
    {
        let x = items[i].clone();
        insert_text(&mut out, x);
        proof {
            let pre = texts_view(items@.subrange(0, i + 1));
            assert(pre.drop_last() =~= texts_view(items@.subrange(0, i as int)));
            assert(pre.last() == items@[i as int]@);
        }
        i = i + 1;
    }
    assert(items@.subrange(0, n as int) =~= items@);
    out
}

/// Each parameter written as its key followed by its value.
pub open spec fn pair_texts(params: Seq<(String, String)>) -> Seq<Seq<char>> {
    params.map_values(|p: (String, String)| p.0@ + p.1@)
}

/// The text that is signed: the secret, then every parameter's key and value
/// in ascending order, then the secret again.
pub open spec fn signing_text_spec(params: Seq<(String, String)>, secret: Seq<char>) -> Seq<char> {
    secret + concat_texts(sort_texts_spec(pair_texts(params))) + secret
}

/// Two sorted sequences that hold the same texts equally often are equal.
proof fn lemma_sorted_unique(a: Seq<Seq<char>>, b: Seq<Seq<char>>)
    requires
        texts_sorted(a),
        texts_sorted(b),
        a.to_multiset() == b.to_multiset(),
    ensures
        a == b,
    decreases a.len(),
{
    broadcast use vstd::seq_lib::group_to_multiset_ensures;

    assert(a.len() == a.to_multiset().len() && b.len() == b.to_multiset().len());
    if a.len() > 0 {
        assert(a.to_multiset().count(a[0]) > 0) by {
            assert(a.contains(a[0]));
        }
        assert(b.contains(a[0]));
        assert(b.to_multiset().count(b[0]) > 0) by {
            assert(b.contains(b[0]));
        }
        assert(a.contains(b[0]));
        let m = choose|m: int| 0 <= m < b.len() && b[m] == a[0];
        let n = choose|n: int| 0 <= n < a.len() && a[n] == b[0];
        if m > 0 {
            assert(!text_lt(b[m], b[0]));
        }
        if n > 0 {
            assert(!text_lt(a[n], a[0]));
        }
        lemma_text_lt_total(a[0], b[0]);
        let a1 = a.drop_first();
        let b1 = b.drop_first();
        assert(a =~= a1.insert(0, a[0]));
        assert(b =~= b1.insert(0, b[0]));
        assert(a1.to_multiset() =~= b1.to_multiset()) by {
            assert(a1.to_multiset().insert(a[0]) == b1.to_multiset().insert(a[0]));
            assert forall|t: Seq<char>| a1.to_multiset().count(t) == b1.to_multiset().count(t) by {
                assert(a1.to_multiset().insert(a[0]).count(t) == b1.to_multiset().insert(a[0]).count(t));
            }
        }
        assert forall|i: int, j: int| 0 <= i < j < a1.len() implies !text_lt(#[trigger] a1[j], #[trigger] a1[i]) by {
            assert(a1[i] == a[i + 1] && a1[j] == a[j + 1]);
        }
        assert forall|i: int, j: int| 0 <= i < j < b1.len() implies !text_lt(#[trigger] b1[j], #[trigger] b1[i]) by {
            assert(b1[i] == b[i + 1] && b1[j] == b[j + 1]);
        }
        lemma_sorted_unique(a1, b1);
        assert(a =~= b);
    } else {
        assert(a =~= b);
    }
}

/// The signature does not depend on the order of the parameters: two lists
/// holding the same key/value texts equally often are signed alike.
pub proof fn lemma_signature_order_independent(
    p: Seq<(String, String)>,
    q: Seq<(String, String)>,
    secret: Seq<char>,
)
    requires
        pair_texts(p).to_multiset() == pair_texts(q).to_multiset(),
    ensures
        signing_text_spec(p, secret) == signing_text_spec(q, secret),
{
    lemma_sort_texts_sorted_permutation(pair_texts(p));
    lemma_sort_texts_sorted_permutation(pair_texts(q));
    lemma_sorted_unique(sort_texts_spec(pair_texts(p)), sort_texts_spec(pair_texts(q)));
}

pub fn signing_text(params: &Vec<(String, String)>, secret: &str) -> (r: String)
    ensures
        r@ == signing_text_spec(params@, secret@),
{
    let mut items: Vec<String> = Vec::new();
    let n = params.len();
    let mut i: usize = 0;
    while i < n
        invariant
            n == params@.len(),
            i <= n,
            items@.len() == i,
            texts_view(items@) == pair_texts(params@.subrange(0, i as int)),
        decreases n - i,
    {
        let p = &params[i];
        let item = String::from_str(p.0.as_str()).concat(p.1.as_str());
        let ghost before = items@;
        assert(item@ == params@[i as int].0@ + params@[i as int].1@);
        items.push(item);
        proof {
            let want = pair_texts(params@.subrange(0, i + 1));
            assert forall|j: int| 0 <= j < i + 1 implies #[trigger] texts_view(items@)[j] == want[j] by {
                if j < i {
                    assert(items@[j] == before[j]);
                    assert(texts_view(before)[j] == pair_texts(params@.subrange(0, i as int))[j]);
                }
            }
            assert(texts_view(items@) =~= want);
        }
        i = i + 1;
    }
    assert(params@.subrange(0, n as int) =~= params@);
    let sorted = sort_texts(&items);
    let mut r = String::from_str(secret);
    let m = sorted.len();
    let mut k: usize = 0;
    while k < m
        invariant
            m == sorted@.len(),
            k <= m,
            r@ == secret@ + concat_texts(texts_view(sorted@).subrange(0, k as int)),
        decreases m - k,
    {
        r.append(sorted[k].as_str());
        proof {
            let pre = texts_view(sorted@).subrange(0, k + 1);
            assert(pre.drop_last() =~= texts_view(sorted@).subrange(0, k as int));
        }
        k = k + 1;
    }
    assert(texts_view(sorted@).subrange(0, m as int) =~= texts_view(sorted@));
    r.append(secret);
    r
}

/// The request signature: the upper-case hexadecimal MD5 digest of the
/// signing text of `params` under `client_secret`.
pub fn generate_signature(params: &Vec<(String, String)>, client_secret: &str) -> (r: String)
    ensures
        r@ == upper_hex(md5_of(signing_text_spec(params@, client_secret@))),
        r@.len() == 32,
{
    let text = signing_text(params, client_secret);
    let digest = md5_digest(text.as_str());
    proof {
        lemma_upper_hex_len(digest@);
    }
    signature_from_digest(&digest)
}

} // verus!

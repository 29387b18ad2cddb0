//! Turning a directory listing into gallery membership: keep the entries
//! whose extension is on the image whitelist, and order them under natural
//! (numeric-aware) lexical comparison. The comparator does not read names
//! raw: it skips characters that are neither letters nor digits (so digit
//! runs merge across them), transliterates non-ASCII letters and digits to
//! ASCII (which can itself yield digits), and reads each pair of aligned
//! digit runs into 64-bit integers, which cannot take twenty digits. So
//! only all-ASCII names whose merged digit runs stay under twenty digits
//! are handed to it; the rare others keep their membership but follow the
//! sorted block in listing order.

use vstd::prelude::*;
use vstd::multiset::Multiset;
use vstd::seq_lib::lemma_multiset_commutative;
use lexical_sort::StringSort;
use crate::paths::is_image_path;
use crate::paths::is_image_path_seq;

verus! {

broadcast use vstd::seq_lib::group_filter_ensures, vstd::seq_lib::group_to_multiset_ensures;

/// `c` is an ASCII digit.
pub open spec fn is_digit(c: char) -> bool {
    '0' <= c && c <= '9'
}

/// `c` is an ASCII character.
pub open spec fn is_ascii_char(c: char) -> bool {
    (c as u32) < 128
}

/// `c` is an ASCII letter or digit.
pub open spec fn is_alnum(c: char) -> bool {
    is_digit(c) || ('a' <= c && c <= 'z') || ('A' <= c && c <= 'Z')
}

/// What the comparator reads of an all-ASCII name: its letters and digits
/// in order; the other characters are skipped, so they do not break a
/// digit run.
pub open spec fn alnum_stream(s: Seq<char>) -> Seq<char> {
    s.filter(|c: char| is_alnum(c))
}

/// The twenty characters of `s` from `w` on are all ASCII digits.
pub open spec fn all_digits_window(s: Seq<char>, w: int) -> bool {
    forall|j: int| w <= j < w + 20 ==> is_digit(s[j])
}

/// The comparator can take `s`: every character is ASCII, and every digit
/// run in the stream the comparator reads of it is under twenty digits
/// long — every window of twenty stream characters holds a letter.
pub open spec fn sortable(s: Seq<char>) -> bool {
    &&& forall|i: int| 0 <= i < s.len() ==> is_ascii_char(s[i])
    &&& forall|w: int|
        0 <= w && w + 20 <= alnum_stream(s).len() ==> !all_digits_window(alnum_stream(s), w)
}

/// Windows that avoid an all-digit block keep doing so when a character
/// is appended after them.
proof fn lemma_windows_push(st: Seq<char>, c: char)
    requires
        forall|w: int| 0 <= w && w + 20 <= st.len() ==> !all_digits_window(st, w),
    ensures
        forall|w: int| 0 <= w && w + 20 <= st.len() ==> !all_digits_window(st.push(c), w),
{
    assert forall|w: int| 0 <= w && w + 20 <= st.len() implies !all_digits_window(
        st.push(c),
        w,
    ) by {
        assert(!all_digits_window(st, w));
        let j = choose|j: int| w <= j < w + 20 && !is_digit(st[j]);
        assert(st.push(c)[j] == st[j]);
        assert(!is_digit(st.push(c)[j]));
    }
}

/// A prefix of a name contributes a prefix of its stream.
proof fn lemma_stream_prefix(s: Seq<char>, n: int)
    requires
        0 <= n <= s.len(),
    ensures
        alnum_stream(s.take(n)).len() <= alnum_stream(s).len(),
        forall|k: int|
            0 <= k < alnum_stream(s.take(n)).len() ==> alnum_stream(s)[k] == alnum_stream(
                s.take(n),
            )[k],
{
    broadcast use vstd::seq::Seq::filter_distributes_over_add;

    assert(s =~= s.take(n) + s.skip(n));
    assert(alnum_stream(s.take(n) + s.skip(n)) == alnum_stream(s.take(n)) + alnum_stream(
        s.skip(n),
    ));
}

/// Whether the comparator can take `s`: all ASCII, with every merged digit
/// run under twenty digits.
pub fn is_sortable(s: &str) -> (r: bool)
    ensures
        r == sortable(s@),
{
    let len = s.unicode_len();
    let mut i: usize = 0;
    let mut run: usize = 0;
    while i < len
        invariant
            len == s@.len(),
            0 <= i <= len,
            forall|k: int| 0 <= k < i ==> is_ascii_char(s@[k]),
            ({
                let st = alnum_stream(s@.take(i as int));
                &&& run <= st.len()
                &&& run <= 19
                &&& forall|k: int| st.len() - run <= k < st.len() ==> is_digit(st[k])
                &&& run < st.len() ==> !is_digit(st[st.len() - run - 1])
                &&& forall|w: int| 0 <= w && w + 20 <= st.len() ==> !all_digits_window(st, w)
            }),
        decreases len - i,
    {
        let c = s.get_char(i);
        proof {
            reveal(Seq::filter);
            assert(s@.take(i as int + 1).drop_last() =~= s@.take(i as int));
            assert(s@.take(i as int + 1).last() == s@[i as int]);
        }
        if (c as u32) >= 128 {
            proof {
                assert(!is_ascii_char(s@[i as int]));
            }
            return false;
        }
        let digit = '0' <= c && c <= '9';
        let letter = ('a' <= c && c <= 'z') || ('A' <= c && c <= 'Z');
        if digit {
            let ghost st = alnum_stream(s@.take(i as int));
            let ghost st1 = alnum_stream(s@.take(i as int + 1));
            proof {
                assert(st1 =~= st.push(s@[i as int]));
            }
            if run == 19 {
                proof {
                    let w: int = st1.len() - 20;
                    assert(all_digits_window(st1, w)) by {
                        assert(forall|k: int| st.len() - 19 <= k < st.len() ==> is_digit(st1[k]));
                        assert(is_digit(st1[st1.len() - 1]));
                    }
                    lemma_stream_prefix(s@, i as int + 1);
                    assert(all_digits_window(alnum_stream(s@), w)) by {
                        assert(forall|k: int| w <= k < w + 20 ==> alnum_stream(s@)[k] == st1[k]);
                    }
                    assert(!sortable(s@));
                }
                return false;
            }
            run = run + 1;
            proof {
                lemma_windows_push(st, s@[i as int]);
                let w: int = st1.len() - 20;
                if w >= 0 {
                    let j: int = st.len() - run;
                    assert(!is_digit(st1[j]));
                    assert(!all_digits_window(st1, w)) by {
                        assert(!is_digit(st1[j]));
                    }
                }
            }
        } else if letter {
            let ghost st = alnum_stream(s@.take(i as int));
            let ghost st1 = alnum_stream(s@.take(i as int + 1));
            run = 0;
            proof {
                assert(st1 =~= st.push(s@[i as int]));
                lemma_windows_push(st, s@[i as int]);
                assert(!is_digit(st1[st1.len() - 1]));
                let w: int = st1.len() - 20;
                if w >= 0 {
                    assert(!all_digits_window(st1, w)) by {
                        assert(!is_digit(st1[st1.len() - 1]));
                    }
                }
            }
        } else {
            proof {
                assert(alnum_stream(s@.take(i as int + 1)) =~= alnum_stream(s@.take(i as int)));
            }
        }
        i = i + 1;
    }
    proof {
        assert(s@.take(len as int) =~= s@);
    }
    true
}

/// The natural lexical order on strings: `a` comes no later than `b` under
/// lexical_sort's comparison that folds case, transliterates to ASCII,
/// skips non-alphanumeric characters and compares digit runs by value.
/// A function of the two sequences alone, pinned to the locked versions of
/// lexical-sort and any_ascii and to the toolchain's Unicode tables.
pub uninterp spec fn natural_le(a: Seq<char>, b: Seq<char>) -> bool;

/// Relies on lexical_sort's `string_sort_unstable` with the
/// `natural_lexical_only_alnum_cmp` comparator: it reorders the strings of
/// `v` (the same strings, as a multiset) so that they ascend under that
/// comparison. The comparator skips characters that are neither letters
/// nor digits, transliterates non-ASCII ones (which can itself yield
/// digits), and accumulates each pair of aligned digit runs of that stream
/// into 64-bit integers, which cannot take a run of twenty digits. So it
/// is only handed all-ASCII strings whose digit runs in that stream are
/// shorter.
#[verifier::external_body]
fn nat_sort(v: Vec<String>) -> (r: Vec<String>)
    requires
        forall|i: int| 0 <= i < v@.len() ==> sortable(v@[i]@),
    ensures
        r@.len() == v@.len(),
        r@.map_values(|s: String| s@).to_multiset() == v@.map_values(
            |s: String| s@,
        ).to_multiset(),
        forall|i: int, j: int| 0 <= i < j < r@.len() ==> natural_le(r@[i]@, r@[j]@),
{
    let mut v = v;
    v.string_sort_unstable(lexical_sort::natural_lexical_only_alnum_cmp);
    v
}

/// The subsequence of paths that name image files, in their given order.
pub open spec fn images_only(s: Seq<Seq<char>>) -> Seq<Seq<char>> {
    s.filter(|p: Seq<char>| is_image_path_seq(p))
}

/// The image paths the comparator can take, in their given order.
pub open spec fn sortable_images_of(s: Seq<Seq<char>>) -> Seq<Seq<char>> {
    s.filter(|p: Seq<char>| is_image_path_seq(p) && sortable(p))
}

/// The image paths the comparator cannot take — holding a non-ASCII
/// character or a merged digit run of twenty or more digits — in their
/// given order.
pub open spec fn unsortable_images_of(s: Seq<Seq<char>>) -> Seq<Seq<char>> {
    s.filter(|p: Seq<char>| is_image_path_seq(p) && !sortable(p))
}

/// A listing's image paths split exactly into the two classes.
proof fn lemma_image_partition(s: Seq<Seq<char>>)
    ensures
        images_only(s).to_multiset() == sortable_images_of(s).to_multiset().add(
            unsortable_images_of(s).to_multiset(),
        ),
    decreases s.len(),
{
    reveal(Seq::filter);
    if s.len() == 0 {
        assert(images_only(s).to_multiset() =~= Multiset::empty());
        assert(sortable_images_of(s).to_multiset() =~= Multiset::empty());
        assert(unsortable_images_of(s).to_multiset() =~= Multiset::empty());
        assert(images_only(s).to_multiset() =~= sortable_images_of(s).to_multiset().add(
            unsortable_images_of(s).to_multiset(),
        ));
    } else {
        lemma_image_partition(s.drop_last());
        let d = s.drop_last();
        let x = s.last();
        if is_image_path_seq(x) {
            assert(images_only(s) == images_only(d).push(x));
            if sortable(x) {
                assert(sortable_images_of(s) == sortable_images_of(d).push(x));
                assert(unsortable_images_of(s) == unsortable_images_of(d));
            } else {
                assert(sortable_images_of(s) == sortable_images_of(d));
                assert(unsortable_images_of(s) == unsortable_images_of(d).push(x));
            }
            assert(images_only(s).to_multiset() =~= sortable_images_of(s).to_multiset().add(
                unsortable_images_of(s).to_multiset(),
            ));
        } else {
            assert(images_only(s) == images_only(d));
            assert(sortable_images_of(s) == sortable_images_of(d));
            assert(unsortable_images_of(s) == unsortable_images_of(d));
        }
    }
}

/// Every string of a reordering of `b` is a string of `b`: so when every
/// member of `b` satisfies the whitelist, so does every member of `a`.
proof fn lemma_sorted_members(a: Seq<Seq<char>>, b: Seq<Seq<char>>)
    requires
        a.to_multiset() == b.to_multiset(),
        forall|i: int| 0 <= i < b.len() ==> is_image_path_seq(#[trigger] b[i]),
    ensures
        forall|i: int| 0 <= i < a.len() ==> is_image_path_seq(#[trigger] a[i]),
{
    assert forall|i: int| 0 <= i < a.len() implies is_image_path_seq(#[trigger] a[i]) by {
        a.to_multiset_ensures();
        b.to_multiset_ensures();
        assert(a.to_multiset().count(a[i]) > 0);
        assert(b.contains(a[i]));
        let j = choose|j: int| 0 <= j < b.len() && b[j] == a[i];
        assert(is_image_path_seq(b[j]));
    }
}

/// Builds the membership of a gallery out of a directory listing: exactly
/// the entries whose extension is on the image whitelist. The ones the
/// comparator can take come first, ascending under the natural lexical
/// comparison; any with a non-ASCII character or a merged digit run of
/// twenty or more digits follow in listing order.
pub fn scan(entries: Vec<String>) -> (r: Vec<String>)
    ensures
        r@.map_values(|s: String| s@).to_multiset() == images_only(
            entries@.map_values(|s: String| s@),
        ).to_multiset(),
        forall|i: int| 0 <= i < r@.len() ==> is_image_path_seq(#[trigger] r@[i]@),
        ({
            let full = entries@.map_values(|s: String| s@);
            let k = sortable_images_of(full).len() as int;
            &&& r@.len() == k + unsortable_images_of(full).len()
            &&& forall|i: int, j: int| 0 <= i < j < k ==> natural_le(r@[i]@, r@[j]@)
            &&& r@.map_values(|s: String| s@).subrange(k, r@.len() as int) == unsortable_images_of(
                full,
            )
        }),
{
    let ghost full: Seq<Seq<char>> = entries@.map_values(|s: String| s@);
    let mut keep: Vec<String> = Vec::new();
    let mut long: Vec<String> = Vec::new();
    let mut i: usize = 0;
    while i < entries.len()
        invariant
            full == entries@.map_values(|s: String| s@),
            0 <= i <= entries@.len(),
            keep@.map_values(|s: String| s@) == sortable_images_of(full.take(i as int)),
            long@.map_values(|s: String| s@) == unsortable_images_of(full.take(i as int)),
        decreases entries@.len() - i,
    {
        proof {
            reveal(Seq::filter);
            assert(full.take(i as int + 1).drop_last() =~= full.take(i as int));
            assert(full.take(i as int + 1).last() == entries@[i as int]@);
        }
        if is_image_path(&entries[i]) {
            if is_sortable(&entries[i]) {
                keep.push(entries[i].clone());
            } else {
                long.push(entries[i].clone());
            }
        }
        proof {
            assert(keep@.map_values(|s: String| s@) =~= sortable_images_of(
                full.take(i as int + 1),
            ));
            assert(long@.map_values(|s: String| s@) =~= unsortable_images_of(
                full.take(i as int + 1),
            ));
        }
        i = i + 1;
    }
    proof {
        assert(full.take(entries@.len() as int) =~= full);
    }
    let ghost keepv: Seq<Seq<char>> = keep@.map_values(|s: String| s@);
    let ghost longv: Seq<Seq<char>> = long@.map_values(|s: String| s@);
    proof {
        assert forall|j: int| 0 <= j < keep@.len() implies sortable(#[trigger] keep@[j]@) by {
            assert(sortable_images_of(full)[j] == keepv[j]);
        }
    }
    let mut r = nat_sort(keep);
    let ghost sortedv: Seq<Seq<char>> = r@.map_values(|s: String| s@);
    r.append(&mut long);
    proof {
        let rv = r@.map_values(|s: String| s@);
        assert(rv =~= sortedv + longv);
        lemma_multiset_commutative(sortedv, longv);
        lemma_image_partition(full);
        let k = sortable_images_of(full).len() as int;
        assert(sortedv.len() == k);
        assert(rv.subrange(k, rv.len() as int) =~= longv);
        assert forall|a: int, b: int| 0 <= a < b < k implies natural_le(r@[a]@, r@[b]@) by {
            assert(rv[a] == sortedv[a] && rv[b] == sortedv[b]);
        }
        assert forall|j: int| 0 <= j < keepv.len() implies is_image_path_seq(
            #[trigger] keepv[j],
        ) by {
            assert(sortable_images_of(full)[j] == keepv[j]);
        }
        lemma_sorted_members(sortedv, keepv);
        assert forall|j: int| 0 <= j < r@.len() implies is_image_path_seq(#[trigger] r@[j]@) by {
            if j < k {
                assert(rv[j] == sortedv[j]);
            } else {
                assert(rv[j] == longv[j - k]);
                assert(unsortable_images_of(full)[j - k] == longv[j - k]);
            }
        }
    }
    r
}

} // verus!
